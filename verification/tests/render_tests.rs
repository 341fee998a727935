use pixterm::render;
use pixterm::resample;
use pixterm::Interpolation;
use pixterm::Pixel;
use pixterm::PixelGrid;
use pixterm::RenderConfig;
use pixterm::RenderError;

fn px(r: u8, g: u8, b: u8, a: u8) -> Pixel {
    Pixel { r, g, b, a }
}

fn grid(rows: Vec<Vec<Pixel>>) -> PixelGrid {
    PixelGrid::from_rows(rows).expect("rows must be rectangular")
}

fn cfg(width: u16, height: u16, threshold: u8, interpolation: Interpolation) -> RenderConfig {
    RenderConfig { width, height, threshold, interpolation }
}

fn fg(p: Pixel, glyph: char) -> String {
    format!("\u{1b}[38;2;{};{};{}m{}\u{1b}[0m", p.r, p.g, p.b, glyph)
}

fn fg_bg(f: Pixel, b: Pixel, glyph: char) -> String {
    format!(
        "\u{1b}[38;2;{};{};{};48;2;{};{};{}m{}\u{1b}[0m",
        f.r, f.g, f.b, b.r, b.g, b.b, glyph
    )
}

#[test]
fn two_by_two_opaque_colors() {
    let red = px(255, 0, 0, 255);
    let green = px(0, 255, 0, 255);
    let blue = px(0, 0, 255, 255);
    let white = px(255, 255, 255, 255);
    let g = grid(vec![vec![red, green], vec![blue, white]]);
    let out = render(&g, &cfg(2, 2, 50, Interpolation::Nearest)).unwrap();
    let expected = format!("{}{}\n", fg_bg(blue, red, '\u{2584}'), fg_bg(white, green, '\u{2584}'));
    assert_eq!(out, expected);
}

#[test]
fn transparent_column_renders_as_space() {
    let red_faint = px(255, 0, 0, 10);
    let green = px(0, 255, 0, 255);
    let blue_faint = px(0, 0, 255, 10);
    let white = px(255, 255, 255, 255);
    let g = grid(vec![vec![red_faint, green], vec![blue_faint, white]]);
    let out = render(&g, &cfg(2, 2, 50, Interpolation::Nearest)).unwrap();
    let expected = format!(" {}\n", fg_bg(white, green, '\u{2584}'));
    assert_eq!(out, expected);
}

#[test]
fn line_count_is_half_height_rounded_up() {
    let p = px(1, 2, 3, 255);
    let g = grid(vec![vec![p, p, p], vec![p, p, p], vec![p, p, p]]);
    for (h, want) in [(1u16, 1usize), (2, 1), (3, 2), (4, 2), (5, 3), (32, 16)] {
        let out = render(&g, &cfg(4, h, 50, Interpolation::Nearest)).unwrap();
        let lines = out.matches('\n').count();
        assert_eq!(lines, want, "target height {h}");
        assert!(out.ends_with('\n'));
    }
}

#[test]
fn fully_transparent_image_renders_blank() {
    let clear = px(90, 90, 90, 0);
    let g = grid(vec![vec![clear, clear], vec![clear, clear], vec![clear, clear]]);
    let out = render(&g, &cfg(2, 3, 50, Interpolation::Nearest)).unwrap();
    assert_eq!(out, "  \n  \n");
    assert!(!out.contains('\u{1b}'));
}

#[test]
fn fully_opaque_image_has_no_space() {
    let c = px(10, 20, 30, 255);
    let g = grid(vec![vec![c, c], vec![c, c]]);
    let out = render(&g, &cfg(2, 2, 255, Interpolation::Nearest)).unwrap();
    let cell = fg_bg(c, c, '\u{2584}');
    assert_eq!(out, format!("{cell}{cell}\n"));
    assert!(!out.contains(' '));
}

#[test]
fn alpha_equal_to_threshold_is_visible() {
    let p = px(100, 100, 100, 50);
    let g = grid(vec![vec![p]]);
    let out = render(&g, &cfg(1, 1, 50, Interpolation::Nearest)).unwrap();
    assert_eq!(out, format!("{}\n", fg(p, '\u{2580}')));
}

#[test]
fn alpha_one_below_threshold_is_invisible() {
    let p = px(100, 100, 100, 49);
    let g = grid(vec![vec![p]]);
    let out = render(&g, &cfg(1, 1, 50, Interpolation::Nearest)).unwrap();
    assert_eq!(out, " \n");
}

#[test]
fn zero_threshold_shows_synthetic_row_as_black() {
    let p = px(40, 50, 60, 0);
    let g = grid(vec![vec![p]]);
    let out = render(&g, &cfg(1, 1, 0, Interpolation::Nearest)).unwrap();
    assert_eq!(out, format!("{}\n", fg_bg(px(0, 0, 0, 0), p, '\u{2584}')));
}

#[test]
fn nearest_resample_to_same_size_is_identity() {
    let rows = vec![
        vec![px(1, 2, 3, 4), px(5, 6, 7, 8), px(9, 10, 11, 12)],
        vec![px(13, 14, 15, 16), px(17, 18, 19, 20), px(21, 22, 23, 24)],
    ];
    let g = grid(rows.clone());
    let out = resample(&g, 3, 2, Interpolation::Nearest).unwrap();
    assert_eq!(out.height(), 2);
    assert_eq!(out.width(), 3);
    for y in 0..2 {
        for x in 0..3 {
            assert_eq!(out.get(y, x), rows[y][x]);
        }
    }
}

#[test]
fn cubic_resample_to_same_size_is_identity() {
    let rows = vec![
        vec![px(200, 0, 0, 255), px(0, 200, 0, 255)],
        vec![px(0, 0, 200, 255), px(200, 200, 200, 128)],
    ];
    let g = grid(rows.clone());
    let out = resample(&g, 2, 2, Interpolation::Cubic).unwrap();
    for y in 0..2 {
        for x in 0..2 {
            assert_eq!(out.get(y, x), rows[y][x]);
        }
    }
}

#[test]
fn cubic_resample_of_uniform_image_keeps_the_color() {
    let c = px(100, 150, 200, 255);
    let g = grid(vec![vec![c; 4]; 4]);
    let out = resample(&g, 2, 2, Interpolation::Cubic).unwrap();
    for y in 0..2 {
        for x in 0..2 {
            assert_eq!(out.get(y, x), c);
        }
    }
}

#[test]
fn nearest_downsample_picks_the_proportionally_nearest_pixel() {
    let rows = vec![
        vec![px(1, 1, 1, 255), px(2, 2, 2, 255)],
        vec![px(3, 3, 3, 255), px(4, 4, 4, 255)],
    ];
    let g = grid(rows);
    let out = resample(&g, 1, 1, Interpolation::Nearest).unwrap();
    assert_eq!(out.get(0, 0), px(4, 4, 4, 255));
}

#[test]
fn odd_height_second_line_shows_only_upper_halves() {
    let red = px(255, 0, 0, 255);
    let g = grid(vec![vec![red, red], vec![red, red], vec![red, red]]);
    let out = render(&g, &cfg(2, 3, 50, Interpolation::Nearest)).unwrap();
    let both = fg_bg(red, red, '\u{2584}');
    let top = fg(red, '\u{2580}');
    assert_eq!(out, format!("{both}{both}\n{top}{top}\n"));
}

#[test]
fn empty_source_is_rejected() {
    let g = grid(vec![]);
    let r = render(&g, &cfg(4, 4, 50, Interpolation::Nearest));
    assert_eq!(r, Err(RenderError::InvalidSource));
    let zero_width = grid(vec![vec![], vec![]]);
    let r = render(&zero_width, &cfg(4, 4, 50, Interpolation::Cubic));
    assert_eq!(r, Err(RenderError::InvalidSource));
}

#[test]
fn zero_target_size_is_rejected_before_resampling() {
    let p = px(1, 2, 3, 255);
    let g = grid(vec![vec![p]]);
    assert_eq!(
        render(&g, &cfg(0, 4, 50, Interpolation::Nearest)),
        Err(RenderError::InvalidConfiguration)
    );
    assert_eq!(
        render(&g, &cfg(4, 0, 50, Interpolation::Nearest)),
        Err(RenderError::InvalidConfiguration)
    );
    // The empty-source check comes after the configuration check.
    let empty = grid(vec![]);
    assert_eq!(
        render(&empty, &cfg(0, 0, 50, Interpolation::Nearest)),
        Err(RenderError::InvalidConfiguration)
    );
}

#[test]
fn ragged_rows_do_not_form_a_grid() {
    let p = px(0, 0, 0, 255);
    assert!(PixelGrid::from_rows(vec![vec![p, p], vec![p]]).is_none());
    assert!(PixelGrid::from_rows(vec![vec![p], vec![p]]).is_some());
}

#[test]
fn error_messages_name_the_failure() {
    assert_eq!(RenderError::InvalidSource.message(), "the source image is empty");
    assert_eq!(RenderError::InvalidConfiguration.message(), "the target size is zero");
}

#[test]
fn channel_values_print_unpadded_decimals() {
    let low = px(0, 9, 255, 255);
    let g = grid(vec![vec![low]]);
    let out = render(&g, &cfg(1, 1, 1, Interpolation::Nearest)).unwrap();
    assert_eq!(out, "\u{1b}[38;2;0;9;255m\u{2580}\u{1b}[0m\n");
    let mid = px(10, 99, 100, 255);
    let g = grid(vec![vec![mid]]);
    let out = render(&g, &cfg(1, 1, 1, Interpolation::Nearest)).unwrap();
    assert_eq!(out, "\u{1b}[38;2;10;99;100m\u{2580}\u{1b}[0m\n");
}

#[test]
fn upscaling_replicates_pixels_under_nearest() {
    let dark = px(8, 8, 8, 255);
    let light = px(240, 240, 240, 255);
    let g = grid(vec![vec![dark, light]]);
    let out = resample(&g, 4, 2, Interpolation::Nearest).unwrap();
    for y in 0..2 {
        assert_eq!(out.get(y, 0), dark);
        assert_eq!(out.get(y, 1), dark);
        assert_eq!(out.get(y, 2), light);
        assert_eq!(out.get(y, 3), light);
    }
}

#[test]
fn alpha_is_resampled_like_the_color_channels() {
    // A half-transparent region thresholds away after nearest resampling.
    let faint = px(200, 0, 0, 20);
    let strong = px(0, 200, 0, 200);
    let g = grid(vec![vec![faint, strong], vec![faint, strong]]);
    let out = render(&g, &cfg(2, 2, 100, Interpolation::Nearest)).unwrap();
    let cell = fg_bg(strong, strong, '\u{2584}');
    assert_eq!(out, format!(" {cell}\n"));
}
