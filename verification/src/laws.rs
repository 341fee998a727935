//! Proved laws of the rendering core: the line count of the output, how fully
//! opaque and fully transparent images render, the visibility of a pixel whose
//! alpha sits exactly at the threshold, nearest-neighbor resampling being the
//! identity at the source's own size, and how the synthesized row of an
//! odd-height grid renders.

use vstd::prelude::*;

use crate::escape::dec_seq;
use crate::escape::fg_bg_prefix;
use crate::escape::fg_prefix;
use crate::escape::is_digit;
use crate::escape::lemma_dec_seq_digits;
use crate::escape::reset_seq;
use crate::escape::rgb_params;
use crate::glyph::cell_case;
use crate::glyph::cell_token;
use crate::glyph::line_cells;
use crate::glyph::line_pair_count;
use crate::glyph::line_seq;
use crate::glyph::lines_up_to;
use crate::glyph::lower_pixel;
use crate::glyph::render_text;
use crate::glyph::visible;
use crate::glyph::CellCase;
use crate::glyph::LOWER_HALF;
use crate::glyph::UPPER_HALF;
use crate::pixel::grid_width;
use crate::pixel::grid_wf;
use crate::pixel::transparent_pixel;
use crate::pixel::Interpolation;
use crate::pixel::Pixel;
use crate::resample::nearest_index;
use crate::resample::resampled;
use crate::resample::sample_spec;

verus! {

/// How many newline characters a text holds; the output's line count.
pub open spec fn nl_count(s: Seq<char>) -> int
    decreases s.len(),
{
    if s.len() == 0 {
        0
    } else {
        (if s[0] == '\n' {
            1int
        } else {
            0int
        }) + nl_count(s.drop_first())
    }
}

/// Newline counting distributes over concatenation.
proof fn lemma_nl_count_append(a: Seq<char>, b: Seq<char>)
    ensures
        nl_count(a + b) == nl_count(a) + nl_count(b),
    decreases a.len(),
{
    if a.len() == 0 {
        assert(a + b =~= b);
    } else {
        assert((a + b).drop_first() =~= a.drop_first() + b);
        lemma_nl_count_append(a.drop_first(), b);
    }
}

/// A text without newline characters counts zero newlines.
proof fn lemma_no_nl_zero(s: Seq<char>)
    requires
        forall|j: int| 0 <= j < s.len() ==> s[j] != '\n',
    ensures
        nl_count(s) == 0,
    decreases s.len(),
{
    if s.len() > 0 {
        lemma_no_nl_zero(s.drop_first());
    }
}

/// The characters a colored glyph token can contain: escape bytes, digits,
/// escape punctuation, and the two half-block glyphs. Neither a space nor a
/// newline is among them.
pub open spec fn colored_char(c: char) -> bool {
    is_digit(c) || c == ';' || c == 'm' || c == '[' || c == '\u{1b}' || c == UPPER_HALF || c
        == LOWER_HALF
}

proof fn lemma_rgb_params_chars(p: Pixel)
    ensures
        forall|j: int| 0 <= j < rgb_params(p).len() ==> colored_char(#[trigger] rgb_params(p)[j]),
{
    lemma_dec_seq_digits(p.r as int);
    lemma_dec_seq_digits(p.g as int);
    lemma_dec_seq_digits(p.b as int);
    let dr = dec_seq(p.r as int);
    let dg = dec_seq(p.g as int);
    let db = dec_seq(p.b as int);
    assert forall|j: int| 0 <= j < rgb_params(p).len() implies colored_char(
        #[trigger] rgb_params(p)[j],
    ) by {
        if j < dr.len() {
            assert(rgb_params(p)[j] == dr[j]);
        } else if j < dr.len() + 1 {
            assert(rgb_params(p)[j] == ';');
        } else if j < dr.len() + 1 + dg.len() {
            assert(rgb_params(p)[j] == dg[j - dr.len() - 1]);
        } else if j < dr.len() + 1 + dg.len() + 1 {
            assert(rgb_params(p)[j] == ';');
        } else {
            assert(rgb_params(p)[j] == db[j - dr.len() - 1 - dg.len() - 1]);
        }
    }
}

proof fn lemma_fg_prefix_chars(p: Pixel)
    ensures
        forall|j: int| 0 <= j < fg_prefix(p).len() ==> colored_char(#[trigger] fg_prefix(p)[j]),
        fg_prefix(p).len() >= 1,
        fg_prefix(p)[0] == '\u{1b}',
{
    lemma_rgb_params_chars(p);
    let intro = seq!['\u{1b}', '[', '3', '8', ';', '2', ';'];
    let params = rgb_params(p);
    assert forall|j: int| 0 <= j < fg_prefix(p).len() implies colored_char(
        #[trigger] fg_prefix(p)[j],
    ) by {
        if j < intro.len() {
            assert(fg_prefix(p)[j] == intro[j]);
        } else if j < intro.len() + params.len() {
            assert(fg_prefix(p)[j] == params[j - intro.len()]);
        } else {
            assert(fg_prefix(p)[j] == 'm');
        }
    }
    assert(fg_prefix(p)[0] == intro[0]);
}

proof fn lemma_fg_bg_prefix_chars(f: Pixel, b: Pixel)
    ensures
        forall|j: int|
            0 <= j < fg_bg_prefix(f, b).len() ==> colored_char(#[trigger] fg_bg_prefix(f, b)[j]),
        fg_bg_prefix(f, b).len() >= 1,
        fg_bg_prefix(f, b)[0] == '\u{1b}',
{
    lemma_rgb_params_chars(f);
    lemma_rgb_params_chars(b);
    let intro = seq!['\u{1b}', '[', '3', '8', ';', '2', ';'];
    let mid = seq![';', '4', '8', ';', '2', ';'];
    let pf = rgb_params(f);
    let pb = rgb_params(b);
    assert forall|j: int| 0 <= j < fg_bg_prefix(f, b).len() implies colored_char(
        #[trigger] fg_bg_prefix(f, b)[j],
    ) by {
        if j < intro.len() {
            assert(fg_bg_prefix(f, b)[j] == intro[j]);
        } else if j < intro.len() + pf.len() {
            assert(fg_bg_prefix(f, b)[j] == pf[j - intro.len()]);
        } else if j < intro.len() + pf.len() + mid.len() {
            assert(fg_bg_prefix(f, b)[j] == mid[j - intro.len() - pf.len()]);
        } else if j < intro.len() + pf.len() + mid.len() + pb.len() {
            assert(fg_bg_prefix(f, b)[j] == pb[j - intro.len() - pf.len() - mid.len()]);
        } else {
            assert(fg_bg_prefix(f, b)[j] == 'm');
        }
    }
    assert(fg_bg_prefix(f, b)[0] == intro[0]);
}

/// What one glyph cell's token can look like: exactly one space for a fully
/// transparent pair, and otherwise an escape-framed glyph that starts with the
/// escape byte and contains neither a space nor a newline.
proof fn lemma_cell_token_chars(u: Pixel, l: Pixel, t: u8)
    ensures
        cell_token(u, l, t).len() >= 1,
        forall|j: int| 0 <= j < cell_token(u, l, t).len() ==> cell_token(u, l, t)[j] != '\n',
        cell_case(u, l, t) == CellCase::BothTransparent ==> cell_token(u, l, t) == seq![' '],
        cell_case(u, l, t) != CellCase::BothTransparent ==> cell_token(u, l, t)[0] == '\u{1b}'
            && (forall|j: int|
            0 <= j < cell_token(u, l, t).len() ==> cell_token(u, l, t)[j] != ' '),
{
    let tok = cell_token(u, l, t);
    match cell_case(u, l, t) {
        CellCase::BothTransparent => {
        },
        CellCase::BottomOnly => {
            lemma_fg_prefix_chars(l);
            let pre = fg_prefix(l);
            assert forall|j: int| 0 <= j < tok.len() implies colored_char(#[trigger] tok[j]) by {
                if j < pre.len() {
                    assert(tok[j] == pre[j]);
                } else if j < pre.len() + 1 {
                    assert(tok[j] == LOWER_HALF);
                } else {
                    assert(tok[j] == reset_seq()[j - pre.len() - 1]);
                }
            }
            assert(tok[0] == pre[0]);
        },
        CellCase::TopOnly => {
            lemma_fg_prefix_chars(u);
            let pre = fg_prefix(u);
            assert forall|j: int| 0 <= j < tok.len() implies colored_char(#[trigger] tok[j]) by {
                if j < pre.len() {
                    assert(tok[j] == pre[j]);
                } else if j < pre.len() + 1 {
                    assert(tok[j] == UPPER_HALF);
                } else {
                    assert(tok[j] == reset_seq()[j - pre.len() - 1]);
                }
            }
            assert(tok[0] == pre[0]);
        },
        CellCase::BothVisible => {
            lemma_fg_bg_prefix_chars(l, u);
            let pre = fg_bg_prefix(l, u);
            assert forall|j: int| 0 <= j < tok.len() implies colored_char(#[trigger] tok[j]) by {
                if j < pre.len() {
                    assert(tok[j] == pre[j]);
                } else if j < pre.len() + 1 {
                    assert(tok[j] == LOWER_HALF);
                } else {
                    assert(tok[j] == reset_seq()[j - pre.len() - 1]);
                }
            }
            assert(tok[0] == pre[0]);
        },
    }
}

/// No line's cells contain a newline; the newline belongs to the assembler.
proof fn lemma_line_cells_no_nl(g: Seq<Seq<Pixel>>, t: u8, i: int, c: int)
    ensures
        forall|j: int|
            0 <= j < line_cells(g, t, i, c).len() ==> line_cells(g, t, i, c)[j] != '\n',
    decreases c,
{
    if c > 0 {
        lemma_line_cells_no_nl(g, t, i, c - 1);
        let prev = line_cells(g, t, i, c - 1);
        let tok = cell_token(g[2 * i][c - 1], lower_pixel(g, i, c - 1), t);
        lemma_cell_token_chars(g[2 * i][c - 1], lower_pixel(g, i, c - 1), t);
        assert forall|j: int| 0 <= j < line_cells(g, t, i, c).len() implies line_cells(
            g,
            t,
            i,
            c,
        )[j] != '\n' by {
            if j < prev.len() {
                assert(line_cells(g, t, i, c)[j] == prev[j]);
            } else {
                assert(line_cells(g, t, i, c)[j] == tok[j - prev.len()]);
            }
        }
    }
}

/// Law: rendering any well-formed grid produces exactly `ceil(height / 2)`
/// newline-terminated lines — one per row pair — and nothing after the last
/// newline.
pub proof fn lemma_render_line_count(g: Seq<Seq<Pixel>>, t: u8)
    ensures
        nl_count(render_text(g, t)) == line_pair_count(g.len() as int),
        g.len() >= 1 ==> render_text(g, t).len() >= 1 && render_text(g, t).last() == '\n',
{
    lemma_lines_up_to_count(g, t, line_pair_count(g.len() as int));
}

proof fn lemma_lines_up_to_count(g: Seq<Seq<Pixel>>, t: u8, n: int)
    ensures
        nl_count(lines_up_to(g, t, n)) == if n <= 0 {
            0int
        } else {
            n
        },
        n >= 1 ==> lines_up_to(g, t, n).len() >= 1 && lines_up_to(g, t, n).last() == '\n',
    decreases n,
{
    if n > 0 {
        lemma_lines_up_to_count(g, t, n - 1);
        let prev = lines_up_to(g, t, n - 1);
        let line = line_seq(g, t, n - 1);
        lemma_line_cells_no_nl(g, t, n - 1, grid_width(g));
        lemma_no_nl_zero(line);
        assert(seq!['\n'].drop_first() =~= Seq::<char>::empty());
        assert(nl_count(Seq::<char>::empty()) == 0);
        assert(nl_count(seq!['\n']) == 1);
        lemma_nl_count_append(prev, line);
        lemma_nl_count_append(prev + line, seq!['\n']);
        assert(lines_up_to(g, t, n) == (prev + line) + seq!['\n']);
        assert(lines_up_to(g, t, n).last() == '\n');
    }
}

/// One line of a fully transparent image is nothing but spaces.
proof fn lemma_line_cells_blank(g: Seq<Seq<Pixel>>, t: u8, i: int, c: int)
    requires
        grid_wf(g),
        t >= 1,
        0 <= 2 * i < g.len(),
        c <= grid_width(g),
        forall|y: int, x: int|
            0 <= y < g.len() && 0 <= x < g[y].len() ==> (#[trigger] g[y][x]).a == 0,
    ensures
        line_cells(g, t, i, c).len() == if c <= 0 {
            0int
        } else {
            c
        },
        forall|j: int| 0 <= j < line_cells(g, t, i, c).len() ==> line_cells(g, t, i, c)[j] == ' ',
    decreases c,
{
    if c > 0 {
        lemma_line_cells_blank(g, t, i, c - 1);
        let upper = g[2 * i][c - 1];
        let lower = lower_pixel(g, i, c - 1);
        assert(upper.a == 0);
        assert(lower.a == 0);
        assert(cell_case(upper, lower, t) == CellCase::BothTransparent);
        lemma_cell_token_chars(upper, lower, t);
        let prev = line_cells(g, t, i, c - 1);
        assert forall|j: int| 0 <= j < line_cells(g, t, i, c).len() implies line_cells(
            g,
            t,
            i,
            c,
        )[j] == ' ' by {
            if j < prev.len() {
                assert(line_cells(g, t, i, c)[j] == prev[j]);
            } else {
                assert(line_cells(g, t, i, c)[j] == seq![' '][j - prev.len()]);
            }
        }
    }
}

/// Law: a fully transparent image (alpha zero everywhere) under any positive
/// threshold renders to spaces and newlines alone — no escape byte appears
/// anywhere in the output — and each of its `ceil(height / 2)` lines is
/// exactly `width` spaces wide.
pub proof fn lemma_transparent_renders_blank(g: Seq<Seq<Pixel>>, t: u8)
    requires
        grid_wf(g),
        t >= 1,
        forall|y: int, x: int|
            0 <= y < g.len() && 0 <= x < g[y].len() ==> (#[trigger] g[y][x]).a == 0,
    ensures
        render_text(g, t).len() == line_pair_count(g.len() as int) * (grid_width(g) + 1),
        forall|j: int|
            0 <= j < render_text(g, t).len() ==> (render_text(g, t)[j] == ' ' || render_text(
                g,
                t,
            )[j] == '\n'),
{
    let n = line_pair_count(g.len() as int);
    lemma_lines_blank(g, t, n);
    if n <= 0 {
        assert(n * (grid_width(g) + 1) == 0) by (nonlinear_arith)
            requires
                n == 0,
        ;
    }
}

proof fn lemma_lines_blank(g: Seq<Seq<Pixel>>, t: u8, n: int)
    requires
        grid_wf(g),
        t >= 1,
        n <= line_pair_count(g.len() as int),
        forall|y: int, x: int|
            0 <= y < g.len() && 0 <= x < g[y].len() ==> (#[trigger] g[y][x]).a == 0,
    ensures
        lines_up_to(g, t, n).len() == if n <= 0 {
            0int
        } else {
            n * (grid_width(g) + 1)
        },
        forall|j: int|
            0 <= j < lines_up_to(g, t, n).len() ==> (lines_up_to(g, t, n)[j] == ' ' || lines_up_to(
                g,
                t,
            n)[j] == '\n'),
    decreases n,
{
    if n > 0 {
        lemma_lines_blank(g, t, n - 1);
        assert(2 * (n - 1) < g.len());
        lemma_line_cells_blank(g, t, n - 1, grid_width(g));
        let prev = lines_up_to(g, t, n - 1);
        let line = line_seq(g, t, n - 1);
        assert forall|j: int| 0 <= j < lines_up_to(g, t, n).len() implies (lines_up_to(
            g,
            t,
            n,
        )[j] == ' ' || lines_up_to(g, t, n)[j] == '\n') by {
            if j < prev.len() {
                assert(lines_up_to(g, t, n)[j] == prev[j]);
            } else if j < prev.len() + line.len() {
                assert(lines_up_to(g, t, n)[j] == line[j - prev.len()]);
            } else {
                assert(lines_up_to(g, t, n)[j] == '\n');
            }
        }
        let w1 = grid_width(g) + 1;
        assert(lines_up_to(g, t, n).len() == prev.len() + line.len() + 1);
        if n == 1 {
            assert(n * w1 == w1) by (nonlinear_arith)
                requires
                    n == 1,
            ;
        } else {
            assert(prev.len() == (n - 1) * w1);
            assert((n - 1) * w1 + w1 == n * w1) by (nonlinear_arith);
        }
    }
}

/// One line of a fully opaque even-height image contains no space.
proof fn lemma_line_cells_no_space(g: Seq<Seq<Pixel>>, t: u8, i: int, c: int)
    requires
        grid_wf(g),
        0 <= 2 * i,
        2 * i + 1 < g.len(),
        c <= grid_width(g),
        forall|y: int, x: int|
            0 <= y < g.len() && 0 <= x < g[y].len() ==> (#[trigger] g[y][x]).a == 255,
    ensures
        forall|j: int| 0 <= j < line_cells(g, t, i, c).len() ==> line_cells(g, t, i, c)[j] != ' ',
    decreases c,
{
    if c > 0 {
        lemma_line_cells_no_space(g, t, i, c - 1);
        let upper = g[2 * i][c - 1];
        let lower = lower_pixel(g, i, c - 1);
        assert(upper.a == 255 && lower.a == 255);
        assert(cell_case(upper, lower, t) == CellCase::BothVisible);
        lemma_cell_token_chars(upper, lower, t);
        let prev = line_cells(g, t, i, c - 1);
        let tok = cell_token(upper, lower, t);
        assert forall|j: int| 0 <= j < line_cells(g, t, i, c).len() implies line_cells(
            g,
            t,
            i,
            c,
        )[j] != ' ' by {
            if j < prev.len() {
                assert(line_cells(g, t, i, c)[j] == prev[j]);
            } else {
                assert(line_cells(g, t, i, c)[j] == tok[j - prev.len()]);
            }
        }
    }
}

/// Law: in a fully opaque image (alpha 255 everywhere) of even height, every
/// glyph cell is the both-visible case — no threshold can exceed full
/// opacity — and no cell of the rendered text emits a plain space. With an odd
/// height the final row pair's synthesized lower row is transparent, so the
/// law speaks of grids whose row pairs are all complete.
pub proof fn lemma_opaque_renders_fully_visible(g: Seq<Seq<Pixel>>, t: u8)
    requires
        grid_wf(g),
        g.len() % 2 == 0,
        forall|y: int, x: int|
            0 <= y < g.len() && 0 <= x < g[y].len() ==> (#[trigger] g[y][x]).a == 255,
    ensures
        forall|i: int, c: int|
            0 <= i < line_pair_count(g.len() as int) && 0 <= c < grid_width(g) ==> cell_case(
                g[2 * i][c],
                lower_pixel(g, i, c),
                t,
            ) == CellCase::BothVisible,
        forall|j: int| 0 <= j < render_text(g, t).len() ==> render_text(g, t)[j] != ' ',
{
    assert forall|i: int, c: int|
        0 <= i < line_pair_count(g.len() as int) && 0 <= c < grid_width(g) implies cell_case(
        g[2 * i][c],
        lower_pixel(g, i, c),
        t,
    ) == CellCase::BothVisible by {
        assert(2 * i + 1 < g.len());
        assert(g[2 * i][c].a == 255);
        assert(lower_pixel(g, i, c).a == 255);
    }
    lemma_lines_no_space(g, t, line_pair_count(g.len() as int));
}

proof fn lemma_lines_no_space(g: Seq<Seq<Pixel>>, t: u8, n: int)
    requires
        grid_wf(g),
        g.len() % 2 == 0,
        n <= line_pair_count(g.len() as int),
        forall|y: int, x: int|
            0 <= y < g.len() && 0 <= x < g[y].len() ==> (#[trigger] g[y][x]).a == 255,
    ensures
        forall|j: int| 0 <= j < lines_up_to(g, t, n).len() ==> lines_up_to(g, t, n)[j] != ' ',
    decreases n,
{
    if n > 0 {
        lemma_lines_no_space(g, t, n - 1);
        assert(2 * (n - 1) + 1 < g.len());
        lemma_line_cells_no_space(g, t, n - 1, grid_width(g));
        let prev = lines_up_to(g, t, n - 1);
        let line = line_seq(g, t, n - 1);
        assert forall|j: int| 0 <= j < lines_up_to(g, t, n).len() implies lines_up_to(
            g,
            t,
            n,
        )[j] != ' ' by {
            if j < prev.len() {
                assert(lines_up_to(g, t, n)[j] == prev[j]);
            } else if j < prev.len() + line.len() {
                assert(lines_up_to(g, t, n)[j] == line[j - prev.len()]);
            } else {
                assert(lines_up_to(g, t, n)[j] == '\n');
            }
        }
    }
}

/// Law: the threshold boundary is inclusive. A pixel whose alpha equals the
/// threshold is visible, so its cell renders its half of the glyph; a pixel
/// whose alpha is one below the threshold is invisible.
pub proof fn lemma_threshold_boundary(u: Pixel, l: Pixel, t: u8)
    ensures
        u.a == t ==> visible(u.a, t) && (cell_case(u, l, t) == CellCase::TopOnly || cell_case(
            u,
            l,
            t,
        ) == CellCase::BothVisible),
        l.a == t ==> visible(l.a, t) && (cell_case(u, l, t) == CellCase::BottomOnly || cell_case(
            u,
            l,
            t,
        ) == CellCase::BothVisible),
        t >= 1 && u.a == t - 1 ==> !visible(u.a, t) && (cell_case(u, l, t)
            == CellCase::BothTransparent || cell_case(u, l, t) == CellCase::BottomOnly),
        t >= 1 && l.a == t - 1 ==> !visible(l.a, t) && (cell_case(u, l, t)
            == CellCase::BothTransparent || cell_case(u, l, t) == CellCase::TopOnly),
{
}

/// Law: nearest-neighbor resampling of a grid to its own size is the identity,
/// pixel for pixel.
pub proof fn lemma_nearest_same_size_identity(g: Seq<Seq<Pixel>>)
    requires
        grid_wf(g),
        g.len() >= 1,
        grid_width(g) >= 1,
    ensures
        resampled(g, grid_width(g), g.len() as int, Interpolation::Nearest) == g,
{
    let w = grid_width(g);
    let h = g.len() as int;
    assert forall|t: int, d: int| 0 <= t < d implies #[trigger] nearest_index(t, d, d) == t by {
        assert((2 * t + 1) * d == t * (2 * d) + d) by (nonlinear_arith);
        vstd::arithmetic::div_mod::lemma_fundamental_div_mod_converse((2 * t + 1) * d, 2 * d, t, d);
    }
    assert forall|y: int, x: int| 0 <= y < h && 0 <= x < w implies sample_spec(
        g,
        w,
        h,
        x,
        y,
        Interpolation::Nearest,
    ) == g[y][x] by {
        assert(nearest_index(y, h, h) == y);
        assert(nearest_index(x, w, w) == x);
    }
    assert(resampled(g, w, h, Interpolation::Nearest) =~~= g);
}

/// Law: in an odd-height grid the final row pair's lower row is synthesized as
/// fully transparent, so under any positive threshold a cell of the final line
/// can only be the top-only case or fully transparent — never both-visible or
/// bottom-only.
pub proof fn lemma_odd_height_last_line(g: Seq<Seq<Pixel>>, t: u8, c: int)
    requires
        g.len() % 2 == 1,
        t >= 1,
    ensures
        ({
            let i = g.len() as int / 2;
            cell_case(g[2 * i][c], lower_pixel(g, i, c), t) == CellCase::TopOnly || cell_case(
                g[2 * i][c],
                lower_pixel(g, i, c),
                t,
            ) == CellCase::BothTransparent
        }),
{
    let i = g.len() as int / 2;
    assert(2 * i + 1 == g.len());
    assert(lower_pixel(g, i, c) == transparent_pixel());
    assert(!visible(lower_pixel(g, i, c).a, t));
}

} // verus!
