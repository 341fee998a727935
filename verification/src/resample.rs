//! The resampler: resizes a source grid to an exact target size with either
//! nearest-neighbor sampling or Catmull-Rom cubic convolution. All arithmetic
//! is integer fixed point: coordinates carry 1/128-source-pixel precision
//! (a scale of 128), kernel weights are polynomial numerators over the shared
//! denominator 2 * 128^3 = 4194304, and a full two-dimensional convolution is
//! scaled back by (2 * 128^3)^2 = 17592186044416.

use vstd::prelude::*;

use crate::pixel::grid_width;
use crate::pixel::Interpolation;
use crate::pixel::Pixel;
use crate::pixel::PixelGrid;
use crate::pixel::RenderError;

verus! {

/// A pixel's channel by index: red, green, blue, then alpha.
pub open spec fn pixel_channel(p: Pixel, ch: int) -> int {
    if ch == 0 {
        p.r as int
    } else if ch == 1 {
        p.g as int
    } else if ch == 2 {
        p.b as int
    } else {
        p.a as int
    }
}

/// The source index proportionally nearest to target index `t`: the center of
/// target cell `t`, mapped into source coordinates and rounded down.
pub open spec fn nearest_index(t: int, tdim: int, sdim: int) -> int {
    ((2 * t + 1) * sdim) / (2 * tdim)
}

/// Nearest-neighbor sample of the source grid for target pixel `(x, y)`.
pub open spec fn sample_nearest(g: Seq<Seq<Pixel>>, tw: int, th: int, x: int, y: int) -> Pixel {
    g[nearest_index(y, th, g.len() as int)][nearest_index(x, tw, grid_width(g))]
}

/// Fixed-point source coordinate of target index `t`: the center of target
/// cell `t` mapped into the source, shifted back half a source pixel, in
/// units of 1/128 source pixel.
pub open spec fn coord_fp(t: int, tdim: int, sdim: int) -> int {
    ((2 * t + 1) * sdim * 128) / (2 * tdim) - 64
}

/// The whole-pixel part of a fixed-point coordinate (its floor).
pub open spec fn base_of(s: int) -> int {
    if s < 0 {
        -1
    } else {
        s / 128
    }
}

/// The fractional part of a fixed-point coordinate, in [0, 128).
pub open spec fn frac_of(s: int) -> int {
    if s < 0 {
        s + 128
    } else {
        s % 128
    }
}

/// Clamps a sample index to the source bounds, as the convolution does at the
/// grid's edges.
pub open spec fn clamp_index(i: int, dim: int) -> int {
    if i < 0 {
        0
    } else if i >= dim {
        dim - 1
    } else {
        i
    }
}

/// Catmull-Rom kernel weight numerators over the denominator 2 * 128^3, for
/// the four taps `j = 0..4` at sample offsets `base - 1` through `base + 2`,
/// evaluated at the fixed-point fraction `u` in [0, 128]. These are the
/// kernel's cubic polynomials at u/128, scaled by 2 * 128^3 (16384 is 128^2
/// and 4194304 is 2 * 128^3); the four numerators always sum to 2 * 128^3.
pub open spec fn cr_weight(u: int, j: int) -> int {
    let uu = u * u;
    let uuu = uu * u;
    if j == 0 {
        2 * uu * 128 - u * 16384 - uuu
    } else if j == 1 {
        4194304 - 5 * uu * 128 + 3 * uuu
    } else if j == 2 {
        u * 16384 + 4 * uu * 128 - 3 * uuu
    } else {
        uuu - uu * 128
    }
}

/// One horizontal convolution pass: the weighted sum of channel `ch` of row
/// `yy` at the four clamped column taps.
pub open spec fn row_conv(
    g: Seq<Seq<Pixel>>,
    yy: int,
    x0: int,
    x1: int,
    x2: int,
    x3: int,
    ux: int,
    ch: int,
) -> int {
    cr_weight(ux, 0) * pixel_channel(g[yy][x0], ch) + cr_weight(ux, 1) * pixel_channel(g[yy][x1], ch)
        + cr_weight(ux, 2) * pixel_channel(g[yy][x2], ch) + cr_weight(ux, 3) * pixel_channel(
        g[yy][x3],
        ch,
    )
}

/// The full 4x4 convolution numerator for channel `ch`: vertical weights
/// applied to the four horizontal passes.
pub open spec fn cubic_acc(
    g: Seq<Seq<Pixel>>,
    y0: int,
    y1: int,
    y2: int,
    y3: int,
    x0: int,
    x1: int,
    x2: int,
    x3: int,
    uy: int,
    ux: int,
    ch: int,
) -> int {
    cr_weight(uy, 0) * row_conv(g, y0, x0, x1, x2, x3, ux, ch) + cr_weight(uy, 1) * row_conv(
        g,
        y1,
        x0,
        x1,
        x2,
        x3,
        ux,
        ch,
    ) + cr_weight(uy, 2) * row_conv(g, y2, x0, x1, x2, x3, ux, ch) + cr_weight(uy, 3) * row_conv(
        g,
        y3,
        x0,
        x1,
        x2,
        x3,
        ux,
        ch,
    )
}

/// Scales a convolution numerator back to a channel value, clamping to the
/// 8-bit range (negative lobes of the kernel can overshoot it).
pub open spec fn clamp_channel(acc: int) -> int {
    if acc < 0 {
        0
    } else if acc / 17592186044416 > 255 {
        255
    } else {
        acc / 17592186044416
    }
}

/// Cubic sample of channel `ch` for target pixel `(x, y)`: the Catmull-Rom
/// convolution over the 4x4 source neighborhood of the mapped coordinate,
/// with taps clamped to the source bounds.
pub open spec fn cubic_sample_channel(
    g: Seq<Seq<Pixel>>,
    tw: int,
    th: int,
    x: int,
    y: int,
    ch: int,
) -> int {
    let sh = g.len() as int;
    let sw = grid_width(g);
    let sy = coord_fp(y, th, sh);
    let sx = coord_fp(x, tw, sw);
    let by = base_of(sy);
    let bx = base_of(sx);
    clamp_channel(
        cubic_acc(
            g,
            clamp_index(by - 1, sh),
            clamp_index(by, sh),
            clamp_index(by + 1, sh),
            clamp_index(by + 2, sh),
            clamp_index(bx - 1, sw),
            clamp_index(bx, sw),
            clamp_index(bx + 1, sw),
            clamp_index(bx + 2, sw),
            frac_of(sy),
            frac_of(sx),
            ch,
        ),
    )
}

/// Cubic sample of the source grid for target pixel `(x, y)`, channel by
/// channel; alpha is interpolated exactly as the color channels are.
pub open spec fn sample_cubic(g: Seq<Seq<Pixel>>, tw: int, th: int, x: int, y: int) -> Pixel {
    Pixel {
        r: cubic_sample_channel(g, tw, th, x, y, 0) as u8,
        g: cubic_sample_channel(g, tw, th, x, y, 1) as u8,
        b: cubic_sample_channel(g, tw, th, x, y, 2) as u8,
        a: cubic_sample_channel(g, tw, th, x, y, 3) as u8,
    }
}

/// The sample for target pixel `(x, y)` under the chosen interpolation mode.
pub open spec fn sample_spec(
    g: Seq<Seq<Pixel>>,
    tw: int,
    th: int,
    x: int,
    y: int,
    mode: Interpolation,
) -> Pixel {
    match mode {
        Interpolation::Nearest => sample_nearest(g, tw, th, x, y),
        Interpolation::Cubic => sample_cubic(g, tw, th, x, y),
    }
}

/// The resampled grid: exactly `th` rows of `tw` pixels, each sampled from the
/// source under the chosen mode.
pub open spec fn resampled(g: Seq<Seq<Pixel>>, tw: int, th: int, mode: Interpolation) -> Seq<
    Seq<Pixel>,
> {
    Seq::new(th as nat, |y: int| Seq::new(tw as nat, |x: int| sample_spec(g, tw, th, x, y, mode)))
}

/// A quotient is below any bound that the dividend is below `den` times.
proof fn lemma_div_below(num: int, den: int, bound: int)
    requires
        0 <= num,
        0 < den,
        num < den * bound,
    ensures
        num / den < bound,
{
    vstd::arithmetic::div_mod::lemma_fundamental_div_mod(num, den);
    assert(num / den < bound) by (nonlinear_arith)
        requires
            den * (num / den) + num % den == num,
            num % den >= 0,
            num < den * bound,
            den > 0,
    ;
}

/// The numerator of the mapped coordinate of target index `t` stays well
/// inside 128 bits and below `2 * tdim * sdim * 128`.
proof fn lemma_coord_numerator_bounds(t: int, tdim: int, sdim: int)
    requires
        0 <= t < tdim,
        tdim <= 65535,
        1 <= sdim <= 0xffff_ffff_ffff_ffff,
    ensures
        0 <= (2 * t + 1) * sdim <= 131071 * 0xffff_ffff_ffff_ffff,
        (2 * t + 1) * sdim * 128 < (2 * tdim) * (sdim * 128),
{
    assert((2 * t + 1) * sdim <= 131071 * 0xffff_ffff_ffff_ffff && (2 * t + 1) * sdim >= 0)
        by (nonlinear_arith)
        requires
            0 <= t < tdim,
            tdim <= 65535,
            1 <= sdim <= 0xffff_ffff_ffff_ffff,
    ;
    assert((2 * t + 1) * sdim * 128 < (2 * tdim) * (sdim * 128)) by (nonlinear_arith)
        requires
            0 <= t < tdim,
            1 <= sdim,
    ;
}

/// Computes the nearest source index for target index `t`.
fn nearest_coord(t: usize, tdim: usize, sdim: usize) -> (r: usize)
    requires
        1 <= tdim <= 65535,
        t < tdim,
        1 <= sdim,
    ensures
        r as int == nearest_index(t as int, tdim as int, sdim as int),
        r < sdim,
{
    proof {
        assert(sdim as int <= 0xffff_ffff_ffff_ffff);
        lemma_coord_numerator_bounds(t as int, tdim as int, sdim as int);
        assert((2 * (t as int) + 1) * (sdim as int) < (2 * (tdim as int)) * (sdim as int))
            by (nonlinear_arith)
            requires
                t < tdim,
                1 <= sdim,
        ;
        lemma_div_below((2 * (t as int) + 1) * (sdim as int), 2 * (tdim as int), sdim as int);
    }
    let num: u128 = (2 * (t as u128) + 1) * (sdim as u128);
    let den: u128 = 2 * (tdim as u128);
    let q: u128 = num / den;
    q as usize
}

/// Nearest-neighbor sample of the source grid for target pixel `(x, y)`.
fn nearest_pixel(grid: &PixelGrid, tw: usize, th: usize, x: usize, y: usize) -> (p: Pixel)
    requires
        grid.wf(),
        grid@.len() >= 1,
        grid_width(grid@) >= 1,
        1 <= tw <= 65535,
        1 <= th <= 65535,
        x < tw,
        y < th,
    ensures
        p == sample_nearest(grid@, tw as int, th as int, x as int, y as int),
{
    let sy = nearest_coord(y, th, grid.height());
    let sx = nearest_coord(x, tw, grid.width());
    grid.get(sy, sx)
}

/// Clamps a signed tap index into the valid source range.
fn clamp_to(v: i128, sdim: usize) -> (r: usize)
    requires
        1 <= sdim,
        -3 <= v <= (sdim as i128) + 2,
    ensures
        r as int == clamp_index(v as int, sdim as int),
        r < sdim,
{
    if v < 0 {
        0
    } else if v >= sdim as i128 {
        sdim - 1
    } else {
        v as usize
    }
}

/// Computes, for one axis, the fixed-point fraction and the four clamped tap
/// indices of the cubic kernel around target index `t`.
fn cubic_axis(t: usize, tdim: usize, sdim: usize) -> (r: (i64, usize, usize, usize, usize))
    requires
        1 <= tdim <= 65535,
        t < tdim,
        1 <= sdim,
    ensures
        ({
            let s = coord_fp(t as int, tdim as int, sdim as int);
            let b = base_of(s);
            &&& r.0 as int == frac_of(s)
            &&& 0 <= r.0 < 128
            &&& r.1 as int == clamp_index(b - 1, sdim as int)
            &&& r.2 as int == clamp_index(b, sdim as int)
            &&& r.3 as int == clamp_index(b + 1, sdim as int)
            &&& r.4 as int == clamp_index(b + 2, sdim as int)
            &&& r.1 < sdim && r.2 < sdim && r.3 < sdim && r.4 < sdim
        }),
{
    proof {
        assert(sdim as int <= 0xffff_ffff_ffff_ffff);
        lemma_coord_numerator_bounds(t as int, tdim as int, sdim as int);
        lemma_div_below(
            (2 * (t as int) + 1) * (sdim as int) * 128,
            2 * (tdim as int),
            (sdim as int) * 128,
        );
    }
    let num: u128 = (2 * (t as u128) + 1) * (sdim as u128) * 128;
    let den: u128 = 2 * (tdim as u128);
    let q: u128 = num / den;
    assert(q < (sdim as u128) * 128);
    let s: i128 = (q as i128) - 64;
    let ghost si = coord_fp(t as int, tdim as int, sdim as int);
    assert(s as int == si);
    let (b, u): (i128, i64) = if s < 0 {
        (-1, (s + 128) as i64)
    } else {
        let su = s as u128;
        ((su / 128) as i128, (su % 128) as i64)
    };
    assert(b as int == base_of(si));
    assert(u as int == frac_of(si));
    assert(b <= (sdim as i128) - 1) by {
        if s >= 0 {
            assert(s as int <= (sdim as int) * 128 - 65);
            assert((s as int) / 128 <= ((sdim as int) * 128 - 65) / 128) by {
                vstd::arithmetic::div_mod::lemma_div_is_ordered(
                    s as int,
                    (sdim as int) * 128 - 65,
                    128,
                );
            };
            assert(((sdim as int) * 128 - 65) / 128 == sdim as int - 1) by {
                vstd::arithmetic::div_mod::lemma_fundamental_div_mod_converse(
                    (sdim as int) * 128 - 65,
                    128,
                    sdim as int - 1,
                    63,
                );
            };
        }
    };
    let i1 = clamp_to(b - 1, sdim);
    let i2 = clamp_to(b, sdim);
    let i3 = clamp_to(b + 1, sdim);
    let i4 = clamp_to(b + 2, sdim);
    (u, i1, i2, i3, i4)
}

/// Computes the four Catmull-Rom weight numerators for fraction `u`; each has
/// magnitude at most 8 * 128^3.
fn cr_weights(u: i64) -> (w: (i64, i64, i64, i64))
    requires
        0 <= u < 128,
    ensures
        w.0 == cr_weight(u as int, 0),
        w.1 == cr_weight(u as int, 1),
        w.2 == cr_weight(u as int, 2),
        w.3 == cr_weight(u as int, 3),
        -16777216 <= w.0 <= 16777216,
        -16777216 <= w.1 <= 16777216,
        -16777216 <= w.2 <= 16777216,
        -16777216 <= w.3 <= 16777216,
{
    proof {
        assert(0 <= (u as int) * (u as int) <= 16384) by (nonlinear_arith)
            requires
                0 <= u < 128,
        ;
    }
    let uu: i64 = u * u;
    proof {
        assert(0 <= (uu as int) * (u as int) <= 2097152) by (nonlinear_arith)
            requires
                0 <= uu <= 16384,
                0 <= u < 128,
        ;
    }
    let uuu: i64 = uu * u;
    let w0: i64 = 2 * uu * 128 - u * 16384 - uuu;
    let w1: i64 = 4194304 - 5 * uu * 128 + 3 * uuu;
    let w2: i64 = u * 16384 + 4 * uu * 128 - 3 * uuu;
    let w3: i64 = uuu - uu * 128;
    (w0, w1, w2, w3)
}

/// Reads channel `ch` of a pixel.
fn channel_of(p: Pixel, ch: usize) -> (v: u8)
    requires
        ch < 4,
    ensures
        v as int == pixel_channel(p, ch as int),
{
    if ch == 0 {
        p.r
    } else if ch == 1 {
        p.g
    } else if ch == 2 {
        p.b
    } else {
        p.a
    }
}

/// A weight times a channel value stays within 8 * 128^3 * 255.
proof fn lemma_weighted_channel_bound(w: int, c: int)
    requires
        -16777216 <= w <= 16777216,
        0 <= c <= 255,
    ensures
        -(16777216 * 255) <= w * c <= 16777216 * 255,
{
    assert(-(16777216 * 255) <= w * c <= 16777216 * 255) by (nonlinear_arith)
        requires
            -16777216 <= w <= 16777216,
            0 <= c <= 255,
    ;
}

/// A weight times a horizontal pass stays within 4 * (8 * 128^3)^2 * 255.
proof fn lemma_weighted_row_bound(w: int, r: int)
    requires
        -16777216 <= w <= 16777216,
        -(4 * 16777216 * 255) <= r <= 4 * 16777216 * 255,
    ensures
        -(4 * 16777216 * 16777216 * 255) <= w * r <= 4 * 16777216 * 16777216 * 255,
{
    assert(-(4 * 16777216 * 16777216 * 255) <= w * r <= 4 * 16777216 * 16777216 * 255)
        by (nonlinear_arith)
        requires
            -16777216 <= w <= 16777216,
            -(4 * 16777216 * 255) <= r <= 4 * 16777216 * 255,
    ;
}

/// One horizontal convolution pass over row `yy` of the grid.
fn conv_row(
    grid: &PixelGrid,
    yy: usize,
    xs: (usize, usize, usize, usize),
    ux: i64,
    ch: usize,
) -> (acc: i64)
    requires
        grid.wf(),
        yy < grid@.len(),
        xs.0 < grid_width(grid@),
        xs.1 < grid_width(grid@),
        xs.2 < grid_width(grid@),
        xs.3 < grid_width(grid@),
        0 <= ux < 128,
        ch < 4,
    ensures
        acc == row_conv(
            grid@,
            yy as int,
            xs.0 as int,
            xs.1 as int,
            xs.2 as int,
            xs.3 as int,
            ux as int,
            ch as int,
        ),
        -(4 * 16777216 * 255) <= acc <= 4 * 16777216 * 255,
{
    let (w0, w1, w2, w3) = cr_weights(ux);
    let c0 = channel_of(grid.get(yy, xs.0), ch) as i64;
    let c1 = channel_of(grid.get(yy, xs.1), ch) as i64;
    let c2 = channel_of(grid.get(yy, xs.2), ch) as i64;
    let c3 = channel_of(grid.get(yy, xs.3), ch) as i64;
    proof {
        lemma_weighted_channel_bound(w0 as int, c0 as int);
        lemma_weighted_channel_bound(w1 as int, c1 as int);
        lemma_weighted_channel_bound(w2 as int, c2 as int);
        lemma_weighted_channel_bound(w3 as int, c3 as int);
    }
    w0 * c0 + w1 * c1 + w2 * c2 + w3 * c3
}

/// The full cubic convolution of channel `ch`, scaled and clamped back to an
/// 8-bit value.
fn cubic_channel(
    grid: &PixelGrid,
    ys: (usize, usize, usize, usize),
    xs: (usize, usize, usize, usize),
    uy: i64,
    ux: i64,
    ch: usize,
) -> (v: u8)
    requires
        grid.wf(),
        ys.0 < grid@.len(),
        ys.1 < grid@.len(),
        ys.2 < grid@.len(),
        ys.3 < grid@.len(),
        xs.0 < grid_width(grid@),
        xs.1 < grid_width(grid@),
        xs.2 < grid_width(grid@),
        xs.3 < grid_width(grid@),
        0 <= uy < 128,
        0 <= ux < 128,
        ch < 4,
    ensures
        v as int == clamp_channel(
            cubic_acc(
                grid@,
                ys.0 as int,
                ys.1 as int,
                ys.2 as int,
                ys.3 as int,
                xs.0 as int,
                xs.1 as int,
                xs.2 as int,
                xs.3 as int,
                uy as int,
                ux as int,
                ch as int,
            ),
        ),
{
    let (w0, w1, w2, w3) = cr_weights(uy);
    let r0 = conv_row(grid, ys.0, xs, ux, ch);
    let r1 = conv_row(grid, ys.1, xs, ux, ch);
    let r2 = conv_row(grid, ys.2, xs, ux, ch);
    let r3 = conv_row(grid, ys.3, xs, ux, ch);
    proof {
        lemma_weighted_row_bound(w0 as int, r0 as int);
        lemma_weighted_row_bound(w1 as int, r1 as int);
        lemma_weighted_row_bound(w2 as int, r2 as int);
        lemma_weighted_row_bound(w3 as int, r3 as int);
    }
    let acc: i64 = w0 * r0 + w1 * r1 + w2 * r2 + w3 * r3;
    if acc < 0 {
        0
    } else {
        let q: u64 = (acc as u64) / 17592186044416;
        if q > 255 {
            255
        } else {
            q as u8
        }
    }
}

/// Cubic sample of the source grid for target pixel `(x, y)`.
fn cubic_pixel(grid: &PixelGrid, tw: usize, th: usize, x: usize, y: usize) -> (p: Pixel)
    requires
        grid.wf(),
        grid@.len() >= 1,
        grid_width(grid@) >= 1,
        1 <= tw <= 65535,
        1 <= th <= 65535,
        x < tw,
        y < th,
    ensures
        p == sample_cubic(grid@, tw as int, th as int, x as int, y as int),
{
    let (uy, y0, y1, y2, y3) = cubic_axis(y, th, grid.height());
    let (ux, x0, x1, x2, x3) = cubic_axis(x, tw, grid.width());
    let cr = cubic_channel(grid, (y0, y1, y2, y3), (x0, x1, x2, x3), uy, ux, 0);
    let cg = cubic_channel(grid, (y0, y1, y2, y3), (x0, x1, x2, x3), uy, ux, 1);
    let cb = cubic_channel(grid, (y0, y1, y2, y3), (x0, x1, x2, x3), uy, ux, 2);
    let ca = cubic_channel(grid, (y0, y1, y2, y3), (x0, x1, x2, x3), uy, ux, 3);
    Pixel { r: cr, g: cg, b: cb, a: ca }
}

/// The sample for target pixel `(x, y)` under the chosen mode.
fn sample_pixel(
    grid: &PixelGrid,
    tw: usize,
    th: usize,
    x: usize,
    y: usize,
    mode: Interpolation,
) -> (p: Pixel)
    requires
        grid.wf(),
        grid@.len() >= 1,
        grid_width(grid@) >= 1,
        1 <= tw <= 65535,
        1 <= th <= 65535,
        x < tw,
        y < th,
    ensures
        p == sample_spec(grid@, tw as int, th as int, x as int, y as int, mode),
{
    match mode {
        Interpolation::Nearest => nearest_pixel(grid, tw, th, x, y),
        Interpolation::Cubic => cubic_pixel(grid, tw, th, x, y),
    }
}

/// Resamples the source grid to exactly `tw` by `th` pixels under the chosen
/// interpolation mode. Fails with `InvalidSource` exactly when the source has
/// zero width or zero height; it never silently produces an empty output.
pub fn resample(grid: &PixelGrid, tw: u16, th: u16, mode: Interpolation) -> (r: Result<
    PixelGrid,
    RenderError,
>)
    requires
        grid.wf(),
        tw >= 1,
        th >= 1,
    ensures
        r is Ok <==> grid@.len() >= 1 && grid_width(grid@) >= 1,
        r matches Ok(out) ==> out.wf() && out@ == resampled(grid@, tw as int, th as int, mode)
            && out@.len() == th && grid_width(out@) == tw,
        r matches Err(e) ==> e == RenderError::InvalidSource,
{
    if grid.height() == 0 || grid.width() == 0 {
        return Err(RenderError::InvalidSource);
    }
    let ghost gv = grid@;
    let ghost twi = tw as int;
    let ghost thi = th as int;
    let twu = tw as usize;
    let thu = th as usize;
    let mut rows: Vec<Vec<Pixel>> = Vec::new();
    let mut y: usize = 0;
    while y < thu
        invariant
            grid.wf(),
            gv == grid@,
            gv.len() >= 1,
            grid_width(gv) >= 1,
            twi == tw as int,
            thi == th as int,
            twu == tw as usize,
            thu == th as usize,
            1 <= tw <= 65535,
            1 <= th <= 65535,
            0 <= y <= thu,
            rows@.len() == y,
            forall|yy: int|
                0 <= yy < y ==> (#[trigger] rows@[yy])@ == resampled(gv, twi, thi, mode)[yy],
        decreases thu - y,
    {
        let mut row: Vec<Pixel> = Vec::new();
        let mut x: usize = 0;
        while x < twu
            invariant
                grid.wf(),
                gv == grid@,
                gv.len() >= 1,
                grid_width(gv) >= 1,
                twi == tw as int,
                thi == th as int,
                twu == tw as usize,
                thu == th as usize,
                1 <= tw <= 65535,
                1 <= th <= 65535,
                y < thu,
                0 <= x <= twu,
                row@.len() == x,
                forall|xx: int|
                    0 <= xx < x ==> #[trigger] row@[xx] == sample_spec(
                        gv,
                        twi,
                        thi,
                        xx,
                        y as int,
                        mode,
                    ),
            decreases twu - x,
        {
            let p = sample_pixel(grid, twu, thu, x, y, mode);
            row.push(p);
            x += 1;
        }
        proof {
            assert(row@ =~= Seq::new(
                twi as nat,
                |xx: int| sample_spec(gv, twi, thi, xx, y as int, mode),
            ));
            assert(row@ == resampled(gv, twi, thi, mode)[y as int]);
        }
        rows.push(row);
        y += 1;
    }
    let out = PixelGrid { rows };
    proof {
        assert(out@ =~= resampled(gv, twi, thi, mode));
        assert(grid_width(out@) == tw);
        assert forall|i: int| 0 <= i < out@.len() implies (#[trigger] out@[i]).len() == grid_width(
            out@,
        ) by {
            assert(out@[i] == resampled(gv, twi, thi, mode)[i]);
        }
    }
    Ok(out)
}

} // verus!
