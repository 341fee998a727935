//! The glyph renderer: walks a resampled grid two rows at a time and emits one
//! half-block glyph (with its color escapes) per column per row pair.

use vstd::prelude::*;

use crate::escape::fg_bg_prefix;
use crate::escape::fg_prefix;
use crate::escape::push_fg_bg_prefix;
use crate::escape::push_fg_prefix;
use crate::escape::push_reset;
use crate::escape::reset_seq;
use crate::pixel::grid_width;
use crate::pixel::transparent_pixel;
use crate::pixel::Pixel;
use crate::pixel::PixelGrid;

verus! {

/// The Unicode upper-half-block glyph, shown when only the upper pixel of a
/// pair is visible.
pub const UPPER_HALF: char = '\u{2580}';

/// The Unicode lower-half-block glyph. Its foreground paints the lower half of
/// the cell and its background the whole cell, so it serves both the
/// bottom-only case and, paired with a background color, the both-visible case.
pub const LOWER_HALF: char = '\u{2584}';

/// A pixel is visible when its alpha meets or exceeds the threshold; the
/// threshold itself counts as visible.
pub open spec fn visible(alpha: u8, threshold: u8) -> bool {
    alpha >= threshold
}

/// The visibility state of one glyph cell, derived from an upper and a lower
/// pixel compared against the alpha threshold.
#[derive(Clone, Copy, PartialEq, Eq, Structural, Debug)]
pub enum CellCase {
    BothTransparent,
    TopOnly,
    BottomOnly,
    BothVisible,
}

/// Which of the four glyph cases an upper/lower pixel pair falls under.
pub open spec fn cell_case(upper: Pixel, lower: Pixel, threshold: u8) -> CellCase {
    if !visible(upper.a, threshold) && !visible(lower.a, threshold) {
        CellCase::BothTransparent
    } else if !visible(upper.a, threshold) {
        CellCase::BottomOnly
    } else if !visible(lower.a, threshold) {
        CellCase::TopOnly
    } else {
        CellCase::BothVisible
    }
}

/// The exact text one glyph cell contributes to its line: a plain space, or a
/// colored half-block glyph framed by its escape prefix and the reset escape.
pub open spec fn cell_token(upper: Pixel, lower: Pixel, threshold: u8) -> Seq<char> {
    match cell_case(upper, lower, threshold) {
        CellCase::BothTransparent => seq![' '],
        CellCase::BottomOnly => fg_prefix(lower) + seq![LOWER_HALF] + reset_seq(),
        CellCase::TopOnly => fg_prefix(upper) + seq![UPPER_HALF] + reset_seq(),
        CellCase::BothVisible => fg_bg_prefix(lower, upper) + seq![LOWER_HALF] + reset_seq(),
    }
}

/// The lower pixel of row pair `i` at column `c`: the pixel of row `2*i + 1`
/// when that row exists, else the synthetic fully transparent pixel that
/// stands in for the missing row of an odd-height grid.
pub open spec fn lower_pixel(g: Seq<Seq<Pixel>>, i: int, c: int) -> Pixel {
    if 2 * i + 1 < g.len() {
        g[2 * i + 1][c]
    } else {
        transparent_pixel()
    }
}

/// The text of the first `c` cells of row pair `i`, in column order.
pub open spec fn line_cells(g: Seq<Seq<Pixel>>, threshold: u8, i: int, c: int) -> Seq<char>
    decreases c,
{
    if c <= 0 {
        Seq::empty()
    } else {
        line_cells(g, threshold, i, c - 1) + cell_token(g[2 * i][c - 1], lower_pixel(g, i, c - 1), threshold)
    }
}

/// The full text of row pair `i`, without its terminating newline.
pub open spec fn line_seq(g: Seq<Seq<Pixel>>, threshold: u8, i: int) -> Seq<char> {
    line_cells(g, threshold, i, grid_width(g))
}

/// How many text lines a grid of the given height renders to: one per row
/// pair, the final odd row counting as a pair of its own.
pub open spec fn line_pair_count(height: int) -> int {
    (height + 1) / 2
}

/// The first `n` rendered lines, each terminated by a newline.
pub open spec fn lines_up_to(g: Seq<Seq<Pixel>>, threshold: u8, n: int) -> Seq<char>
    decreases n,
{
    if n <= 0 {
        Seq::empty()
    } else {
        lines_up_to(g, threshold, n - 1) + line_seq(g, threshold, n - 1) + seq!['\n']
    }
}

/// The complete rendered text of a grid: every row pair's line, newline
/// terminated, with no trailing blank line.
pub open spec fn render_text(g: Seq<Seq<Pixel>>, threshold: u8) -> Seq<char> {
    lines_up_to(g, threshold, line_pair_count(g.len() as int))
}

/// Appends the glyph cell of one upper/lower pixel pair to the buffer.
pub(crate) fn push_cell(s: &mut String, upper: Pixel, lower: Pixel, threshold: u8)
    ensures
        final(s)@ == old(s)@ + cell_token(upper, lower, threshold),
{
    let top_invisible = upper.a < threshold;
    let bottom_invisible = lower.a < threshold;
    if top_invisible && bottom_invisible {
        s.append(" ");
        proof {
            reveal_strlit(" ");
            assert(final(s)@ =~= old(s)@ + cell_token(upper, lower, threshold));
        }
    } else if top_invisible {
        push_fg_prefix(s, lower);
        s.append("\u{2584}");
        push_reset(s);
        proof {
            reveal_strlit("\u{2584}");
            assert("\u{2584}"@ =~= seq![LOWER_HALF]);
            assert(final(s)@ =~= old(s)@ + cell_token(upper, lower, threshold));
        }
    } else if bottom_invisible {
        push_fg_prefix(s, upper);
        s.append("\u{2580}");
        push_reset(s);
        proof {
            reveal_strlit("\u{2580}");
            assert("\u{2580}"@ =~= seq![UPPER_HALF]);
            assert(final(s)@ =~= old(s)@ + cell_token(upper, lower, threshold));
        }
    } else {
        push_fg_bg_prefix(s, lower, upper);
        s.append("\u{2584}");
        push_reset(s);
        proof {
            reveal_strlit("\u{2584}");
            assert("\u{2584}"@ =~= seq![LOWER_HALF]);
            assert(final(s)@ =~= old(s)@ + cell_token(upper, lower, threshold));
        }
    }
}

/// Renders row pair `i` of a well-formed grid to the text of one line,
/// without its newline.
pub fn render_line(grid: &PixelGrid, threshold: u8, i: usize) -> (s: String)
    requires
        grid.wf(),
        2 * i < grid@.len(),
    ensures
        s@ == line_seq(grid@, threshold, i as int),
{
    let w = grid.width();
    let h = grid.height();
    let mut s = String::new();
    let mut c: usize = 0;
    while c < w
        invariant
            grid.wf(),
            2 * i < grid@.len(),
            w as int == grid_width(grid@),
            h == grid@.len(),
            0 <= c <= w,
            s@ == line_cells(grid@, threshold, i as int, c as int),
        decreases w - c,
    {
        let upper = grid.get(2 * i, c);
        let lower = if 2 * i + 1 < h {
            grid.get(2 * i + 1, c)
        } else {
            Pixel { r: 0, g: 0, b: 0, a: 0 }
        };
        assert(lower == lower_pixel(grid@, i as int, c as int));
        push_cell(&mut s, upper, lower, threshold);
        c += 1;
    }
    s
}

} // verus!
