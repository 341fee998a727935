//! The render facade: resamples the source grid to the configured target size,
//! renders its row pairs to glyph lines, and assembles them into one
//! newline-terminated text buffer, or reports a single structured failure.

use vstd::prelude::*;

use crate::glyph::line_pair_count;
use crate::glyph::lines_up_to;
use crate::glyph::render_line;
use crate::glyph::render_text;
use crate::pixel::grid_width;
use crate::pixel::PixelGrid;
use crate::pixel::RenderConfig;
use crate::pixel::RenderError;
use crate::resample::resample;
use crate::resample::resampled;

verus! {

/// Renders every row pair of a well-formed grid and accumulates the glyph
/// lines, each terminated by a single newline, into the final text.
pub fn render_grid(grid: &PixelGrid, threshold: u8) -> (out: String)
    requires
        grid.wf(),
    ensures
        out@ == render_text(grid@, threshold),
{
    let h = grid.height();
    let pairs = h / 2 + h % 2;
    assert(pairs == line_pair_count(grid@.len() as int));
    let mut out = String::new();
    let mut i: usize = 0;
    while i < pairs
        invariant
            grid.wf(),
            h == grid@.len(),
            pairs == line_pair_count(grid@.len() as int),
            0 <= i <= pairs,
            out@ == lines_up_to(grid@, threshold, i as int),
        decreases pairs - i,
    {
        assert(2 * i < h);
        let line = render_line(grid, threshold, i);
        out.append(line.as_str());
        out.append("\n");
        proof {
            reveal_strlit("\n");
            assert("\n"@ =~= seq!['\n']);
            assert(out@ =~= lines_up_to(grid@, threshold, i as int + 1));
        }
        i += 1;
    }
    out
}

/// Renders one source grid under one configuration: resamples it to the target
/// size with the configured interpolation, maps every vertical pixel pair to a
/// half-block glyph under the alpha threshold, and returns the assembled text.
/// Rejects a zero target size before resampling begins, and propagates the
/// resampler's failure on an empty source; it never partially renders.
pub fn render(grid: &PixelGrid, config: &RenderConfig) -> (r: Result<String, RenderError>)
    requires
        grid.wf(),
    ensures
        r is Ok <==> config.width >= 1 && config.height >= 1 && grid@.len() >= 1 && grid_width(
            grid@,
        ) >= 1,
        r matches Ok(text) ==> text@ == render_text(
            resampled(grid@, config.width as int, config.height as int, config.interpolation),
            config.threshold,
        ),
        r matches Err(e) ==> ((e == RenderError::InvalidConfiguration) <==> (config.width == 0
            || config.height == 0)),
        r matches Err(e) ==> ((e == RenderError::InvalidSource) <==> (config.width >= 1
            && config.height >= 1 && (grid@.len() == 0 || grid_width(grid@) == 0))),
{
    if config.width == 0 || config.height == 0 {
        return Err(RenderError::InvalidConfiguration);
    }
    match resample(grid, config.width, config.height, config.interpolation) {
        Ok(resized) => Ok(render_grid(&resized, config.threshold)),
        Err(e) => Err(e),
    }
}

} // verus!
