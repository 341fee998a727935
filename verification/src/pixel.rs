use vstd::prelude::*;

verus! {

/// One RGBA pixel. Channels are 8-bit; alpha 255 is fully opaque, 0 fully
/// transparent.
#[derive(Clone, Copy, PartialEq, Eq, Structural, Debug)]
pub struct Pixel {
    pub r: u8,
    pub g: u8,
    pub b: u8,
    pub a: u8,
}

/// The fully transparent black pixel, used as the synthetic lower pixel when a
/// grid has an odd number of rows.
pub open spec fn transparent_pixel() -> Pixel {
    Pixel { r: 0, g: 0, b: 0, a: 0 }
}

/// Height of a grid viewed as a sequence of rows.
pub open spec fn grid_height(g: Seq<Seq<Pixel>>) -> int {
    g.len() as int
}

/// Width of a grid: the length of its first row (0 when there are no rows).
pub open spec fn grid_width(g: Seq<Seq<Pixel>>) -> int {
    if g.len() == 0 {
        0
    } else {
        g[0].len() as int
    }
}

/// A grid is well formed when it is rectangular: every row has the same length.
pub open spec fn grid_wf(g: Seq<Seq<Pixel>>) -> bool {
    forall|i: int| 0 <= i < g.len() ==> (#[trigger] g[i]).len() == grid_width(g)
}

/// A rectangular, row-major grid of pixels. Created by decoding plus
/// resampling and read-only afterwards.
pub struct PixelGrid {
    pub rows: Vec<Vec<Pixel>>,
}

impl View for PixelGrid {
    type V = Seq<Seq<Pixel>>;

    open spec fn view(&self) -> Seq<Seq<Pixel>> {
        self.rows@.map_values(|r: Vec<Pixel>| r@)
    }
}

impl PixelGrid {
    /// Well-formedness: the rows form a rectangle.
    pub open spec fn wf(&self) -> bool {
        grid_wf(self@)
    }

    pub fn height(&self) -> (h: usize)
        ensures
            h == self@.len(),
    {
        self.rows.len()
    }

    pub fn width(&self) -> (w: usize)
        ensures
            w as int == grid_width(self@),
    {
        if self.rows.len() == 0 {
            0
        } else {
            self.rows[0].len()
        }
    }

    pub fn get(&self, y: usize, x: usize) -> (p: Pixel)
        requires
            self.wf(),
            y < self@.len(),
            x < grid_width(self@),
        ensures
            p == self@[y as int][x as int],
    {
        proof {
            assert(self@[y as int] == self.rows@[y as int]@);
            assert(self@[y as int].len() == grid_width(self@));
        }
        self.rows[y][x]
    }

    /// Builds a grid from rows; returns the grid exactly when the rows are
    /// rectangular, and nothing otherwise.
    pub fn from_rows(rows: Vec<Vec<Pixel>>) -> (r: Option<PixelGrid>)
        ensures
            r is Some <==> grid_wf(rows@.map_values(|v: Vec<Pixel>| v@)),
            r matches Some(g) ==> g@ == rows@.map_values(|v: Vec<Pixel>| v@) && g.wf(),
    {
        let ghost gv = rows@.map_values(|v: Vec<Pixel>| v@);
        let w: usize = if rows.len() == 0 {
            0
        } else {
            rows[0].len()
        };
        assert(grid_width(gv) == w);
        let mut i: usize = 0;
        while i < rows.len()
            invariant
                0 <= i <= rows.len(),
                gv == rows@.map_values(|v: Vec<Pixel>| v@),
                grid_width(gv) == w,
                forall|j: int| 0 <= j < i ==> (#[trigger] gv[j]).len() == w,
            decreases rows.len() - i,
        {
            if rows[i].len() != w {
                assert(gv[i as int].len() != w);
                assert(!grid_wf(gv));
                return None;
            }
            i += 1;
        }
        let g = PixelGrid { rows };
        assert(g@ == gv);
        Some(g)
    }
}

/// How the resampler interpolates between source pixels.
#[derive(Clone, Copy, PartialEq, Eq, Structural, Debug)]
pub enum Interpolation {
    /// Each target pixel copies the proportionally nearest source pixel.
    Nearest,
    /// Catmull-Rom cubic convolution over a 4x4 source neighborhood.
    Cubic,
}

/// Immutable per-invocation rendering parameters.
#[derive(Clone, Copy, PartialEq, Eq, Structural, Debug)]
pub struct RenderConfig {
    /// Target width of the resampled grid, in pixels; must be at least 1.
    pub width: u16,
    /// Target height of the resampled grid, in pixels; must be at least 1.
    pub height: u16,
    /// Minimum alpha a pixel needs to be rendered as visible color.
    pub threshold: u8,
    pub interpolation: Interpolation,
}

/// A structured rendering failure; rendering never partially succeeds.
#[derive(Clone, Copy, PartialEq, Eq, Structural, Debug)]
pub enum RenderError {
    /// The source grid has zero width or zero height.
    InvalidSource,
    /// The requested target width or height is zero.
    InvalidConfiguration,
}

impl RenderError {
    pub fn message(&self) -> (m: &'static str)
        ensures
            *self is InvalidSource ==> m@ == "the source image is empty"@,
            *self is InvalidConfiguration ==> m@ == "the target size is zero"@,
    {
        match self {
            RenderError::InvalidSource => "the source image is empty",
            RenderError::InvalidConfiguration => "the target size is zero",
        }
    }
}

} // verus!
