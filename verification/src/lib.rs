//! Renders a raster image as terminal text that approximates the image with
//! Unicode half-block glyphs and 24-bit ANSI color escapes: the grid is
//! resampled to a target size, each vertical pixel pair becomes one glyph with
//! foreground/background colors chosen by an alpha threshold, and the glyphs
//! are assembled into one newline-terminated line per row pair.

pub mod escape;
pub mod glyph;
pub mod laws;
pub mod pixel;
pub mod render;
pub mod resample;

pub use pixel::Interpolation;
pub use pixel::Pixel;
pub use pixel::PixelGrid;
pub use pixel::RenderConfig;
pub use pixel::RenderError;
pub use render::render;
pub use render::render_grid;
pub use resample::resample;
