//! What a frame shows.
//!
//! Terminal state goes in; lists of things to draw come out, in cells and colours. Turning those
//! into pixels is left to whoever owns the display.
//!
//! Two ideas keep the lists short. Each row is scanned for runs of equal background, and one run is
//! one rectangle: a plain shell prompt collapses to nothing at all, because what shows the default
//! background is not listed. And only cells that have ink ask for glyphs.

pub mod atlas;
pub mod buffers;
pub mod chars;
pub mod colors;
pub mod coverage;
pub mod font;
pub mod frame;
pub mod frame_laws;
pub mod glyph_laws;
pub mod runs;
pub mod selection;
pub mod title;

pub use frame::{FrameInput, Painter, TabInfo};
pub use selection::SelectionRange;
