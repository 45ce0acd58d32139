//! Terminal state: grid, cursor, modes, and what the output stream does to them.

pub mod cell;
pub mod charset;
pub mod color;
pub mod cursor;
pub mod grid;
pub mod grid_laws;
pub mod laws;
pub mod mode;
pub mod model;
pub mod motion_laws;
pub mod parser;
pub mod reflow;
pub mod reflow_laws;
pub mod scan;
pub mod screen_laws;
pub mod state_laws;
pub mod stream_laws;
pub mod terminal;
pub mod vt;

pub use cell::{Cell, CellFlags, Pen, CLUSTER_TAG};
pub use color::{Color, Palette};
pub use cursor::{CursorShape, CursorState};
pub use grid::Grid;
pub use mode::TermMode;
pub use parser::Processor;
pub use terminal::Term;
