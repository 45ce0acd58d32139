//! What the window decides.
//!
//! The window itself belongs to the system. Here stand the rules it goes by: which keys are
//! shortcuts, who gets the mouse, what a paste sends, when a frame is due, which tab is shown. Each
//! is a function of plain values; whoever owns the window performs what comes out.

pub mod geometry;
pub mod install;
pub mod keys;
pub mod laws;
pub mod messages;
pub mod mouse;
pub mod pacing;
pub mod paste;
pub mod selection;
pub mod tabs;
pub mod wide;
