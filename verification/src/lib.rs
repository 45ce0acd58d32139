//! The verified core of Tachyon, a terminal emulator.

pub mod cli;
pub mod config;
pub mod input;
pub mod input_laws;
pub mod pty;
pub mod render;
pub mod term;
pub mod text;
pub mod text_laws;
pub mod win;

use vstd::prelude::*;

verus! {

/// Identity used for taskbar grouping and jump lists. The Start menu shortcut carries the same one,
/// or a pinned shortcut and a running window would count as two applications.
pub const APP_USER_MODEL_ID: &'static str = "Tachyon.Terminal";

pub const APP_NAME: &'static str = "Tachyon";

pub const APP_VERSION: &'static str = "0.1.0";

} // verus!
