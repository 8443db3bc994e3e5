//! tui_preview — the verified core of a terminal file previewer.
use vstd::prelude::*;

pub mod textfmt;
pub mod order;
pub mod preview;
pub mod fs;
pub mod ui;
pub mod cache;
pub mod config;
pub mod error;
pub mod event;
pub mod term;
pub mod app;

verus! {

} // verus!
