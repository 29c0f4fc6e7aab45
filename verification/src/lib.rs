//! Clipboard history for Omarchy: the verified core.
use vstd::prelude::*;

pub mod bar;
pub mod cli;
pub mod clipboard;
pub mod clip;
pub mod config;
pub mod editing;
pub mod hash;
pub mod history;
pub mod keep;
pub mod keys;
pub mod laws;
pub mod paste;
pub mod paths;
pub mod store;
pub mod text;
pub mod theme;

verus! {

} // verus!
