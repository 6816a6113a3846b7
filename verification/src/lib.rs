//! Core logic of a terminal password vault: selection state of the browser,
//! key handling, screen layout, command parsing, the on-disk entry section
//! and the helpers that turn digest and key-derivation output into keys.
use vstd::prelude::*;

pub mod navigation;
pub mod text;
pub mod digest;
pub mod vault;
pub mod commands;
pub mod hidden_input;
pub mod browser;
pub mod screen;

verus! {
} // verus!
