//! An embeddable interactive prompt.
//!
//! The crate holds the line editor, its history, the suggestion overlay and
//! the line parser of a command prompt. Nothing here touches a terminal: the
//! editor is a state machine that takes one key at a time, together with what
//! the screen reported, and appends the bytes to draw to an output buffer that
//! the embedding program writes out.
pub mod arguments;
pub mod catalog;
pub mod command;
pub mod history;
pub mod screen;
pub mod terminal;
pub mod text;

use vstd::prelude::*;

verus! {

} // verus!
