//! The messages of the user interface to the terminal driver.

use vstd::prelude::*;

verus! {

/// A message of the user interface.
#[derive(Debug, PartialEq, Eq)]
pub enum PpTerminalMessage {
    /// Bytes that were typed.
    Input(Vec<u8>),
    /// The screen has this many columns and lines now.
    ReSize(usize, usize),
    /// The view was scrolled by this many lines.
    Scroll(i32),
    /// A selection was started at this line and column.
    SelectionStart(i32, usize),
    /// The selection was dragged to this line and column.
    SelectionUpdate(i32, usize),
    /// The copy key was pressed at this line and column.
    Copy(i32, usize),
}

} // verus!
