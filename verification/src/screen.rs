//! What the editor shows and how it takes input.

use vstd::prelude::*;

verus! {

/// The screen that is shown.
#[derive(Debug, Clone, Copy, PartialEq, Eq, Structural)]
pub enum Screen {
    /// No pane is open.
    Welcome,
    /// Keys go to the focused pane.
    Editor,
    /// Keys go to the command bar.
    Command,
    /// A message covers the editor.
    Popup,
}

/// The input mode of the editor screen.
#[derive(Debug, Clone, Copy, PartialEq, Eq, Structural)]
pub enum Mod {
    /// Keys insert text.
    Input,
    /// A selection is open; it started at the given position.
    Visual(usize, usize),
}

} // verus!
