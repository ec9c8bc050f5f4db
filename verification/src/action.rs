//! What a user can ask of the editor.

use vstd::prelude::*;

verus! {

/// One request of the user.
#[derive(Debug, Clone, Copy, PartialEq, Eq, Structural)]
pub enum Action {
    Up,
    Down,
    Left,
    Right,
    Back,
    InsertMode,
    NormalMode,
    NewLine,
    Hover,
    Complete,
}

/// The editing mode.
#[derive(Clone, Copy, Debug, PartialEq, Eq, Structural)]
pub enum Mode {
    Normal,
    Insert,
}

impl Mode {
    /// The label under which the mode is shown.
    pub fn label(&self) -> (text: &'static str)
        ensures
            *self == Mode::Normal ==> text@ == "Normal"@,
            *self == Mode::Insert ==> text@ == "Debug"@,
    {
        match self {
            Mode::Normal => "Normal",
            Mode::Insert => "Debug",
        }
    }
}

impl Action {
    /// Whether the editor acts on this request. Switching modes is not part of
    /// it.
    pub open spec fn supported(self) -> bool {
        self != Action::InsertMode && self != Action::NormalMode
    }

    /// Whether the editor acts on this request.
    pub fn is_supported(&self) -> (b: bool)
        ensures
            b == self.supported(),
    {
        match self {
            Action::InsertMode | Action::NormalMode => false,
            _ => true,
        }
    }
}

} // verus!
