//! Input delivered to the widget tree, at most one event per frame.
use vstd::prelude::*;

verus! {

/// A pointer button.
#[derive(Clone, Copy, Debug, PartialEq, Eq, Structural)]
pub enum PointerButton {
    Left,
    Right,
    Middle,
    Other(u16),
}

#[derive(Clone, Copy, Debug, PartialEq, Eq, Structural)]
pub enum MouseEventType {
    MouseDown(PointerButton),
    MouseUp(PointerButton),
    Moved,
}

#[derive(Clone, Copy, Debug, PartialEq, Eq, Structural)]
pub enum KeyEventType {
    Pressed,
    Released,
}

#[derive(Clone, Copy, Debug, PartialEq, Eq, Structural)]
pub enum KeyEventKey {
    Char(char),
    Backspace,
    Enter,
    Esc,
}

/// A pointer position in screen pixels.
#[derive(Clone, Copy, Debug, PartialEq, Eq, Structural)]
pub struct Position {
    pub x: i64,
    pub y: i64,
}

#[derive(Clone, Copy, Debug, PartialEq, Eq, Structural)]
pub enum GuiEvent {
    MouseEvent(MouseEventType, Position),
    KeyEvent(KeyEventType, KeyEventKey),
}

impl GuiEvent {
    /// The screen position of a pointer event.
    pub open spec fn pointer_position(self) -> Option<Position> {
        match self {
            GuiEvent::MouseEvent(_, p) => Some(p),
            GuiEvent::KeyEvent(_, _) => None,
        }
    }

    /// The button of a pointer-down event.
    pub open spec fn pressed_button(self) -> Option<PointerButton> {
        match self {
            GuiEvent::MouseEvent(MouseEventType::MouseDown(b), _) => Some(b),
            _ => None,
        }
    }
}

} // verus!
