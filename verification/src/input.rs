use vstd::prelude::*;

verus! {

/// The keys that the sandbox reacts to.
#[derive(Debug, Clone, Copy, PartialEq, Eq, Structural)]
pub enum Key {
    /// Switches the drawing of force vectors.
    D,
    /// Switches the drawing of information on each body.
    I,
    /// Starts over: removes every body and spawns the starting system.
    R,
    /// Removes every body.
    C,
    /// Any other key, which does nothing.
    Other,
}

/// The mouse buttons.
#[derive(Debug, Clone, Copy, PartialEq, Eq, Structural)]
pub enum MouseButton {
    Left,
    Right,
    Middle,
    Other,
}

/// What the sandbox remembers of the mouse, besides positions.
#[derive(Debug, Clone, Copy, PartialEq, Eq, Structural)]
pub struct MouseInfo {
    /// Whether a button is held down.
    pub down: bool,
    /// The button that was pressed last.
    pub button_down: MouseButton,
}

impl Default for MouseInfo {
    /// No button held, with the left one as the last pressed.
    fn default() -> (m: MouseInfo)
        ensures
            m == (MouseInfo { down: false, button_down: MouseButton::Left }),
    {
        MouseInfo { down: false, button_down: MouseButton::Left }
    }
}

impl MouseInfo {
    /// Whether the left button is being dragged, which is when the line
    /// from the press point is drawn (if the drag is long enough).
    pub fn left_drag(&self) -> (r: bool)
        ensures
            r == (self.down && self.button_down == MouseButton::Left),
    {
        self.down && self.button_down == MouseButton::Left
    }
}

} // verus!
