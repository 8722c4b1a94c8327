//! Input vocabulary shared with the display layer.

use vstd::prelude::*;

verus! {

/// Supported mouse buttons.
#[derive(Clone, Copy, Debug, PartialEq, Eq, Hash, Structural)]
pub enum MouseButton {
    Left,
    Right,
    Middle,
    /// Any other button, by number.
    Other(u32),
}

} // verus!
