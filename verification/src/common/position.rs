//! Where a body part sits on a body; used when a character is assembled and
//! when an attack picks its target.

use vstd::prelude::*;

verus! {

/// Vertical band of a body.
#[derive(Debug, Clone, Copy, PartialEq, Eq, Structural)]
pub enum YPosition {
    High,
    Mid,
    Low,
}

/// Horizontal band of a body.
#[derive(Debug, Clone, Copy, PartialEq, Eq, Structural)]
pub enum XPosition {
    Left,
    Mid,
    Right,
}

} // verus!
