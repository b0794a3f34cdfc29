//! The hardware character cell: one glyph payload byte packed with one
//! encoded visual attribute into a 16-bit value.

use vstd::prelude::*;

use crate::visuals::Visuals;
use crate::visuals::visuals_code;

verus! {

/// The 16-bit encoding of a cell with attribute byte `attr` and glyph
/// payload `payload`: the attribute in the high byte, the payload in
/// the low byte.
pub open spec fn cell_code(attr: u8, payload: u8) -> u16 {
    ((attr as u16) << 8) | (payload as u16)
}

/// One character cell of the display grid, in its packed hardware form.
#[derive(Debug, Clone, Copy, PartialEq, Eq, Structural)]
pub struct Character(u16);

impl View for Character {
    type V = u16;

    closed spec fn view(&self) -> u16 {
        self.0
    }
}

impl Character {
    /// The cell holding `payload` under the attribute `visuals` encodes
    /// to: `(encode(visuals) << 8) | payload`.
    pub fn new(payload: u8, visuals: Visuals) -> (c: Character)
        ensures
            c@ == cell_code(visuals_code(visuals), payload),
    {
        Character(((visuals.get_color_code() as u16) << 8) | (payload as u16))
    }

    /// The empty cell under `visuals`: payload 0.
    pub fn empty(visuals: Visuals) -> (c: Character)
        ensures
            c@ == cell_code(visuals_code(visuals), 0),
    {
        Character::new(0, visuals)
    }

    /// The packed 16-bit value of this cell.
    pub fn code(&self) -> (n: u16)
        ensures
            n == self@,
    {
        self.0
    }
}

} // verus!
