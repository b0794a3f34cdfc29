//! The display grid: a fixed 80x25 row-major array of packed cells on
//! hardware-observed memory. Every read and write of a cell goes through
//! a volatile access, so the accesses the hardware sees are never
//! cached, reordered or dropped by the compiler.

use vstd::prelude::*;
use volatile::Volatile;

use crate::cell::Character;
use crate::cell::cell_code;
use crate::visuals::Visuals;
use crate::visuals::default_visuals;
use crate::visuals::visuals_code;

verus! {

/// Rows of the display grid.
pub const BUFFER_HEIGHT: usize = 25;

/// Columns of the display grid.
pub const BUFFER_WIDTH: usize = 80;

/// Cells of the whole display grid.
pub const BUFFER_CELLS: usize = 2000;

#[verifier::external_type_specification]
#[verifier::external_body]
#[verifier::reject_recursive_types(T)]
pub struct ExVolatile<T: Copy>(Volatile<T>);

/// The value a volatile cell holds.
pub uninterp spec fn vol_value(v: Volatile<u16>) -> u16;

/// Relies on volatile::Volatile::new: wraps the given value.
#[verifier::external_body]
fn vol_new(x: u16) -> (v: Volatile<u16>)
    ensures
        vol_value(v) == x,
{
    Volatile::new(x)
}

/// Relies on volatile::Volatile::read: a volatile load of the value the
/// cell at `i` holds, returned as a copy.
#[verifier::external_body]
fn vol_read_at(cells: &Vec<Volatile<u16>>, i: usize) -> (x: u16)
    requires
        i < cells@.len(),
    ensures
        x == vol_value(cells@[i as int]),
{
    cells[i].read()
}

/// Relies on volatile::Volatile::write: a volatile store of `x` into the
/// cell at `i`; the other cells keep their values.
#[verifier::external_body]
fn vol_write_at(cells: &mut Vec<Volatile<u16>>, i: usize, x: u16)
    requires
        i < old(cells)@.len(),
    ensures
        final(cells)@.len() == old(cells)@.len(),
        vol_value(final(cells)@[i as int]) == x,
        forall|j: int|
            0 <= j < old(cells)@.len() && j != i ==> final(cells)@[j] == old(cells)@[j],
{
    cells[i].write(x)
}

/// The fixed grid of hardware cells, row-major. Exactly one `Buffer`
/// stands for the display for the life of the process, owned by the
/// output driver; nothing else aliases it.
pub struct Buffer {
    cells: Vec<Volatile<u16>>,
}

impl View for Buffer {
    type V = Seq<u16>;

    closed spec fn view(&self) -> Seq<u16> {
        Seq::new(self.cells@.len(), |i: int| vol_value(self.cells@[i]))
    }
}

impl Buffer {
    /// A fresh grid with every cell empty under the default attribute.
    pub fn new() -> (b: Buffer)
        ensures
            b@.len() == BUFFER_CELLS,
            forall|i: int|
                0 <= i < BUFFER_CELLS ==> b@[i] == cell_code(visuals_code(default_visuals()), 0),
    {
        let code: u16 = Character::empty(Visuals::default()).code();
        let mut cells: Vec<Volatile<u16>> = Vec::new();
        let mut i: usize = 0;
        while i < BUFFER_CELLS
            invariant
                i <= BUFFER_CELLS,
                cells@.len() == i,
                code == cell_code(visuals_code(default_visuals()), 0),
                forall|j: int| 0 <= j < i ==> vol_value(cells@[j]) == code,
            decreases BUFFER_CELLS - i,
        {
            cells.push(vol_new(code));
            i = i + 1;
        }
        Buffer { cells }
    }

    /// The cell at `row`, `col`; both indices must be in range, which
    /// the driver establishes before every access.
    pub fn read_cell(&self, row: usize, col: usize) -> (x: u16)
        requires
            self@.len() == BUFFER_CELLS,
            row < BUFFER_HEIGHT,
            col < BUFFER_WIDTH,
        ensures
            x == self@[row as int * 80 + col as int],
    {
        vol_read_at(&self.cells, row * BUFFER_WIDTH + col)
    }

    /// Stores the packed cell `x` at `row`, `col`.
    pub fn write_cell(&mut self, row: usize, col: usize, x: u16)
        requires
            old(self)@.len() == BUFFER_CELLS,
            row < BUFFER_HEIGHT,
            col < BUFFER_WIDTH,
        ensures
            final(self)@ == old(self)@.update(row as int * 80 + col as int, x),
    {
        vol_write_at(&mut self.cells, row * BUFFER_WIDTH + col, x);
        proof {
            assert(self@ =~= old(self)@.update(row as int * 80 + col as int, x));
        }
    }
}

} // verus!
