//! Text-mode display driver: a fixed 80x25 grid of hardware character
//! cells, a cursor state machine with line wrapping and scrolling, and
//! the color/character encoding the hardware expects.

use vstd::prelude::*;

pub mod cell;
pub mod output_driver;
pub mod screen;
pub mod visuals;

verus! {

/// A zero-argument check that reports its outcome through the display
/// driver; the harness around the kernel implements it for its check
/// functions.
pub trait Testable {
    fn run(&self);
}

} // verus!
