//! The machine under the driver: an I/O port space and the character grid
//! that the display controller reads.

use vstd::prelude::*;
use crate::vga_buffer::{ScreenChar, BUFFER_HEIGHT, BUFFER_WIDTH};

verus! {

/// One access to the machine, as the hardware sees it.
#[derive(Debug, Clone, Copy, PartialEq, Eq, Structural)]
#[allow(inconsistent_fields)]
pub enum Access {
    /// An 8-bit read of `port` that returned `value`.
    In8 { port: u16, value: u8 },
    /// A 16-bit read of `port` that returned `value`.
    In16 { port: u16, value: u16 },
    /// A 32-bit read of `port` that returned `value`.
    In32 { port: u16, value: u32 },
    /// An 8-bit write of `value` to `port`.
    Out8 { port: u16, value: u8 },
    /// A 16-bit write of `value` to `port`.
    Out16 { port: u16, value: u16 },
    /// A 32-bit write of `value` to `port`.
    Out32 { port: u16, value: u32 },
    /// A read of the grid cell at (`row`, `col`) that returned `cell`.
    Load { row: usize, col: usize, cell: ScreenChar },
    /// A write of `cell` to the grid cell at (`row`, `col`).
    Store { row: usize, col: usize, cell: ScreenChar },
}

/// The grid has `BUFFER_HEIGHT` rows of `BUFFER_WIDTH` cells.
pub open spec fn grid_wf(cells: Seq<Seq<ScreenChar>>) -> bool {
    &&& cells.len() == BUFFER_HEIGHT
    &&& forall|row: int| 0 <= row < BUFFER_HEIGHT ==> (#[trigger] cells[row]).len() == BUFFER_WIDTH
}

/// Two grids that agree in every cell are the same grid.
pub proof fn lemma_grid_equal(a: Seq<Seq<ScreenChar>>, b: Seq<Seq<ScreenChar>>)
    requires
        grid_wf(a),
        grid_wf(b),
        forall|row: int, col: int|
            0 <= row < BUFFER_HEIGHT && 0 <= col < BUFFER_WIDTH ==> a[row][col] == b[row][col],
    ensures
        a == b,
{
    assert forall|row: int| 0 <= row < BUFFER_HEIGHT implies a[row] == b[row] by {
    }
}

/// What is known of a machine: the contents of its character grid, row by
/// row, every access made to it so far, oldest first, and the I/O ports that
/// the holder of the handle is allowed and able to access.
pub struct HardwareState {
    pub cells: Seq<Seq<ScreenChar>>,
    pub trace: Seq<Access>,
    pub ports: Set<u16>,
}

impl HardwareState {
    /// The grid has `BUFFER_HEIGHT` rows of `BUFFER_WIDTH` cells.
    pub open spec fn wf(self) -> bool {
        grid_wf(self.cells)
    }

    /// The state after one more access that leaves the grid as it is.
    pub open spec fn record(self, access: Access) -> HardwareState {
        HardwareState { trace: self.trace.push(access), ..self }
    }

    /// The state after `accesses`, in their order, none of which changes the
    /// grid.
    pub open spec fn extend(self, accesses: Seq<Access>) -> HardwareState {
        HardwareState { trace: self.trace + accesses, ..self }
    }

    /// The state with `cell` at (`row`, `col`) and the trace as it is.
    pub open spec fn with_cell(self, row: int, col: int, cell: ScreenChar) -> HardwareState {
        HardwareState { cells: self.cells.update(row, self.cells[row].update(col, cell)), ..self }
    }
}

/// Raw access to the machine. Each call is exactly one access of the stated
/// width at the stated place, issued when the call is made: an implementation
/// neither skips, merges nor reorders accesses. A port access asks that the
/// port is one of those the handle may access; nothing checks this when the
/// program runs.
pub trait Hardware {
    /// The grid contents, the accesses made so far and the ports that may
    /// be accessed.
    spec fn state(&self) -> HardwareState;

    /// Reads `port` once, as 8 bits.
    fn in8(&mut self, port: u16) -> (value: u8)
        requires
            old(self).state().ports.contains(port),
        ensures
            final(self).state() == old(self).state().record(Access::In8 { port, value }),
    ;

    /// Reads `port` once, as 16 bits.
    fn in16(&mut self, port: u16) -> (value: u16)
        requires
            old(self).state().ports.contains(port),
        ensures
            final(self).state() == old(self).state().record(Access::In16 { port, value }),
    ;

    /// Reads `port` once, as 32 bits.
    fn in32(&mut self, port: u16) -> (value: u32)
        requires
            old(self).state().ports.contains(port),
        ensures
            final(self).state() == old(self).state().record(Access::In32 { port, value }),
    ;

    /// Writes the 8 bits of `value` to `port` once.
    fn out8(&mut self, port: u16, value: u8)
        requires
            old(self).state().ports.contains(port),
        ensures
            final(self).state() == old(self).state().record(Access::Out8 { port, value }),
    ;

    /// Writes the 16 bits of `value` to `port` once.
    fn out16(&mut self, port: u16, value: u16)
        requires
            old(self).state().ports.contains(port),
        ensures
            final(self).state() == old(self).state().record(Access::Out16 { port, value }),
    ;

    /// Writes the 32 bits of `value` to `port` once.
    fn out32(&mut self, port: u16, value: u32)
        requires
            old(self).state().ports.contains(port),
        ensures
            final(self).state() == old(self).state().record(Access::Out32 { port, value }),
    ;

    /// Reads the cell at (`row`, `col`) once: it is the cell last written
    /// there.
    fn load(&mut self, row: usize, col: usize) -> (cell: ScreenChar)
        requires
            old(self).state().wf(),
            row < BUFFER_HEIGHT,
            col < BUFFER_WIDTH,
        ensures
            cell == old(self).state().cells[row as int][col as int],
            final(self).state() == old(self).state().record(Access::Load { row, col, cell }),
    ;

    /// Writes `cell` to (`row`, `col`) once, and to no other cell.
    fn store(&mut self, row: usize, col: usize, cell: ScreenChar)
        requires
            old(self).state().wf(),
            row < BUFFER_HEIGHT,
            col < BUFFER_WIDTH,
        ensures
            final(self).state() == old(self).state().with_cell(row as int, col as int, cell).record(
                Access::Store { row, col, cell },
            ),
    ;
}

} // verus!
