//! A machine in memory: a character grid, the registers of a display
//! controller behind its two ports, and a log of every access.

use vstd::prelude::*;
use crate::crtc::CrtcState;
use crate::hardware::{Access, Hardware, HardwareState};
use crate::vga_buffer::{
    ColorCode, ScreenChar, BUFFER_HEIGHT, BUFFER_WIDTH, CRTC_COMMAND_PORT, CRTC_DATA_PORT,
    CURSOR_HIGH_REGISTER, CURSOR_LOW_REGISTER,
};

verus! {

/// A simulated machine. Its grid is an array of cells. Every port may be
/// accessed: the two of the display controller select, read and write one of
/// 256 registers; the others read as 0 and forget what is written to them,
/// and so do all ports at 16 and 32 bits. Every access is logged.
pub struct SimulatedHardware {
    pub cells: [[ScreenChar; BUFFER_WIDTH]; BUFFER_HEIGHT],
    pub registers: [u8; 256],
    pub index: u8,
    pub log: Vec<Access>,
}

impl SimulatedHardware {
    /// The registers of the simulated display controller.
    pub open spec fn crtc(&self) -> CrtcState {
        CrtcState { index: self.index, registers: self.registers@ }
    }

    /// A machine whose cells and registers are all zero and whose log is
    /// empty.
    pub fn new() -> (hw: SimulatedHardware)
        ensures
            hw.state().wf(),
            hw.state().ports == Set::<u16>::full(),
            hw.state().trace == Seq::<Access>::empty(),
            forall|row: int, col: int|
                0 <= row < BUFFER_HEIGHT && 0 <= col < BUFFER_WIDTH ==> #[trigger] hw.state().cells[row][col]
                    == (ScreenChar { ascii_character: 0, color_code: ColorCode(0) }),
            hw.crtc().wf(),
            hw.crtc().index == 0,
            forall|i: int| 0 <= i < 256 ==> #[trigger] hw.crtc().registers[i] == 0,
    {
        let zero = ScreenChar { ascii_character: 0, color_code: ColorCode(0) };
        SimulatedHardware {
            cells: [[zero; BUFFER_WIDTH]; BUFFER_HEIGHT],
            registers: [0u8; 256],
            index: 0,
            log: Vec::new(),
        }
    }

    /// The cell at (`row`, `col`), read without an access to the machine.
    pub fn cell(&self, row: usize, col: usize) -> (cell: ScreenChar)
        requires
            row < BUFFER_HEIGHT,
            col < BUFFER_WIDTH,
        ensures
            cell == self.state().cells[row as int][col as int],
    {
        self.cells[row][col]
    }

    /// The accesses made so far, oldest first.
    pub fn accesses(&self) -> (log: &Vec<Access>)
        ensures
            log@ == self.state().trace,
    {
        &self.log
    }

    /// What register `index` of the display controller holds.
    pub fn register(&self, index: u8) -> (value: u8)
        ensures
            value == self.crtc().registers[index as int],
    {
        self.registers[index as usize]
    }

    /// The cursor position that the display controller holds: its high byte
    /// in register `CURSOR_HIGH_REGISTER`, its low byte in register
    /// `CURSOR_LOW_REGISTER`.
    pub fn cursor_position(&self) -> (pos: u16)
        ensures
            pos == self.crtc().cursor_position(),
    {
        let high: u16 = self.registers[CURSOR_HIGH_REGISTER as usize] as u16;
        let low: u16 = self.registers[CURSOR_LOW_REGISTER as usize] as u16;
        high * 256 + low
    }
}

impl Hardware for SimulatedHardware {
    open spec fn state(&self) -> HardwareState {
        HardwareState {
            cells: Seq::new(BUFFER_HEIGHT as nat, |row: int| self.cells@[row]@),
            trace: self.log@,
            ports: Set::full(),
        }
    }

    fn in8(&mut self, port: u16) -> (value: u8)
        ensures
            value == old(self).crtc().read(port),
            final(self).crtc() == old(self).crtc(),
    {
        let value: u8 = if port == CRTC_COMMAND_PORT {
            self.index
        } else if port == CRTC_DATA_PORT {
            self.registers[self.index as usize]
        } else {
            0
        };
        self.log.push(Access::In8 { port, value });
        value
    }

    fn in16(&mut self, port: u16) -> (value: u16)
        ensures
            value == 0,
            final(self).crtc() == old(self).crtc(),
    {
        self.log.push(Access::In16 { port, value: 0 });
        0
    }

    fn in32(&mut self, port: u16) -> (value: u32)
        ensures
            value == 0,
            final(self).crtc() == old(self).crtc(),
    {
        self.log.push(Access::In32 { port, value: 0 });
        0
    }

    fn out8(&mut self, port: u16, value: u8)
        ensures
            final(self).crtc() == old(self).crtc().step(Access::Out8 { port, value }),
    {
        if port == CRTC_COMMAND_PORT {
            self.index = value;
        } else if port == CRTC_DATA_PORT {
            self.registers[self.index as usize] = value;
        }
        self.log.push(Access::Out8 { port, value });
    }

    fn out16(&mut self, port: u16, value: u16)
        ensures
            final(self).crtc() == old(self).crtc(),
    {
        self.log.push(Access::Out16 { port, value });
    }

    fn out32(&mut self, port: u16, value: u32)
        ensures
            final(self).crtc() == old(self).crtc(),
    {
        self.log.push(Access::Out32 { port, value });
    }

    fn load(&mut self, row: usize, col: usize) -> (cell: ScreenChar)
        ensures
            final(self).crtc() == old(self).crtc(),
    {
        let cell = self.cells[row][col];
        self.log.push(Access::Load { row, col, cell });
        cell
    }

    fn store(&mut self, row: usize, col: usize, cell: ScreenChar)
        ensures
            final(self).crtc() == old(self).crtc(),
    {
        self.cells[row][col] = cell;
        self.log.push(Access::Store { row, col, cell });
        proof {
            let before = old(self).state().with_cell(row as int, col as int, cell);
            assert(self.state().cells =~~= before.cells);
        }
    }
}

} // verus!
