//! The character grid: colors, cells, and the writer that fills them.

use vstd::prelude::*;
use std::ops::DerefMut;
use spin::{Mutex, MutexGuard};
use crate::hardware::{lemma_grid_equal, Access, Hardware, HardwareState};
use crate::port::Port;
use crate::screen::{
    all_spaces, blank, blank_grid, clear_row_accesses, clear_screen_accesses, is_printable,
    lemma_clear_screen, lemma_new_line, lemma_new_line_on_blank, lemma_write_byte,
    lemma_write_bytes, lemma_write_printable, scroll_accesses, WriterView, LAST_ROW, NEWLINE,
    PLACEHOLDER, SPACE,
};
use vstd::string::*;

verus! {

/// Number of rows of the character grid.
pub const BUFFER_HEIGHT: usize = 25;

/// Number of columns of the character grid.
pub const BUFFER_WIDTH: usize = 80;

/// The physical address at which the display controller reads the grid.
pub const BUFFER_ADDRESS: usize = 0xb8000;

/// Number of bytes that one cell takes in the frame buffer.
pub const CELL_SIZE: usize = 2;

/// Number of bytes that the grid takes in the frame buffer.
pub const BUFFER_SIZE: usize = BUFFER_WIDTH * BUFFER_HEIGHT * CELL_SIZE;

/// Where the cell at (`row`, `col`) lies in the frame buffer, in bytes from
/// its start: the grid is stored row by row, with nothing between the cells.
pub fn cell_offset(row: usize, col: usize) -> (offset: usize)
    requires
        row < BUFFER_HEIGHT,
        col < BUFFER_WIDTH,
    ensures
        offset == (row * BUFFER_WIDTH + col) * CELL_SIZE,
        offset + CELL_SIZE <= BUFFER_SIZE,
{
    (row * BUFFER_WIDTH + col) * CELL_SIZE
}

/// The sixteen colors of the text-mode palette, in the order of their
/// hardware values 0 to 15.
#[derive(Debug, Clone, Copy, PartialEq, Eq, Structural)]
pub enum Color {
    Black,
    Blue,
    Green,
    Cyan,
    Red,
    Magenta,
    Brown,
    LightGray,
    DarkGray,
    LightBlue,
    LightGreen,
    LightCyan,
    LightRed,
    Pink,
    Yellow,
    White,
}

impl Color {
    /// The hardware value of the color.
    pub open spec fn spec_value(self) -> u8 {
        match self {
            Color::Black => 0,
            Color::Blue => 1,
            Color::Green => 2,
            Color::Cyan => 3,
            Color::Red => 4,
            Color::Magenta => 5,
            Color::Brown => 6,
            Color::LightGray => 7,
            Color::DarkGray => 8,
            Color::LightBlue => 9,
            Color::LightGreen => 10,
            Color::LightCyan => 11,
            Color::LightRed => 12,
            Color::Pink => 13,
            Color::Yellow => 14,
            Color::White => 15,
        }
    }

    /// The hardware value of the color, a number in `0..16`.
    #[verifier::when_used_as_spec(spec_value)]
    pub fn value(self) -> (v: u8)
        ensures
            v == self.spec_value(),
            v < 16,
    {
        match self {
            Color::Black => 0,
            Color::Blue => 1,
            Color::Green => 2,
            Color::Cyan => 3,
            Color::Red => 4,
            Color::Magenta => 5,
            Color::Brown => 6,
            Color::LightGray => 7,
            Color::DarkGray => 8,
            Color::LightBlue => 9,
            Color::LightGreen => 10,
            Color::LightCyan => 11,
            Color::LightRed => 12,
            Color::Pink => 13,
            Color::Yellow => 14,
            Color::White => 15,
        }
    }
}

/// A packed attribute byte: the foreground color in the low four bits, the
/// background color in the high four bits.
#[derive(Debug, Clone, Copy, PartialEq, Eq, Structural)]
pub struct ColorCode(pub u8);

impl ColorCode {
    /// The attribute byte that shows `foreground` on `background`.
    pub open spec fn pack(foreground: Color, background: Color) -> ColorCode {
        ColorCode((background.spec_value() * 16 + foreground.spec_value()) as u8)
    }

    /// Packs `foreground` and `background` into one attribute byte.
    pub fn new(foreground: Color, background: Color) -> (code: ColorCode)
        ensures
            code == ColorCode::pack(foreground, background),
            code.0 % 16 == foreground.spec_value(),
            code.0 / 16 == background.spec_value(),
    {
        let fg: u8 = foreground.value();
        let bg: u8 = background.value();
        assert((bg << 4 | fg) == bg * 16 + fg) by (bit_vector)
            requires
                fg < 16,
                bg < 16,
        ;
        ColorCode(bg << 4 | fg)
    }
}

/// One cell of the grid: a glyph and the attribute it is shown with.
#[derive(Debug, Clone, Copy, PartialEq, Eq, Structural)]
pub struct ScreenChar {
    pub ascii_character: u8,
    pub color_code: ColorCode,
}

impl ScreenChar {
    /// The two bytes of the cell as they lie in the frame buffer: the glyph,
    /// then the attribute.
    pub fn to_bytes(self) -> (bytes: [u8; 2])
        ensures
            bytes@ == seq![self.ascii_character, self.color_code.0],
    {
        [self.ascii_character, self.color_code.0]
    }

    /// The cell whose two bytes in the frame buffer are `bytes`.
    pub fn from_bytes(bytes: [u8; 2]) -> (cell: ScreenChar)
        ensures
            cell.ascii_character == bytes@[0],
            cell.color_code.0 == bytes@[1],
    {
        ScreenChar { ascii_character: bytes[0], color_code: ColorCode(bytes[1]) }
    }
}

/// The port that selects a register of the display controller.
pub const CRTC_COMMAND_PORT: u16 = 0x3D4;

/// The port through which the selected register is read and written.
pub const CRTC_DATA_PORT: u16 = 0x3D5;

/// Index of the register that holds the first scan line of the cursor.
pub const CURSOR_START_REGISTER: u8 = 0x0A;

/// Index of the register that holds the last scan line of the cursor.
pub const CURSOR_END_REGISTER: u8 = 0x0B;

/// Index of the register that holds the high byte of the cursor position.
pub const CURSOR_HIGH_REGISTER: u8 = 0x0E;

/// Index of the register that holds the low byte of the cursor position.
pub const CURSOR_LOW_REGISTER: u8 = 0x0F;

/// The two ports of the display controller are among those that may be
/// accessed.
pub open spec fn crtc_accessible(state: HardwareState) -> bool {
    &&& state.ports.contains(CRTC_COMMAND_PORT)
    &&& state.ports.contains(CRTC_DATA_PORT)
}

/// What is written to the cursor-start register that held `current`: the two
/// high bits of `current`, the cursor switched on, and the low five bits of
/// `cursor_start`.
pub open spec fn cursor_start_value(current: u8, cursor_start: u8) -> u8 {
    (current & 0xC0) | (cursor_start & 0x1F)
}

/// What is written to the cursor-end register that held `current`: the three
/// high bits of `current` and the low five bits of `cursor_end`.
pub open spec fn cursor_end_value(current: u8, cursor_end: u8) -> u8 {
    (current & 0xE0) | (cursor_end & 0x1F)
}

/// The accesses that switch the cursor on and give it its shape, where the
/// two shape registers held `start_before` and `end_before`.
pub open spec fn enable_cursor_accesses(
    start_before: u8,
    end_before: u8,
    cursor_start: u8,
    cursor_end: u8,
) -> Seq<Access> {
    seq![
        Access::Out8 { port: CRTC_COMMAND_PORT, value: CURSOR_START_REGISTER },
        Access::In8 { port: CRTC_DATA_PORT, value: start_before },
        Access::Out8 { port: CRTC_DATA_PORT, value: cursor_start_value(start_before, cursor_start) },
        Access::Out8 { port: CRTC_COMMAND_PORT, value: CURSOR_END_REGISTER },
        Access::In8 { port: CRTC_DATA_PORT, value: end_before },
        Access::Out8 { port: CRTC_DATA_PORT, value: cursor_end_value(end_before, cursor_end) },
    ]
}

/// The accesses that move the cursor to the linear position `pos`: select
/// the high register, write the high byte, select the low register, write
/// the low byte.
pub open spec fn move_cursor_accesses(pos: u16) -> Seq<Access> {
    seq![
        Access::Out8 { port: CRTC_COMMAND_PORT, value: CURSOR_HIGH_REGISTER },
        Access::Out8 { port: CRTC_DATA_PORT, value: (pos / 256) as u8 },
        Access::Out8 { port: CRTC_COMMAND_PORT, value: CURSOR_LOW_REGISTER },
        Access::Out8 { port: CRTC_DATA_PORT, value: (pos % 256) as u8 },
    ]
}

/// The cursor controller: the command port and the data port of the display
/// controller. It caches nothing of the cursor. Each access goes through a
/// copy of the port's handle, so that the controller itself is never lent
/// out in parts.
pub struct Cursor {
    command_port: Port<u8>,
    data_port: Port<u8>,
}

impl Cursor {
    /// The two ports are those of the display controller.
    #[verifier::type_invariant]
    spec fn ports_fixed(self) -> bool {
        &&& self.command_port.address() == CRTC_COMMAND_PORT
        &&& self.data_port.address() == CRTC_DATA_PORT
    }

    /// A controller on the two ports of the display controller, with the
    /// cursor switched on and shaped as scan lines 14 to 15.
    pub fn new<H: Hardware>(hw: &mut H) -> (cursor: Cursor)
        requires
            crtc_accessible(old(hw).state()),
        ensures
            exists|start_before: u8, end_before: u8|
                final(hw).state() == old(hw).state().extend(
                    #[trigger] enable_cursor_accesses(start_before, end_before, 14, 15),
                ),
    {
        let mut cursor = Cursor {
            command_port: Port::new(CRTC_COMMAND_PORT),
            data_port: Port::new(CRTC_DATA_PORT),
        };
        cursor.enable_cursor(hw, 14, 15);
        cursor
    }

    /// Moves the cursor to the linear position `pos`, that is row times
    /// `BUFFER_WIDTH` plus column.
    pub fn move_cursor<H: Hardware>(&mut self, hw: &mut H, pos: u16)
        requires
            crtc_accessible(old(hw).state()),
        ensures
            final(hw).state() == old(hw).state().extend(move_cursor_accesses(pos)),
    {
        proof {
            use_type_invariant(&*self);
        }
        let high: u16 = (pos >> 8) & 0xFF;
        let low: u16 = pos & 0xFF;
        assert(high == pos / 256 && low == pos % 256 && high < 256 && low < 256) by (bit_vector)
            requires
                high == (pos >> 8) & 0xFF,
                low == pos & 0xFF,
        ;
        self.command_port.clone().write(hw, CURSOR_HIGH_REGISTER);
        self.data_port.clone().write(hw, high as u8);
        self.command_port.clone().write(hw, CURSOR_LOW_REGISTER);
        self.data_port.clone().write(hw, low as u8);
        assert(hw.state().trace =~= old(hw).state().trace + move_cursor_accesses(pos));
    }

    /// Switches the cursor on and sets its first and last scan line, keeping
    /// the bits of the two shape registers that mean something else.
    pub fn enable_cursor<H: Hardware>(&mut self, hw: &mut H, cursor_start: u8, cursor_end: u8)
        requires
            crtc_accessible(old(hw).state()),
        ensures
            exists|start_before: u8, end_before: u8|
                final(hw).state() == old(hw).state().extend(
                    #[trigger] enable_cursor_accesses(start_before, end_before, cursor_start, cursor_end),
                ),
    {
        proof {
            use_type_invariant(&*self);
        }
        self.command_port.clone().write(hw, CURSOR_START_REGISTER);
        let start_before: u8 = self.data_port.clone().read(hw);
        self.data_port.clone().write(hw, (start_before & 0xC0) | (cursor_start & 0x1F));
        self.command_port.clone().write(hw, CURSOR_END_REGISTER);
        let end_before: u8 = self.data_port.clone().read(hw);
        self.data_port.clone().write(hw, (end_before & 0xE0) | (cursor_end & 0x1F));
        assert(hw.state().trace =~= old(hw).state().trace + enable_cursor_accesses(
            start_before,
            end_before,
            cursor_start,
            cursor_end,
        ));
    }
}

/// `spin::mutex::Mutex`, the lock that guards the cursor controller. It is
/// opaque here: nothing is known of a lock but its type.
#[verifier::external_type_specification]
#[verifier::external_body]
#[verifier::reject_recursive_types(T)]
#[verifier::reject_recursive_types(R)]
pub struct ExMutex<T: ?Sized, R>(spin::mutex::Mutex<T, R>);

/// `spin::mutex::MutexGuard`, the proof that a lock is held. It is opaque
/// here; the lock is free again when the guard goes out of scope.
#[verifier::external_type_specification]
#[verifier::external_body]
#[verifier::reject_recursive_types(T)]
#[verifier::reject_recursive_types(R)]
pub struct ExMutexGuard<'a, T: 'a + ?Sized, R>(spin::mutex::MutexGuard<'a, T, R>);

/// `spin::relax::Spin`, the way in which `spin::Mutex` waits: by spinning.
#[verifier::external_type_specification]
#[verifier::external_body]
pub struct ExSpin(spin::relax::Spin);

/// Takes the lock of the cursor controller, by `spin::mutex::Mutex::lock`:
/// it spins until the lock is free and comes back with the guard. Nothing is
/// claimed of what the lock guards. It never comes back to a caller that
/// holds the lock already.
#[verifier::external_body]
fn lock_cursor<'a>(cursor: &'a Mutex<Cursor>) -> (guard: MutexGuard<'a, Cursor>) {
    cursor.lock()
}

/// The cursor controller behind a lock that is held, by `deref_mut` of
/// `spin::mutex::MutexGuard`. Nothing is claimed of the controller: it is
/// whatever the last holder of the lock left.
#[verifier::external_body]
fn guarded_cursor<'a, 'b>(guard: &'a mut MutexGuard<'b, Cursor>) -> (cursor: &'a mut Cursor) {
    guard.deref_mut()
}

/// The writer: it puts glyphs into the bottom row of the grid, from the left,
/// moves the grid up when the row is full or a line ends, and keeps the
/// cursor at the write position.
///
/// It owns its handle on the machine and shares the cursor controller, whose
/// lock it takes for each move of the cursor and gives back at once. Who
/// shares a writer puts it behind a lock of its own and takes that one first:
/// a caller that holds the lock of the cursor controller while it calls the
/// writer waits for itself.
pub struct Writer<'a, H: Hardware> {
    column_position: usize,
    color_code: ColorCode,
    cursor: &'a Mutex<Cursor>,
    hardware: H,
}

impl<'a, H: Hardware> View for Writer<'a, H> {
    type V = WriterView;

    closed spec fn view(&self) -> WriterView {
        WriterView {
            column_position: self.column_position as nat,
            color_code: self.color_code,
            hardware: self.hardware.state(),
        }
    }
}

impl<'a, H: Hardware> Writer<'a, H> {
    /// The writer's state is well-formed.
    pub open spec fn wf(&self) -> bool {
        self@.wf()
    }

    /// A writer on `hardware`, in yellow on black, at column 0, that moves
    /// the cursor through the controller behind `cursor`.
    pub fn new(hardware: H, cursor: &'a Mutex<Cursor>) -> (writer: Writer<'a, H>)
        requires
            hardware.state().wf(),
            crtc_accessible(hardware.state()),
        ensures
            writer.wf(),
            writer@.column_position == 0,
            writer@.color_code == ColorCode::pack(Color::Yellow, Color::Black),
            writer@.hardware == hardware.state(),
    {
        Writer {
            column_position: 0,
            color_code: ColorCode::new(Color::Yellow, Color::Black),
            cursor,
            hardware,
        }
    }

    /// Moves the cursor to `pos`, holding the lock of the cursor controller
    /// for the four accesses that this takes.
    fn move_cursor(&mut self, pos: u16)
        requires
            crtc_accessible(old(self)@.hardware),
        ensures
            final(self)@ == (WriterView {
                hardware: old(self)@.hardware.extend(move_cursor_accesses(pos)),
                ..old(self)@
            }),
    {
        let mut guard = lock_cursor(self.cursor);
        guarded_cursor(&mut guard).move_cursor(&mut self.hardware, pos);
    }

    /// The column that the next glyph goes to.
    pub fn column_position(&self) -> (column: usize)
        ensures
            column == self@.column_position,
    {
        self.column_position
    }

    /// The attribute that glyphs are written with.
    pub fn color_code(&self) -> (color: ColorCode)
        ensures
            color == self@.color_code,
    {
        self.color_code
    }

    /// The linear position that the cursor is moved to after each write: the
    /// write position in the bottom row.
    pub fn cursor_position(&self) -> (pos: u16)
        requires
            self.wf(),
        ensures
            pos == self@.cursor_position(),
            pos == LAST_ROW * BUFFER_WIDTH + self@.column_position,
    {
        ((BUFFER_HEIGHT - 1) * BUFFER_WIDTH + self.column_position) as u16
    }

    /// The machine that the writer writes to.
    pub fn hardware(&self) -> (hardware: &H)
        ensures
            hardware.state() == self@.hardware,
    {
        &self.hardware
    }

    /// Writes `byte` to the cell at (`row`, `col`) in the current attribute.
    pub fn write_byte_at(&mut self, byte: u8, row: usize, col: usize)
        requires
            old(self).wf(),
            row < BUFFER_HEIGHT,
            col < BUFFER_WIDTH,
        ensures
            final(self).wf(),
            final(self)@ == old(self)@.write_byte_at(byte, row as int, col as int),
    {
        let color_code = self.color_code;
        self.hardware.store(row, col, ScreenChar { ascii_character: byte, color_code });
    }

    /// Empties `row`.
    pub fn clear_row(&mut self, row: usize)
        requires
            old(self).wf(),
            row < BUFFER_HEIGHT,
        ensures
            final(self).wf(),
            final(self)@ == old(self)@.clear_row(row as int),
    {
        let ghost before = self@;
        let mut col: usize = 0;
        while col < BUFFER_WIDTH
            invariant
                col <= BUFFER_WIDTH,
                row < BUFFER_HEIGHT,
                before.wf(),
                self.wf(),
                self@.column_position == before.column_position,
                self@.color_code == before.color_code,
                self@.hardware.ports == before.hardware.ports,
                self@.hardware.trace == before.hardware.trace + clear_row_accesses(
                    row as int,
                    before.color_code,
                ).take(col as int),
                forall|r: int, c: int|
                    0 <= r < BUFFER_HEIGHT && 0 <= c < BUFFER_WIDTH ==> #[trigger] self@.hardware.cells[r][c]
                        == if r == row && c < col {
                        blank(before.color_code)
                    } else {
                        before.hardware.cells[r][c]
                    },
            decreases BUFFER_WIDTH - col,
        {
            self.write_byte_at(SPACE, row, col);
            col += 1;
        }
        proof {
            let accesses = clear_row_accesses(row as int, before.color_code);
            assert(accesses.take(BUFFER_WIDTH as int) =~= accesses);
            lemma_grid_equal(self@.hardware.cells, before.clear_row(row as int).hardware.cells);
        }
    }

    /// Breaks the line: every row but the first is copied to the row above
    /// it, cell by cell, each cell read and then written; the bottom row is
    /// emptied; the column is reset and the cursor moved to it.
    pub fn new_line(&mut self)
        requires
            old(self).wf(),
        ensures
            final(self).wf(),
            final(self)@ == old(self)@.new_line(),
            final(self)@.column_position == 0,
            final(self)@.cursor_synced(),
            all_spaces(old(self)@.hardware.cells) ==> all_spaces(final(self)@.hardware.cells),
            old(self)@.hardware.cells == blank_grid(old(self)@.color_code) ==> final(self)@.hardware.cells
                == old(self)@.hardware.cells,
    {
        let ghost before = self@;
        let ghost copies = scroll_accesses(before.hardware.cells);
        let mut row: usize = 1;
        while row < BUFFER_HEIGHT
            invariant
                1 <= row <= BUFFER_HEIGHT,
                before.wf(),
                self.wf(),
                self@.column_position == before.column_position,
                self@.color_code == before.color_code,
                self@.hardware.ports == before.hardware.ports,
                copies == scroll_accesses(before.hardware.cells),
                self@.hardware.trace == before.hardware.trace + copies.take(
                    2 * (row - 1) * BUFFER_WIDTH,
                ),
                forall|r: int, c: int|
                    0 <= r < BUFFER_HEIGHT && 0 <= c < BUFFER_WIDTH ==> #[trigger] self@.hardware.cells[r][c]
                        == if r < row - 1 {
                        before.hardware.cells[r + 1][c]
                    } else {
                        before.hardware.cells[r][c]
                    },
            decreases BUFFER_HEIGHT - row,
        {
            let mut col: usize = 0;
            while col < BUFFER_WIDTH
                invariant
                    1 <= row < BUFFER_HEIGHT,
                    col <= BUFFER_WIDTH,
                    before.wf(),
                    self.wf(),
                    self@.column_position == before.column_position,
                    self@.color_code == before.color_code,
                    self@.hardware.ports == before.hardware.ports,
                    copies == scroll_accesses(before.hardware.cells),
                    self@.hardware.trace == before.hardware.trace + copies.take(
                        2 * ((row - 1) * BUFFER_WIDTH + col),
                    ),
                    forall|r: int, c: int|
                        0 <= r < BUFFER_HEIGHT && 0 <= c < BUFFER_WIDTH ==> #[trigger] self@.hardware.cells[r][c]
                            == if r < row - 1 || (r == row - 1 && c < col) {
                            before.hardware.cells[r + 1][c]
                        } else {
                            before.hardware.cells[r][c]
                        },
                decreases BUFFER_WIDTH - col,
            {
                let character = self.hardware.load(row, col);
                self.hardware.store(row - 1, col, character);
                col += 1;
            }
            row += 1;
        }
        self.clear_row(BUFFER_HEIGHT - 1);
        self.column_position = 0;
        let row = BUFFER_HEIGHT - 1;
        self.move_cursor((row * BUFFER_WIDTH + self.column_position) as u16);
        proof {
            let after = before.new_line();
            lemma_grid_equal(self@.hardware.cells, after.hardware.cells);
            assert(self@.hardware.trace =~= after.hardware.trace);
            lemma_new_line(before);
            lemma_new_line_on_blank(before);
        }
    }

    /// Writes one byte: `NEWLINE` breaks the line; a printable byte is put at
    /// the write position, after a line break if the bottom row is full; any
    /// other byte is put there as `PLACEHOLDER`.
    pub fn write_byte(&mut self, byte: u8)
        requires
            old(self).wf(),
        ensures
            final(self).wf(),
            final(self)@ == old(self)@.write_byte(byte),
            final(self)@.cursor_synced(),
            is_printable(byte) && old(self)@.column_position < BUFFER_WIDTH
                ==> final(self)@.hardware.cells[LAST_ROW as int][old(self)@.column_position as int]
                == old(self)@.cell(byte),
            is_printable(byte) && old(self)@.column_position < BUFFER_WIDTH
                ==> final(self)@.column_position == old(self)@.column_position + 1,
            !is_printable(byte) && byte != NEWLINE ==> final(self)@ == old(self)@.write_byte(PLACEHOLDER),
    {
        proof {
            lemma_write_byte(old(self)@, byte);
            if is_printable(byte) && old(self)@.column_position < BUFFER_WIDTH {
                lemma_write_printable(old(self)@, byte);
            }
        }
        if byte == NEWLINE {
            self.new_line();
        } else {
            let shown: u8 = if 0x20 <= byte && byte <= 0x7E {
                byte
            } else {
                PLACEHOLDER
            };
            if self.column_position >= BUFFER_WIDTH {
                self.new_line();
            }
            let row = BUFFER_HEIGHT - 1;
            let col = self.column_position;
            self.write_byte_at(shown, row, col);
            self.column_position += 1;
            self.move_cursor((row * BUFFER_WIDTH + self.column_position) as u16);
        }
    }

    /// Writes the bytes of `s`, in their order.
    pub fn write_string(&mut self, s: &str)
        requires
            old(self).wf(),
        ensures
            final(self).wf(),
            final(self)@ == old(self)@.write_bytes(s.spec_bytes()),
            s.spec_bytes().len() > 0 ==> final(self)@.cursor_synced(),
    {
        let ghost before = self@;
        proof {
            lemma_write_bytes(before, s.spec_bytes());
        }
        let bytes = s.as_bytes();
        let mut i: usize = 0;
        while i < bytes.len()
            invariant
                i <= bytes.len(),
                self.wf(),
                self@ == before.write_bytes(bytes@.take(i as int)),
            decreases bytes.len() - i,
        {
            proof {
                assert(bytes@.take(i + 1).drop_last() =~= bytes@.take(i as int));
            }
            self.write_byte(bytes[i]);
            i += 1;
        }
        proof {
            assert(bytes@.take(bytes.len() as int) =~= bytes@);
        }
    }

    /// Empties every row, from the top, resets the column and moves the
    /// cursor to the start of the bottom row.
    pub fn clear_screen(&mut self)
        requires
            old(self).wf(),
        ensures
            final(self).wf(),
            final(self)@ == old(self)@.clear_screen(),
            final(self)@.column_position == 0,
            final(self)@.cursor_position() == LAST_ROW * BUFFER_WIDTH,
            final(self)@.cursor_synced(),
    {
        let ghost before = self@;
        let ghost stores = clear_screen_accesses(before.color_code);
        let mut row: usize = 0;
        while row < BUFFER_HEIGHT
            invariant
                row <= BUFFER_HEIGHT,
                before.wf(),
                self.wf(),
                self@.column_position == before.column_position,
                self@.color_code == before.color_code,
                self@.hardware.ports == before.hardware.ports,
                stores == clear_screen_accesses(before.color_code),
                self@.hardware.trace == before.hardware.trace + stores.take(row * BUFFER_WIDTH),
                forall|r: int, c: int|
                    0 <= r < BUFFER_HEIGHT && 0 <= c < BUFFER_WIDTH ==> #[trigger] self@.hardware.cells[r][c]
                        == if r < row {
                        blank(before.color_code)
                    } else {
                        before.hardware.cells[r][c]
                    },
            decreases BUFFER_HEIGHT - row,
        {
            self.clear_row(row);
            row += 1;
        }
        self.column_position = 0;
        self.move_cursor(((BUFFER_HEIGHT - 1) * BUFFER_WIDTH) as u16);
        proof {
            let after = before.clear_screen();
            lemma_clear_screen(before);
            lemma_grid_equal(self@.hardware.cells, after.hardware.cells);
            assert(self@.hardware.trace =~= after.hardware.trace);
        }
    }
}

} // verus!
