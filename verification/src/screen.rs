//! What the writer does to the machine, as mathematics: the grids it
//! produces, the accesses it makes, and the state it moves through.

use vstd::prelude::*;
use crate::hardware::{Access, HardwareState};
use crate::vga_buffer::{
    crtc_accessible, move_cursor_accesses, ColorCode, ScreenChar, BUFFER_HEIGHT, BUFFER_WIDTH,
};

verus! {

/// The row that the writer writes to: the bottom one.
pub const LAST_ROW: usize = BUFFER_HEIGHT - 1;

/// The byte that ends a line.
pub const NEWLINE: u8 = 0x0A;

/// The glyph of an empty cell.
pub const SPACE: u8 = 0x20;

/// The glyph shown in place of a byte that has none.
pub const PLACEHOLDER: u8 = 0x2A;

/// The bytes that are shown as they are: `0x20` to `0x7E`.
pub open spec fn is_printable(byte: u8) -> bool {
    0x20 <= byte <= 0x7E
}

/// The glyph that `byte` is shown as.
pub open spec fn glyph(byte: u8) -> u8 {
    if is_printable(byte) {
        byte
    } else {
        PLACEHOLDER
    }
}

/// An empty cell in the attribute `color`.
pub open spec fn blank(color: ColorCode) -> ScreenChar {
    ScreenChar { ascii_character: SPACE, color_code: color }
}

/// A row of empty cells.
pub open spec fn blank_row(color: ColorCode) -> Seq<ScreenChar> {
    Seq::new(BUFFER_WIDTH as nat, |col: int| blank(color))
}

/// A grid of empty cells.
pub open spec fn blank_grid(color: ColorCode) -> Seq<Seq<ScreenChar>> {
    Seq::new(BUFFER_HEIGHT as nat, |row: int| blank_row(color))
}

/// Every cell of the grid shows a space, in whatever attribute.
pub open spec fn all_spaces(cells: Seq<Seq<ScreenChar>>) -> bool {
    forall|row: int, col: int|
        0 <= row < BUFFER_HEIGHT && 0 <= col < BUFFER_WIDTH ==> (#[trigger] cells[row][col]).ascii_character
            == SPACE
}

/// The grid moved up by one row: the top row is gone and the bottom row is
/// empty.
pub open spec fn scrolled(cells: Seq<Seq<ScreenChar>>, color: ColorCode) -> Seq<Seq<ScreenChar>> {
    cells.subrange(1, BUFFER_HEIGHT as int).push(blank_row(color))
}

/// The accesses that move the grid up by one row: for each row from the
/// second to the last, and in it for each column from the left, a read of the
/// cell and then a write of what was read to the cell above it.
pub open spec fn scroll_accesses(cells: Seq<Seq<ScreenChar>>) -> Seq<Access> {
    Seq::new(
        (2 * (BUFFER_HEIGHT - 1) * BUFFER_WIDTH) as nat,
        |i: int|
            {
                let row = (i / 2) / (BUFFER_WIDTH as int) + 1;
                let col = (i / 2) % (BUFFER_WIDTH as int);
                if i % 2 == 0 {
                    Access::Load { row: row as usize, col: col as usize, cell: cells[row][col] }
                } else {
                    Access::Store {
                        row: (row - 1) as usize,
                        col: col as usize,
                        cell: cells[row][col],
                    }
                }
            },
    )
}

/// The accesses that empty `row`: a write of an empty cell to each column,
/// from the left.
pub open spec fn clear_row_accesses(row: int, color: ColorCode) -> Seq<Access> {
    Seq::new(
        BUFFER_WIDTH as nat,
        |col: int| Access::Store { row: row as usize, col: col as usize, cell: blank(color) },
    )
}

/// The accesses that empty the grid: those that empty each row, from the
/// top.
pub open spec fn clear_screen_accesses(color: ColorCode) -> Seq<Access> {
    Seq::new(
        (BUFFER_HEIGHT * BUFFER_WIDTH) as nat,
        |i: int|
            Access::Store {
                row: (i / (BUFFER_WIDTH as int)) as usize,
                col: (i % (BUFFER_WIDTH as int)) as usize,
                cell: blank(color),
            },
    )
}

/// The state of a writer: the column that the next glyph goes to, the
/// attribute that it is written with, and the machine that it writes to.
pub struct WriterView {
    pub column_position: nat,
    pub color_code: ColorCode,
    pub hardware: HardwareState,
}

impl WriterView {
    /// The column is at most `BUFFER_WIDTH` (which it is when the bottom row
    /// is full), the grid has its dimensions, and the ports of the display
    /// controller may be accessed.
    pub open spec fn wf(self) -> bool {
        &&& self.column_position <= BUFFER_WIDTH
        &&& self.hardware.wf()
        &&& crtc_accessible(self.hardware)
    }

    /// The linear position of the cursor that belongs to this state: the
    /// write position in the bottom row.
    pub open spec fn cursor_position(self) -> u16 {
        (LAST_ROW * BUFFER_WIDTH + self.column_position) as u16
    }

    /// The state after `byte` is written to (`row`, `col`) in the current
    /// attribute.
    pub open spec fn write_byte_at(self, byte: u8, row: int, col: int) -> WriterView {
        let cell = ScreenChar { ascii_character: byte, color_code: self.color_code };
        WriterView {
            hardware: self.hardware.with_cell(row, col, cell).record(
                Access::Store { row: row as usize, col: col as usize, cell },
            ),
            ..self
        }
    }

    /// The state after `row` is emptied.
    pub open spec fn clear_row(self, row: int) -> WriterView {
        WriterView {
            hardware: HardwareState {
                cells: self.hardware.cells.update(row, blank_row(self.color_code)),
                trace: self.hardware.trace + clear_row_accesses(row, self.color_code),
                ..self.hardware
            },
            ..self
        }
    }

    /// The state after the cursor is moved to where this state puts it.
    pub open spec fn sync_cursor(self) -> WriterView {
        WriterView {
            hardware: self.hardware.extend(move_cursor_accesses(self.cursor_position())),
            ..self
        }
    }

    /// The state after a line break: the grid is moved up by one row, the
    /// bottom row is emptied, the column is 0 and the cursor is moved there.
    pub open spec fn new_line(self) -> WriterView {
        WriterView {
            column_position: 0,
            color_code: self.color_code,
            hardware: HardwareState {
                cells: scrolled(self.hardware.cells, self.color_code),
                trace: self.hardware.trace + scroll_accesses(self.hardware.cells)
                    + clear_row_accesses(LAST_ROW as int, self.color_code),
                ..self.hardware
            },
        }.sync_cursor()
    }

    /// The state after the glyph `shown` is put at the write position: the
    /// cell is written, the column advances by one and the cursor follows.
    pub open spec fn put(self, shown: u8) -> WriterView {
        WriterView {
            column_position: self.column_position + 1,
            ..self.write_byte_at(shown, LAST_ROW as int, self.column_position as int)
        }.sync_cursor()
    }

    /// The state after `byte` is written: a line break for `NEWLINE`; for any
    /// other byte its glyph at the write position, after a line break if the
    /// bottom row is full.
    pub open spec fn write_byte(self, byte: u8) -> WriterView {
        if byte == NEWLINE {
            self.new_line()
        } else if self.column_position >= BUFFER_WIDTH {
            self.new_line().put(glyph(byte))
        } else {
            self.put(glyph(byte))
        }
    }

    /// The state after each of `bytes` is written, in their order.
    pub open spec fn write_bytes(self, bytes: Seq<u8>) -> WriterView
        decreases bytes.len(),
    {
        if bytes.len() == 0 {
            self
        } else {
            self.write_bytes(bytes.drop_last()).write_byte(bytes.last())
        }
    }

    /// The state after the grid is emptied: every cell is empty, the column
    /// is 0 and the cursor is moved to the start of the bottom row.
    pub open spec fn clear_screen(self) -> WriterView {
        WriterView {
            column_position: 0,
            color_code: self.color_code,
            hardware: HardwareState {
                cells: blank_grid(self.color_code),
                trace: self.hardware.trace + clear_screen_accesses(self.color_code),
                ..self.hardware
            },
        }.sync_cursor()
    }

    /// The state after each of `glyphs` is put at the write position, in
    /// their order, with no line break.
    pub open spec fn put_all(self, glyphs: Seq<u8>) -> WriterView
        decreases glyphs.len(),
    {
        if glyphs.len() == 0 {
            self
        } else {
            self.put_all(glyphs.drop_last()).put(glyphs.last())
        }
    }

    /// The cell that shows `byte` in the current attribute.
    pub open spec fn cell(self, byte: u8) -> ScreenChar {
        ScreenChar { ascii_character: byte, color_code: self.color_code }
    }

    /// The last thing done to the machine was to move the cursor to where
    /// this state puts it.
    pub open spec fn cursor_synced(self) -> bool {
        let trace = self.hardware.trace;
        &&& trace.len() >= 4
        &&& trace.subrange(trace.len() - 4, trace.len() as int) == move_cursor_accesses(
            self.cursor_position(),
        )
    }
}

/// Moving the cursor leaves it where the state puts it, and changes nothing
/// else.
pub proof fn lemma_sync_cursor(state: WriterView)
    ensures
        state.sync_cursor().cursor_synced(),
        state.sync_cursor().column_position == state.column_position,
        state.sync_cursor().color_code == state.color_code,
        state.sync_cursor().hardware.cells == state.hardware.cells,
{
    let trace = state.sync_cursor().hardware.trace;
    assert(trace.subrange(trace.len() - 4, trace.len() as int) =~= move_cursor_accesses(
        state.cursor_position(),
    ));
}

/// Putting a glyph where the bottom row has room writes it, in the current
/// attribute, to the write position and to no other cell, advances the column
/// by one and leaves the cursor at the new write position.
pub proof fn lemma_put(state: WriterView, shown: u8)
    requires
        state.wf(),
        state.column_position < BUFFER_WIDTH,
    ensures
        state.put(shown).wf(),
        state.put(shown).color_code == state.color_code,
        state.put(shown).column_position == state.column_position + 1,
        state.put(shown).hardware.cells == state.hardware.cells.update(
            LAST_ROW as int,
            state.hardware.cells[LAST_ROW as int].update(state.column_position as int, state.cell(shown)),
        ),
        state.put(shown).hardware.cells[LAST_ROW as int][state.column_position as int] == state.cell(
            shown,
        ),
        state.put(shown).cursor_synced(),
{
    let placed = WriterView {
        column_position: state.column_position + 1,
        ..state.write_byte_at(shown, LAST_ROW as int, state.column_position as int)
    };
    lemma_sync_cursor(placed);
}

/// A line break moves every row up by one, empties the bottom row, resets the
/// column and leaves the cursor at the start of the bottom row.
pub proof fn lemma_new_line(state: WriterView)
    requires
        state.wf(),
    ensures
        state.new_line().wf(),
        state.new_line().color_code == state.color_code,
        state.new_line().column_position == 0,
        state.new_line().cursor_position() == LAST_ROW * BUFFER_WIDTH,
        state.new_line().cursor_synced(),
        forall|row: int|
            0 <= row < LAST_ROW ==> #[trigger] state.new_line().hardware.cells[row]
                == state.hardware.cells[row + 1],
        state.new_line().hardware.cells[LAST_ROW as int] == blank_row(state.color_code),
{
    let broken = WriterView {
        column_position: 0,
        color_code: state.color_code,
        hardware: HardwareState {
            cells: scrolled(state.hardware.cells, state.color_code),
            trace: state.hardware.trace + scroll_accesses(state.hardware.cells) + clear_row_accesses(
                LAST_ROW as int,
                state.color_code,
            ),
            ..state.hardware
        },
    };
    lemma_sync_cursor(broken);
}

/// A line break on a grid that shows nothing but spaces leaves it so and
/// resets the column; where the spaces are in the current attribute, the grid
/// stays as it is.
pub proof fn lemma_new_line_on_blank(state: WriterView)
    requires
        state.wf(),
    ensures
        state.new_line().column_position == 0,
        all_spaces(state.hardware.cells) ==> all_spaces(state.new_line().hardware.cells),
        state.hardware.cells == blank_grid(state.color_code) ==> state.new_line().hardware.cells
            == state.hardware.cells,
{
    lemma_new_line(state);
}

/// Emptying the grid leaves every cell empty in the current attribute, the
/// column at 0 and the cursor at the start of the bottom row, whatever the
/// state was.
pub proof fn lemma_clear_screen(state: WriterView)
    requires
        crtc_accessible(state.hardware),
    ensures
        state.clear_screen().wf(),
        state.clear_screen().color_code == state.color_code,
        state.clear_screen().column_position == 0,
        state.clear_screen().cursor_position() == LAST_ROW * BUFFER_WIDTH,
        state.clear_screen().cursor_synced(),
        state.clear_screen().hardware.cells == blank_grid(state.color_code),
{
    let cleared = WriterView {
        column_position: 0,
        color_code: state.color_code,
        hardware: HardwareState {
            cells: blank_grid(state.color_code),
            trace: state.hardware.trace + clear_screen_accesses(state.color_code),
            ..state.hardware
        },
    };
    lemma_sync_cursor(cleared);
}

/// Writing a byte keeps the state well-formed and the attribute as it is,
/// only adds to the accesses made, and leaves the cursor at the write
/// position.
pub proof fn lemma_write_byte(state: WriterView, byte: u8)
    requires
        state.wf(),
    ensures
        state.write_byte(byte).wf(),
        state.write_byte(byte).color_code == state.color_code,
        state.hardware.trace.is_prefix_of(state.write_byte(byte).hardware.trace),
        state.write_byte(byte).cursor_synced(),
{
    lemma_new_line(state);
    if byte != NEWLINE {
        if state.column_position >= BUFFER_WIDTH {
            lemma_put(state.new_line(), glyph(byte));
        } else {
            lemma_put(state, glyph(byte));
        }
    }
}

/// A printable byte written where the bottom row has room lands, in the
/// current attribute, at the write position, and the column advances by one.
pub proof fn lemma_write_printable(state: WriterView, byte: u8)
    requires
        state.wf(),
        is_printable(byte),
        state.column_position < BUFFER_WIDTH,
    ensures
        state.write_byte(byte) == state.put(byte),
        state.write_byte(byte).hardware.cells[LAST_ROW as int][state.column_position as int]
            == state.cell(byte),
        state.write_byte(byte).column_position == state.column_position + 1,
{
    lemma_put(state, byte);
}

/// A byte that is neither printable nor `NEWLINE` is written as
/// `PLACEHOLDER` is.
pub proof fn lemma_write_unprintable(state: WriterView, byte: u8)
    requires
        !is_printable(byte),
        byte != NEWLINE,
    ensures
        state.write_byte(byte) == state.write_byte(PLACEHOLDER),
{
}

/// Printable bytes that fit in what is left of the bottom row are put there
/// one after the other, with no line break: the other rows stay as they are.
pub proof fn lemma_write_fitting(state: WriterView, bytes: Seq<u8>)
    requires
        state.wf(),
        state.column_position + bytes.len() <= BUFFER_WIDTH,
        forall|i: int| 0 <= i < bytes.len() ==> is_printable(#[trigger] bytes[i]),
    ensures
        state.write_bytes(bytes) == state.put_all(bytes),
        state.write_bytes(bytes).wf(),
        state.write_bytes(bytes).color_code == state.color_code,
        state.write_bytes(bytes).column_position == state.column_position + bytes.len(),
        forall|row: int|
            0 <= row < LAST_ROW ==> #[trigger] state.write_bytes(bytes).hardware.cells[row]
                == state.hardware.cells[row],
        forall|col: int|
            0 <= col < BUFFER_WIDTH ==> #[trigger] state.write_bytes(bytes).hardware.cells[LAST_ROW as int][col]
                == (if state.column_position <= col < state.column_position + bytes.len() {
                state.cell(bytes[col - state.column_position])
            } else {
                state.hardware.cells[LAST_ROW as int][col]
            }),
    decreases bytes.len(),
{
    if bytes.len() > 0 {
        let front = bytes.drop_last();
        lemma_write_fitting(state, front);
        let mid = state.write_bytes(front);
        lemma_write_printable(mid, bytes.last());
        lemma_put(mid, bytes.last());
    }
}

/// `BUFFER_WIDTH` printable bytes written from the start of a line fill the
/// bottom row with no line break. One more printable byte breaks the line
/// exactly once and lands at column 0 of the bottom row: the row that was
/// filled is then the row above it, unchanged, and every row above has moved
/// up by one.
pub proof fn lemma_line_wrap(state: WriterView, bytes: Seq<u8>)
    requires
        state.wf(),
        state.column_position == 0,
        bytes.len() == BUFFER_WIDTH + 1,
        forall|i: int| 0 <= i < bytes.len() ==> is_printable(#[trigger] bytes[i]),
    ensures
        ({
            let filled = state.write_bytes(bytes.take(BUFFER_WIDTH as int));
            let wrapped = state.write_bytes(bytes);
            &&& filled == state.put_all(bytes.take(BUFFER_WIDTH as int))
            &&& filled.column_position == BUFFER_WIDTH
            &&& wrapped == filled.new_line().put(bytes[BUFFER_WIDTH as int])
            &&& wrapped.column_position == 1
            &&& wrapped.hardware.cells[LAST_ROW as int][0] == state.cell(bytes[BUFFER_WIDTH as int])
            &&& forall|col: int|
                1 <= col < BUFFER_WIDTH ==> #[trigger] wrapped.hardware.cells[LAST_ROW as int][col]
                    == blank(state.color_code)
            &&& wrapped.hardware.cells[LAST_ROW - 1] == filled.hardware.cells[LAST_ROW as int]
            &&& forall|col: int|
                0 <= col < BUFFER_WIDTH ==> #[trigger] wrapped.hardware.cells[LAST_ROW - 1][col]
                    == state.cell(bytes[col])
            &&& forall|row: int|
                0 <= row < LAST_ROW - 1 ==> #[trigger] wrapped.hardware.cells[row]
                    == state.hardware.cells[row + 1]
        }),
{
    let front = bytes.take(BUFFER_WIDTH as int);
    let last = bytes[BUFFER_WIDTH as int];
    lemma_write_fitting(state, front);
    let filled = state.write_bytes(front);
    lemma_new_line(filled);
    lemma_put(filled.new_line(), last);
}

/// Writing any bytes keeps the state well-formed and the attribute as it is,
/// and only adds to the accesses made; after at least one byte the cursor is
/// at the write position.
pub proof fn lemma_write_bytes(state: WriterView, bytes: Seq<u8>)
    requires
        state.wf(),
    ensures
        state.write_bytes(bytes).wf(),
        state.write_bytes(bytes).color_code == state.color_code,
        state.hardware.trace.is_prefix_of(state.write_bytes(bytes).hardware.trace),
        bytes.len() > 0 ==> state.write_bytes(bytes).cursor_synced(),
    decreases bytes.len(),
{
    if bytes.len() > 0 {
        lemma_write_bytes(state, bytes.drop_last());
        lemma_write_byte(state.write_bytes(bytes.drop_last()), bytes.last());
    }
}

/// Bytes written in two pieces, one after the other, leave what they leave
/// when written in one piece.
pub proof fn lemma_write_bytes_concat(state: WriterView, first: Seq<u8>, second: Seq<u8>)
    ensures
        state.write_bytes(first + second) == state.write_bytes(first).write_bytes(second),
    decreases second.len(),
{
    if second.len() > 0 {
        lemma_write_bytes_concat(state, first, second.drop_last());
        assert((first + second).drop_last() =~= first + second.drop_last());
    }
}

} // verus!
