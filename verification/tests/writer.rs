use spin::Mutex;
use vga_console::simulation::SimulatedHardware;
use vga_console::{
    Access, Color, ColorCode, Cursor, ScreenChar, Writer, BUFFER_HEIGHT, BUFFER_WIDTH,
};

const LAST: usize = BUFFER_HEIGHT - 1;

fn yellow() -> ColorCode {
    ColorCode::new(Color::Yellow, Color::Black)
}

fn cell(byte: u8) -> ScreenChar {
    ScreenChar { ascii_character: byte, color_code: yellow() }
}

type TestWriter = Writer<'static, SimulatedHardware>;

fn fresh() -> TestWriter {
    let mut hw = SimulatedHardware::new();
    let cursor: &'static Mutex<Cursor> = Box::leak(Box::new(Mutex::new(Cursor::new(&mut hw))));
    Writer::new(hw, cursor)
}

fn cleared() -> TestWriter {
    let mut writer = fresh();
    writer.clear_screen();
    writer
}

fn row_text(writer: &TestWriter, row: usize) -> Vec<u8> {
    (0..BUFFER_WIDTH).map(|col| writer.hardware().cell(row, col).ascii_character).collect()
}

fn loads(writer: &TestWriter) -> usize {
    writer.hardware().accesses().iter().filter(|a| matches!(a, Access::Load { .. })).count()
}

fn cursor_outs(pos: u16) -> Vec<Access> {
    vec![
        Access::Out8 { port: 0x3D4, value: 0x0E },
        Access::Out8 { port: 0x3D5, value: (pos >> 8) as u8 },
        Access::Out8 { port: 0x3D4, value: 0x0F },
        Access::Out8 { port: 0x3D5, value: (pos & 0xFF) as u8 },
    ]
}

#[test]
fn new_writer_is_yellow_on_black_at_column_zero() {
    let writer = fresh();
    assert_eq!(writer.column_position(), 0);
    assert_eq!(writer.color_code(), ColorCode(0x0E));
    assert_eq!(writer.cursor_position(), (LAST * BUFFER_WIDTH) as u16);
    assert_eq!(
        writer.hardware().accesses().as_slice(),
        &[
            Access::Out8 { port: 0x3D4, value: 0x0A },
            Access::In8 { port: 0x3D5, value: 0 },
            Access::Out8 { port: 0x3D5, value: 14 },
            Access::Out8 { port: 0x3D4, value: 0x0B },
            Access::In8 { port: 0x3D5, value: 0 },
            Access::Out8 { port: 0x3D5, value: 15 },
        ]
    );
}

#[test]
fn printable_byte_lands_at_the_write_position() {
    for column in 0..BUFFER_WIDTH {
        for byte in [0x20u8, b'a', b'Z', 0x7E] {
            let mut writer = cleared();
            for _ in 0..column {
                writer.write_byte(b'.');
            }
            assert_eq!(writer.column_position(), column);
            writer.write_byte(byte);
            assert_eq!(writer.hardware().cell(LAST, column), cell(byte));
            assert_eq!(writer.column_position(), column + 1);
            assert_eq!(loads(&writer), 0);
        }
    }
}

#[test]
fn write_byte_stores_the_cell_then_moves_the_cursor() {
    let mut writer = cleared();
    let before = writer.hardware().accesses().len();
    writer.write_byte(b'Q');
    let log = writer.hardware().accesses();
    assert_eq!(log.len(), before + 5);
    assert_eq!(log[before], Access::Store { row: LAST, col: 0, cell: cell(b'Q') });
    assert_eq!(&log[before + 1..], cursor_outs((LAST * BUFFER_WIDTH + 1) as u16).as_slice());
    assert_eq!(writer.hardware().cursor_position(), (LAST * BUFFER_WIDTH + 1) as u16);
}

#[test]
fn full_row_wraps_on_the_next_byte_only() {
    let mut writer = cleared();
    let text: Vec<u8> = (0..BUFFER_WIDTH).map(|i| b'a' + (i % 26) as u8).collect();
    for &byte in &text {
        writer.write_byte(byte);
    }
    assert_eq!(writer.column_position(), BUFFER_WIDTH);
    assert_eq!(writer.cursor_position(), 2000);
    assert_eq!(writer.hardware().cursor_position(), 2000);
    assert_eq!(loads(&writer), 0);
    assert_eq!(row_text(&writer, LAST), text);

    writer.write_byte(b'!');
    assert_eq!(loads(&writer), (BUFFER_HEIGHT - 1) * BUFFER_WIDTH);
    assert_eq!(writer.column_position(), 1);
    assert_eq!(writer.hardware().cell(LAST, 0), cell(b'!'));
    for col in 1..BUFFER_WIDTH {
        assert_eq!(writer.hardware().cell(LAST, col), cell(b' '));
    }
    assert_eq!(row_text(&writer, LAST - 1), text);
    for col in 0..BUFFER_WIDTH {
        assert_eq!(writer.hardware().cell(LAST - 1, col), cell(text[col]));
    }
}

#[test]
fn new_line_on_blank_buffer_changes_nothing() {
    let mut writer = cleared();
    writer.write_byte(b'x');
    writer.clear_screen();
    let before = writer.hardware().cells;
    writer.new_line();
    assert_eq!(writer.hardware().cells, before);
    assert_eq!(writer.column_position(), 0);
    for row in 0..BUFFER_HEIGHT {
        for col in 0..BUFFER_WIDTH {
            assert_eq!(writer.hardware().cell(row, col), cell(b' '));
        }
    }
}

#[test]
fn new_line_moves_every_row_up() {
    let mut writer = cleared();
    for row in 0..BUFFER_HEIGHT {
        for col in 0..BUFFER_WIDTH {
            writer.write_byte_at(b'A' + row as u8, row, col);
        }
    }
    writer.write_byte(b'z');
    writer.write_byte(b'z');
    writer.new_line();
    for row in 0..LAST {
        let expected = if row + 1 == LAST { b'z' } else { b'A' + row as u8 + 1 };
        assert_eq!(writer.hardware().cell(row, 0).ascii_character, expected);
        assert_eq!(writer.hardware().cell(row, 79).ascii_character, b'A' + row as u8 + 1);
    }
    assert_eq!(row_text(&writer, LAST), vec![b' '; BUFFER_WIDTH]);
    assert_eq!(writer.column_position(), 0);
    assert_eq!(writer.hardware().cursor_position(), (LAST * BUFFER_WIDTH) as u16);
}

#[test]
fn new_line_reads_then_writes_each_cell_in_order() {
    let mut writer = cleared();
    writer.write_string("ab");
    let before = writer.hardware().accesses().len();
    let grid = writer.hardware().cells;
    writer.new_line();
    let log = &writer.hardware().accesses()[before..];
    let copies = 2 * (BUFFER_HEIGHT - 1) * BUFFER_WIDTH;
    assert_eq!(log.len(), copies + BUFFER_WIDTH + 4);
    let mut at = 0;
    for row in 1..BUFFER_HEIGHT {
        for col in 0..BUFFER_WIDTH {
            assert_eq!(log[at], Access::Load { row, col, cell: grid[row][col] });
            assert_eq!(log[at + 1], Access::Store { row: row - 1, col, cell: grid[row][col] });
            at += 2;
        }
    }
    for col in 0..BUFFER_WIDTH {
        assert_eq!(log[copies + col], Access::Store { row: LAST, col, cell: cell(b' ') });
    }
    assert_eq!(&log[copies + BUFFER_WIDTH..], cursor_outs(1920).as_slice());
}

#[test]
fn clear_screen_resets_column_and_cursor() {
    let mut writer = fresh();
    writer.write_string("some text\nmore");
    assert_eq!(writer.column_position(), 4);
    writer.clear_screen();
    assert_eq!(writer.column_position(), 0);
    assert_eq!(writer.cursor_position(), ((BUFFER_HEIGHT - 1) * BUFFER_WIDTH) as u16);
    assert_eq!(writer.cursor_position(), 1920);
    assert_eq!(writer.hardware().cursor_position(), 1920);
    for row in 0..BUFFER_HEIGHT {
        assert_eq!(row_text(&writer, row), vec![b' '; BUFFER_WIDTH]);
        for col in 0..BUFFER_WIDTH {
            assert_eq!(writer.hardware().cell(row, col).color_code, ColorCode(0x0E));
        }
    }
}

#[test]
fn clear_screen_writes_rows_from_the_top() {
    let mut writer = fresh();
    let before = writer.hardware().accesses().len();
    writer.clear_screen();
    let log = &writer.hardware().accesses()[before..];
    assert_eq!(log.len(), BUFFER_HEIGHT * BUFFER_WIDTH + 4);
    for i in 0..BUFFER_HEIGHT * BUFFER_WIDTH {
        let expected = Access::Store { row: i / BUFFER_WIDTH, col: i % BUFFER_WIDTH, cell: cell(b' ') };
        assert_eq!(log[i], expected);
    }
    assert_eq!(&log[BUFFER_HEIGHT * BUFFER_WIDTH..], cursor_outs(1920).as_slice());
}

#[test]
fn clear_row_empties_one_row() {
    let mut writer = cleared();
    for row in 0..BUFFER_HEIGHT {
        for col in 0..BUFFER_WIDTH {
            writer.write_byte_at(b'#', row, col);
        }
    }
    writer.write_string("ab");
    writer.clear_row(7);
    for row in 0..BUFFER_HEIGHT {
        let expected = if row == 7 { b' ' } else if row == LAST { b'a' } else { b'#' };
        assert_eq!(writer.hardware().cell(row, 0).ascii_character, expected);
    }
    assert_eq!(row_text(&writer, 7), vec![b' '; BUFFER_WIDTH]);
    assert_eq!(writer.column_position(), 2);
}

#[test]
fn write_byte_at_writes_one_cell() {
    let mut writer = cleared();
    let before = writer.hardware().accesses().len();
    writer.write_byte_at(b'k', 3, 5);
    assert_eq!(writer.hardware().cell(3, 5), cell(b'k'));
    assert_eq!(writer.hardware().cell(3, 4), cell(b' '));
    assert_eq!(writer.hardware().cell(5, 3), cell(b' '));
    assert_eq!(writer.column_position(), 0);
    let log = &writer.hardware().accesses()[before..];
    assert_eq!(log, &[Access::Store { row: 3, col: 5, cell: cell(b'k') }]);
}

#[test]
fn unprintable_bytes_show_as_placeholder() {
    for byte in [0x00u8, 0x01, 0x09, 0x0D, 0x1F, 0x7F, 0x80, 0xC3, 0xFF] {
        let mut writer = cleared();
        writer.write_string("ab");
        let mut reference = cleared();
        reference.write_string("ab");
        writer.write_byte(byte);
        reference.write_byte(b'*');
        assert_eq!(writer.hardware().cell(LAST, 2), cell(b'*'));
        assert_eq!(writer.column_position(), 3);
        assert_eq!(writer.hardware().cells, reference.hardware().cells);
        assert_eq!(writer.hardware().accesses(), reference.hardware().accesses());
        assert_eq!(writer.column_position(), reference.column_position());
    }
}

#[test]
fn unprintable_byte_wraps_like_a_printable_one() {
    let mut writer = cleared();
    for _ in 0..BUFFER_WIDTH {
        writer.write_byte(b'-');
    }
    writer.write_byte(0x7F);
    assert_eq!(writer.column_position(), 1);
    assert_eq!(writer.hardware().cell(LAST, 0), cell(b'*'));
    assert_eq!(row_text(&writer, LAST - 1), vec![b'-'; BUFFER_WIDTH]);
}

#[test]
fn newline_byte_breaks_the_line() {
    let mut writer = cleared();
    writer.write_string("abc");
    writer.write_byte(b'\n');
    assert_eq!(writer.column_position(), 0);
    assert_eq!(&row_text(&writer, LAST - 1)[..4], b"abc ");
    assert_eq!(row_text(&writer, LAST), vec![b' '; BUFFER_WIDTH]);
    assert_eq!(loads(&writer), (BUFFER_HEIGHT - 1) * BUFFER_WIDTH);
}

#[test]
fn write_string_writes_each_utf8_byte() {
    let mut writer = cleared();
    writer.write_string("a\u{e9}b");
    assert_eq!(&row_text(&writer, LAST)[..5], b"a**b ");
    assert_eq!(writer.column_position(), 4);
    writer.write_string("");
    assert_eq!(writer.column_position(), 4);
}

#[test]
fn scenario_hi_then_bye() {
    let mut writer = cleared();
    writer.write_string("HI\n");
    writer.write_string("BYE");
    assert_eq!(&row_text(&writer, BUFFER_HEIGHT - 1)[..3], b"BYE");
    assert_eq!(&row_text(&writer, BUFFER_HEIGHT - 2)[..2], b"HI");
    assert_eq!(writer.hardware().cell(BUFFER_HEIGHT - 1, 0), cell(b'B'));
    assert_eq!(writer.hardware().cell(BUFFER_HEIGHT - 2, 1), cell(b'I'));
    assert_eq!(writer.column_position(), 3);
    assert_eq!(writer.cursor_position(), ((BUFFER_HEIGHT - 1) * 80 + 3) as u16);
    assert_eq!(writer.hardware().cursor_position(), ((BUFFER_HEIGHT - 1) * 80 + 3) as u16);
    assert_eq!(writer.hardware().cursor_position(), 1923);
}

#[test]
fn scenario_eighty_one_letters() {
    let mut writer = cleared();
    let text = "A".repeat(81);
    writer.write_string(&text);
    assert_eq!(loads(&writer), (BUFFER_HEIGHT - 1) * BUFFER_WIDTH);
    for col in 0..BUFFER_WIDTH {
        assert_eq!(writer.hardware().cell(BUFFER_HEIGHT - 2, col), cell(b'A'));
    }
    assert_eq!(writer.hardware().cell(BUFFER_HEIGHT - 1, 0), cell(b'A'));
    for col in 1..BUFFER_WIDTH {
        assert_eq!(writer.hardware().cell(BUFFER_HEIGHT - 1, col), cell(b' '));
    }
    for row in 0..BUFFER_HEIGHT - 2 {
        assert_eq!(row_text(&writer, row), vec![b' '; BUFFER_WIDTH]);
    }
    assert_eq!(writer.column_position(), 1);
    assert_eq!(writer.hardware().cursor_position(), 1921);
}

#[test]
fn cursor_lock_is_taken_for_each_move_and_given_back() {
    let mut hw = SimulatedHardware::new();
    let cursor = Mutex::new(Cursor::new(&mut hw));
    let mut writer = Writer::new(hw, &cursor);
    assert!(!cursor.is_locked());
    writer.clear_screen();
    assert!(!cursor.is_locked());
    writer.write_string("line one\nline two");
    assert!(!cursor.is_locked());
    writer.new_line();
    assert!(cursor.try_lock().is_some());
    assert_eq!(writer.hardware().cursor_position(), 1920);
}

#[test]
fn two_writers_share_one_cursor_controller() {
    let mut first_hw = SimulatedHardware::new();
    let cursor = Mutex::new(Cursor::new(&mut first_hw));
    let mut first = Writer::new(first_hw, &cursor);
    let mut second = Writer::new(SimulatedHardware::new(), &cursor);
    first.write_string("abc");
    second.write_string("x");
    first.write_byte(b'd');
    assert_eq!(first.hardware().cursor_position(), 1924);
    assert_eq!(second.hardware().cursor_position(), 1921);
    assert_eq!(second.hardware().accesses().len(), 5);
    assert!(!cursor.is_locked());
}
