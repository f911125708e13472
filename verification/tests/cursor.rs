use vga_console::simulation::SimulatedHardware;
use vga_console::{Access, Cursor, Hardware};

#[test]
fn move_cursor_selects_high_then_low() {
    for pos in [0u16, 1, 0x00FF, 0x0100, 0x1234, 1920, 2000, 0xFFFF] {
        let mut hw = SimulatedHardware::new();
        let mut cursor = Cursor::new(&mut hw);
        let before = hw.accesses().len();
        cursor.move_cursor(&mut hw, pos);
        assert_eq!(
            &hw.accesses()[before..],
            &[
                Access::Out8 { port: 0x3D4, value: 0x0E },
                Access::Out8 { port: 0x3D5, value: (pos >> 8) as u8 },
                Access::Out8 { port: 0x3D4, value: 0x0F },
                Access::Out8 { port: 0x3D5, value: (pos & 0xFF) as u8 },
            ]
        );
        assert_eq!(hw.register(0x0E), (pos / 256) as u8);
        assert_eq!(hw.register(0x0F), (pos % 256) as u8);
        assert_eq!(hw.cursor_position(), pos);
    }
}

#[test]
fn move_cursor_bytes_of_0x1234() {
    let mut hw = SimulatedHardware::new();
    let mut cursor = Cursor::new(&mut hw);
    cursor.move_cursor(&mut hw, 0x1234);
    let log = hw.accesses();
    assert_eq!(log[log.len() - 3], Access::Out8 { port: 0x3D5, value: 0x12 });
    assert_eq!(log[log.len() - 1], Access::Out8 { port: 0x3D5, value: 0x34 });
}

#[test]
fn new_cursor_is_enabled_with_scan_lines_14_to_15() {
    let mut hw = SimulatedHardware::new();
    let _cursor = Cursor::new(&mut hw);
    assert_eq!(hw.register(0x0A), 14);
    assert_eq!(hw.register(0x0B), 15);
    assert_eq!(hw.accesses().len(), 6);
}

#[test]
fn enable_cursor_keeps_the_high_bits() {
    let mut hw = SimulatedHardware::new();
    hw.registers[0x0A] = 0xFF;
    hw.registers[0x0B] = 0xFF;
    hw.registers[0x0C] = 0x5A;
    let mut cursor = Cursor::new(&mut hw);
    assert_eq!(hw.register(0x0C), 0x5A);
    assert_eq!(hw.register(0x0A), 0xCE);
    assert_eq!(hw.register(0x0B), 0xEF);
    assert_eq!(
        hw.accesses().as_slice(),
        &[
            Access::Out8 { port: 0x3D4, value: 0x0A },
            Access::In8 { port: 0x3D5, value: 0xFF },
            Access::Out8 { port: 0x3D5, value: 0xCE },
            Access::Out8 { port: 0x3D4, value: 0x0B },
            Access::In8 { port: 0x3D5, value: 0xFF },
            Access::Out8 { port: 0x3D5, value: 0xEF },
        ]
    );

    hw.registers[0x0A] = 0x65;
    hw.registers[0x0B] = 0x5A;
    cursor.enable_cursor(&mut hw, 0xE3, 0xFF);
    assert_eq!(hw.register(0x0A), 0x43);
    assert_eq!(hw.register(0x0B), 0x5F);
    assert_eq!(hw.accesses().len(), 12);
}

#[test]
fn simulated_ports_outside_the_controller_read_zero() {
    let mut hw = SimulatedHardware::new();
    hw.out8(0x80, 0x55);
    assert_eq!(hw.in8(0x80), 0);
    hw.out8(0x3D4, 0x33);
    assert_eq!(hw.in8(0x3D4), 0x33);
    hw.out8(0x3D5, 0x77);
    assert_eq!(hw.in8(0x3D5), 0x77);
    assert_eq!(hw.register(0x33), 0x77);
    hw.out16(0x3D4, 0xABCD);
    assert_eq!(hw.in16(0x3D4), 0);
    hw.out32(0x3D5, 0xDEADBEEF);
    assert_eq!(hw.in32(0x3D5), 0);
    assert_eq!(hw.register(0x33), 0x77);
    assert_eq!(hw.accesses().len(), 10);
}
