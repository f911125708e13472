use vga_console::simulation::SimulatedHardware;
use vga_console::{
    cell_offset, Access, Color, ColorCode, Port, PortRead, PortWrite, ScreenChar, BUFFER_ADDRESS,
    BUFFER_HEIGHT, BUFFER_SIZE, BUFFER_WIDTH, CELL_SIZE,
};

#[test]
fn port_equality_is_address_equality() {
    let a: Port<u8> = Port::new(0x3D4);
    let b: Port<u8> = Port::new(0x3D4);
    let c: Port<u8> = Port::new(0x3D5);
    assert!(a == b);
    assert!(a != c);
    assert!(a.clone() == a);
    assert!(c.clone() != a);
    assert_eq!(a.address(), 0x3D4);
    assert_eq!(c.clone().address(), 0x3D5);
    assert_eq!(Port::<u32>::new(0xFFFF).address(), 0xFFFF);
}

#[test]
fn port_access_is_one_transaction_of_its_width() {
    let mut hw = SimulatedHardware::new();
    let mut byte: Port<u8> = Port::new(0x3D4);
    let mut word: Port<u16> = Port::new(0x1F0);
    let mut long: Port<u32> = Port::new(0xCF8);
    byte.write(&mut hw, 0x0A);
    assert_eq!(byte.read(&mut hw), 0x0A);
    word.write(&mut hw, 0xBEEF);
    assert_eq!(word.read(&mut hw), 0);
    long.write(&mut hw, 0x8000_0000);
    assert_eq!(long.read(&mut hw), 0);
    assert_eq!(
        hw.accesses().as_slice(),
        &[
            Access::Out8 { port: 0x3D4, value: 0x0A },
            Access::In8 { port: 0x3D4, value: 0x0A },
            Access::Out16 { port: 0x1F0, value: 0xBEEF },
            Access::In16 { port: 0x1F0, value: 0 },
            Access::Out32 { port: 0xCF8, value: 0x8000_0000 },
            Access::In32 { port: 0xCF8, value: 0 },
        ]
    );
}

#[test]
fn typed_port_primitives_use_the_given_port() {
    let mut hw = SimulatedHardware::new();
    u8::write_to_port(&mut hw, 0x3D4, 0x0F);
    u8::write_to_port(&mut hw, 0x3D5, 0x21);
    assert_eq!(u8::read_from_port(&mut hw, 0x3D5), 0x21);
    u16::write_to_port(&mut hw, 7, 9);
    assert_eq!(u16::read_from_port(&mut hw, 7), 0);
    u32::write_to_port(&mut hw, 8, 10);
    assert_eq!(u32::read_from_port(&mut hw, 8), 0);
    assert_eq!(hw.accesses().len(), 7);
    assert_eq!(hw.accesses()[2], Access::In8 { port: 0x3D5, value: 0x21 });
    assert_eq!(hw.accesses()[3], Access::Out16 { port: 7, value: 9 });
    assert_eq!(hw.accesses()[6], Access::In32 { port: 8, value: 0 });
}

#[test]
fn color_values_are_zero_to_fifteen() {
    let colors = [
        Color::Black,
        Color::Blue,
        Color::Green,
        Color::Cyan,
        Color::Red,
        Color::Magenta,
        Color::Brown,
        Color::LightGray,
        Color::DarkGray,
        Color::LightBlue,
        Color::LightGreen,
        Color::LightCyan,
        Color::LightRed,
        Color::Pink,
        Color::Yellow,
        Color::White,
    ];
    for (i, color) in colors.iter().enumerate() {
        assert_eq!(color.value(), i as u8);
    }
}

#[test]
fn color_code_packs_background_high_foreground_low() {
    assert_eq!(ColorCode::new(Color::Yellow, Color::Black), ColorCode(0x0E));
    assert_eq!(ColorCode::new(Color::White, Color::Blue), ColorCode(0x1F));
    assert_eq!(ColorCode::new(Color::Black, Color::White), ColorCode(0xF0));
    assert_eq!(ColorCode::new(Color::LightRed, Color::Cyan), ColorCode(0x3C));
    assert_eq!(ColorCode::new(Color::Black, Color::Black), ColorCode(0x00));
    assert_eq!(ColorCode::new(Color::White, Color::White), ColorCode(0xFF));
}

#[test]
fn cells_lie_row_by_row_two_bytes_each() {
    assert_eq!(BUFFER_ADDRESS, 0xb8000);
    assert_eq!(CELL_SIZE, 2);
    assert_eq!(BUFFER_SIZE, 4000);
    assert_eq!(cell_offset(0, 0), 0);
    assert_eq!(cell_offset(0, 1), 2);
    assert_eq!(cell_offset(1, 0), 160);
    assert_eq!(cell_offset(24, 3), 3846);
    assert_eq!(cell_offset(BUFFER_HEIGHT - 1, BUFFER_WIDTH - 1), 3998);
}

#[test]
fn cell_bytes_are_glyph_then_attribute() {
    let cell = ScreenChar { ascii_character: b'H', color_code: ColorCode(0x0E) };
    assert_eq!(cell.to_bytes(), [0x48, 0x0E]);
    assert_eq!(ScreenChar::from_bytes([0x48, 0x0E]), cell);
    assert_eq!(ScreenChar::from_bytes([0x20, 0xF1]).color_code, ColorCode(0xF1));
    for glyph in [0u8, 1, 0x7F, 0xFF] {
        for attribute in [0u8, 0x0E, 0x80, 0xFF] {
            let cell = ScreenChar { ascii_character: glyph, color_code: ColorCode(attribute) };
            assert_eq!(ScreenChar::from_bytes(cell.to_bytes()), cell);
        }
    }
}
