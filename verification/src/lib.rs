//! A text-mode console driver: a writer that renders bytes into an 80x25
//! character grid, scrolls it, and keeps the hardware cursor of the display
//! controller in step with the write position.
//!
//! Everything the driver does to the machine goes through the [`Hardware`]
//! trait, and every contract is stated over the history of those accesses and
//! the contents of the character grid. [`SimulatedHardware`] is a machine in
//! memory that meets the trait's contract. The cursor controller is shared
//! behind a `spin::Mutex`, which the writer takes for each move of the
//! cursor.

pub mod crtc;
pub mod hardware;
pub mod port;
pub mod screen;
pub mod simulation;
pub mod vga_buffer;

pub use hardware::{Access, Hardware, HardwareState};
pub use port::{Port, PortRead, PortWrite};
pub use screen::WriterView;
pub use simulation::SimulatedHardware;
pub use vga_buffer::{
    cell_offset, Color, ColorCode, Cursor, ScreenChar, Writer, BUFFER_ADDRESS, BUFFER_HEIGHT,
    BUFFER_SIZE, BUFFER_WIDTH, CELL_SIZE,
};
