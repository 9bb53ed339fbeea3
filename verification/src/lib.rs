//! A CHIP-8 interpreter whose instruction semantics are stated over a
//! mathematical model of the machine and proved of the executable code.

pub mod bits;
pub mod cpu;
pub mod display;
pub mod fault;
pub mod keymap;
pub mod laws;
pub mod machine;
mod random;
pub mod semantics;
pub mod sprite;

pub use cpu::CPU;
pub use display::pixel_rect;
pub use fault::Fault;
pub use keymap::convert_keycode;
pub use machine::{Machine, MAX_ROM_SIZE, NUM_KEYS, SCREEN_HEIGHT, SCREEN_WIDTH};
