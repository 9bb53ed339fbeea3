//! The mathematical model of the machine: what a value of the interpreter
//! stands for in contracts.

use vstd::prelude::*;

verus! {

/// Width of the display in pixels.
pub const SCREEN_WIDTH: usize = 64;

/// Height of the display in pixels.
pub const SCREEN_HEIGHT: usize = 32;

/// Number of display cells, row after row.
pub const SCREEN_SIZE: usize = 2048;

/// Number of addressable bytes.
pub const RAM_SIZE: usize = 4096;

/// Number of general-purpose registers.
pub const NUM_REGS: usize = 16;

/// Greatest number of return addresses that the call stack holds.
pub const STACK_SIZE: usize = 16;

/// Number of keys on the keypad.
pub const NUM_KEYS: usize = 16;

/// Where a program is loaded and where execution starts.
pub const START_ADDRESS: u16 = 0x200;

/// Number of bytes in the font atlas.
pub const FONTSET_SIZE: usize = 80;

/// Greatest length of a program: what fits between the start address and the
/// end of memory.
pub const MAX_ROM_SIZE: usize = 3584;

/// The font atlas: sixteen glyphs of five rows each, one byte per row, the
/// leftmost pixel in the most significant bit.
pub const FONTSET: [u8; 80] = [
    0xF0, 0x90, 0x90, 0x90, 0xF0,
    0x20, 0x60, 0x20, 0x20, 0x70,
    0xF0, 0x10, 0xF0, 0x80, 0xF0,
    0xF0, 0x10, 0xF0, 0x10, 0xF0,
    0x90, 0x90, 0xF0, 0x10, 0x10,
    0xF0, 0x80, 0xF0, 0x10, 0xF0,
    0xF0, 0x80, 0xF0, 0x90, 0xF0,
    0xF0, 0x10, 0x20, 0x40, 0x40,
    0xF0, 0x90, 0xF0, 0x90, 0xF0,
    0xF0, 0x90, 0xF0, 0x10, 0xF0,
    0xF0, 0x90, 0xF0, 0x90, 0x90,
    0xE0, 0x90, 0xE0, 0x90, 0xE0,
    0xF0, 0x80, 0x80, 0x80, 0xF0,
    0xE0, 0x90, 0x90, 0x90, 0xE0,
    0xF0, 0x80, 0xF0, 0x80, 0xF0,
    0xF0, 0x80, 0xF0, 0x80, 0x80,
];

/// The whole state of the machine as mathematical values.
///
/// `stack` holds the return addresses of the calls that have not returned
/// yet, the oldest first; its length is the call depth.
#[verifier::ext_equal]
pub struct Machine {
    pub pc: u16,
    pub memory: Seq<u8>,
    pub screen: Seq<bool>,
    pub v: Seq<u8>,
    pub index: u16,
    pub stack: Seq<u16>,
    pub keys: Seq<bool>,
    pub delay: u8,
    pub sound: u8,
}

impl Machine {
    /// Every part has its fixed size, and the call depth is at most sixteen.
    pub open spec fn wf(self) -> bool {
        &&& self.memory.len() == RAM_SIZE
        &&& self.screen.len() == SCREEN_SIZE
        &&& self.v.len() == NUM_REGS
        &&& self.stack.len() <= STACK_SIZE
        &&& self.keys.len() == NUM_KEYS
    }

    /// The machine at power-on: the font atlas at the bottom of an otherwise
    /// zeroed memory, the program counter at the start address, everything
    /// else zero, off or empty.
    pub open spec fn initial() -> Machine {
        Machine {
            pc: START_ADDRESS,
            memory: Seq::new(
                RAM_SIZE as nat,
                |a: int| if a < FONTSET_SIZE { FONTSET@[a] } else { 0u8 },
            ),
            screen: Seq::new(SCREEN_SIZE as nat, |cell: int| false),
            v: Seq::new(NUM_REGS as nat, |r: int| 0u8),
            index: 0,
            stack: Seq::empty(),
            keys: Seq::new(NUM_KEYS as nat, |k: int| false),
            delay: 0,
            sound: 0,
        }
    }
}

} // verus!
