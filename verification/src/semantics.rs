//! What each instruction does, as functions on the model.

use vstd::prelude::*;
use crate::fault::Fault;
use crate::machine::{Machine, NUM_KEYS, NUM_REGS, RAM_SIZE, SCREEN_SIZE, STACK_SIZE, START_ADDRESS};

verus! {

/// The four nibbles of an opcode, most significant first.
pub open spec fn digits(opcode: u16) -> (u16, u16, u16, u16) {
    (opcode / 0x1000, (opcode / 0x100) % 16, (opcode / 0x10) % 16, opcode % 16)
}

/// The low byte of an opcode, the operand `nn`.
pub open spec fn low_byte(opcode: u16) -> u8 {
    (opcode % 0x100) as u8
}

/// The low twelve bits of an opcode, the operand `nnn`.
pub open spec fn address(opcode: u16) -> u16 {
    opcode % 0x1000
}

/// Whether the sprite row `byte` has its pixel in column `col` set, column 0
/// being the leftmost one.
pub open spec fn sprite_bit(byte: u8, col: int) -> bool {
    byte & (0x80u8 >> col) != 0
}

/// Whether some key is held down.
pub open spec fn any_pressed(keys: Seq<bool>) -> bool {
    exists|k: int| 0 <= k < keys.len() && keys[k]
}

/// Whether `k` is the lowest-numbered key held down.
pub open spec fn is_lowest_pressed(keys: Seq<bool>, k: int) -> bool {
    &&& 0 <= k < keys.len()
    &&& keys[k]
    &&& forall|j: int| 0 <= j < k ==> !keys[j]
}

/// The lowest-numbered key held down, where there is one.
pub open spec fn lowest_pressed(keys: Seq<bool>) -> int {
    choose|k: int| is_lowest_pressed(keys, k)
}

/// How a fallible operation leaves the machine: where the model gives a next
/// state, the operation succeeded and the machine is in it; where the model
/// gives a fault, the operation reported that fault and the machine is as it
/// was.
pub open spec fn carried_out(
    expected: Result<Machine, Fault>,
    before: Machine,
    after: Machine,
    result: Result<(), Fault>,
) -> bool {
    match expected {
        Ok(next) => result is Ok && after == next,
        Err(fault) => result == Err::<(), Fault>(fault) && after == before,
    }
}

impl Machine {
    /// Whether both bytes of the next opcode lie inside memory.
    pub open spec fn can_fetch(self) -> bool {
        self.pc + 1 < RAM_SIZE
    }

    /// The opcode under the program counter: two bytes, the high one first.
    pub open spec fn opcode(self) -> u16 {
        (self.memory[self.pc as int] * 0x100 + self.memory[self.pc + 1]) as u16
    }

    /// The program counter moved `by` bytes on.
    pub open spec fn advanced(self, by: int) -> Machine {
        Machine { pc: (self.pc + by) as u16, ..self }
    }

    /// The next instruction skipped where `condition` holds.
    pub open spec fn skipped_if(self, condition: bool) -> Machine {
        if condition {
            self.advanced(2)
        } else {
            self
        }
    }

    /// Register `x` set to `value`.
    pub open spec fn with_register(self, x: int, value: u8) -> Machine {
        Machine { v: self.v.update(x, value), ..self }
    }

    /// Register `x` set to `value`, and then the flag register to `flag`: the
    /// flag wins where `x` is the flag register itself.
    pub open spec fn with_flagged(self, x: int, value: u8, flag: u8) -> Machine {
        Machine { v: self.v.update(x, value).update(0xF, flag), ..self }
    }

    /// The display with every pixel off.
    pub open spec fn cleared(self) -> Machine {
        Machine { screen: Seq::new(SCREEN_SIZE as nat, |cell: int| false), ..self }
    }

    /// Control back at the most recent return address.
    pub open spec fn returned(self) -> Result<Machine, Fault> {
        if self.stack.len() == 0 {
            Err(Fault::StackUnderflow)
        } else {
            Ok(Machine { pc: self.stack.last(), stack: self.stack.drop_last(), ..self })
        }
    }

    /// Control at `target`.
    pub open spec fn jumped(self, target: u16) -> Machine {
        Machine { pc: target, ..self }
    }

    /// Control at `target`, with the program counter kept as the return
    /// address.
    pub open spec fn called(self, target: u16) -> Result<Machine, Fault> {
        if self.stack.len() >= STACK_SIZE {
            Err(Fault::StackOverflow)
        } else {
            Ok(Machine { pc: target, stack: self.stack.push(self.pc), ..self })
        }
    }

    /// `Vx + nn` in `Vx`, wrapping, with no flag.
    pub open spec fn incremented(self, x: int, nn: u8) -> Machine {
        self.with_register(x, ((self.v[x] + nn) % 0x100) as u8)
    }

    /// `Vx + Vy` in `Vx`, wrapping; the flag is 1 where the sum did not fit.
    pub open spec fn sum(self, x: int, y: int) -> Machine {
        let total = self.v[x] + self.v[y];
        self.with_flagged(x, (total % 0x100) as u8, if total > 0xFF { 1u8 } else { 0u8 })
    }

    /// `Vx - Vy` in `Vx`, wrapping; the flag is 0 where the subtraction
    /// borrowed.
    pub open spec fn difference(self, x: int, y: int) -> Machine {
        let rest = self.v[x] - self.v[y];
        self.with_flagged(x, (rest % 0x100) as u8, if rest < 0 { 0u8 } else { 1u8 })
    }

    /// `Vy - Vx` in `Vx`, wrapping; the flag is 0 where the subtraction
    /// borrowed.
    pub open spec fn reverse_difference(self, x: int, y: int) -> Machine {
        let rest = self.v[y] - self.v[x];
        self.with_flagged(x, (rest % 0x100) as u8, if rest < 0 { 0u8 } else { 1u8 })
    }

    /// `Vx` halved; the flag is the bit that fell off.
    pub open spec fn shifted_right(self, x: int) -> Machine {
        self.with_flagged(x, self.v[x] / 2, self.v[x] % 2)
    }

    /// `Vx` doubled, wrapping; the flag is the bit that fell off.
    pub open spec fn shifted_left(self, x: int) -> Machine {
        self.with_flagged(x, ((self.v[x] * 2) % 0x100) as u8, self.v[x] / 0x80)
    }

    /// A random byte, masked with `nn`, in `Vx`.
    pub open spec fn randomized(self, x: int, nn: u8, random: u8) -> Machine {
        self.with_register(x, random & nn)
    }

    /// The row of the sprite that falls on display cell `cell` when the
    /// sprite is drawn with its top edge at `vy`, rows wrapping round the
    /// display.
    pub open spec fn sprite_row(cell: int, vy: u8) -> int {
        (cell / 64 - vy) % 32
    }

    /// The column of the sprite that falls on display cell `cell` when the
    /// sprite is drawn with its left edge at `vx`, columns wrapping round the
    /// display.
    pub open spec fn sprite_col(cell: int, vx: u8) -> int {
        (cell % 64 - vx) % 64
    }

    /// Whether the sprite of `rows` rows at the index register, drawn at
    /// (`vx`, `vy`), has a set pixel on display cell `cell`.
    pub open spec fn sprite_covers(self, vx: u8, vy: u8, rows: int, cell: int) -> bool {
        let row = Self::sprite_row(cell, vy);
        let col = Self::sprite_col(cell, vx);
        row < rows && col < 8 && sprite_bit(self.memory[self.index + row], col)
    }

    /// Whether drawing that sprite turns some lit pixel off.
    pub open spec fn sprite_collides(self, vx: u8, vy: u8, rows: int) -> bool {
        exists|cell: int|
            0 <= cell < SCREEN_SIZE && self.screen[cell] && #[trigger] self.sprite_covers(
                vx,
                vy,
                rows,
                cell,
            )
    }

    /// Whether drawing that sprite turns some dark pixel on.
    pub open spec fn sprite_lights(self, vx: u8, vy: u8, rows: int) -> bool {
        exists|cell: int|
            0 <= cell < SCREEN_SIZE && !self.screen[cell] && #[trigger] self.sprite_covers(
                vx,
                vy,
                rows,
                cell,
            )
    }

    /// The sprite of `rows` rows at the index register drawn at (`Vx`, `Vy`):
    /// every pixel that the sprite covers is flipped, and the flag is 1 where
    /// that turned a lit pixel off.
    pub open spec fn drawn(self, x: int, y: int, rows: int) -> Result<Machine, Fault> {
        if rows > 0 && self.index + rows > RAM_SIZE {
            Err(Fault::OutOfBounds)
        } else {
            let vx = self.v[x];
            let vy = self.v[y];
            Ok(
                Machine {
                    screen: Seq::new(
                        SCREEN_SIZE as nat,
                        |cell: int| self.screen[cell] != self.sprite_covers(vx, vy, rows, cell),
                    ),
                    v: self.v.update(
                        0xF,
                        if self.sprite_collides(vx, vy, rows) {
                            1u8
                        } else {
                            0u8
                        },
                    ),
                    ..self
                },
            )
        }
    }

    /// The next instruction skipped where key `Vx` is held down, if
    /// `when_pressed`, or where it is not, otherwise.
    pub open spec fn key_skipped(self, x: int, when_pressed: bool) -> Result<Machine, Fault> {
        if self.v[x] >= NUM_KEYS {
            Err(Fault::KeyOutOfRange)
        } else {
            Ok(self.skipped_if(self.keys[self.v[x] as int] == when_pressed))
        }
    }

    /// The key wait, entered with the program counter already past the
    /// instruction: with a key held down, the lowest-numbered such key in
    /// `Vx`; with none, the program counter back on the instruction.
    pub open spec fn waited(self, x: int) -> Machine {
        if any_pressed(self.keys) {
            self.with_register(x, lowest_pressed(self.keys) as u8)
        } else {
            self.advanced(-2)
        }
    }

    /// The hundreds, tens and units of `Vx` in the three bytes at the index
    /// register.
    pub open spec fn decimal_stored(self, x: int) -> Result<Machine, Fault> {
        if self.index + 2 >= RAM_SIZE {
            Err(Fault::OutOfBounds)
        } else {
            let value = self.v[x];
            let at = self.index as int;
            Ok(
                Machine {
                    memory: self.memory.update(at, value / 100).update(
                        at + 1,
                        (value / 10) % 10,
                    ).update(at + 2, value % 10),
                    ..self
                },
            )
        }
    }

    /// Registers `V0` to `Vx` in the bytes from the index register on.
    pub open spec fn registers_stored(self, x: int) -> Result<Machine, Fault> {
        if self.index + x >= RAM_SIZE {
            Err(Fault::OutOfBounds)
        } else {
            Ok(
                Machine {
                    memory: Seq::new(
                        RAM_SIZE as nat,
                        |a: int|
                            if self.index <= a <= self.index + x {
                                self.v[a - self.index]
                            } else {
                                self.memory[a]
                            },
                    ),
                    ..self
                },
            )
        }
    }

    /// Registers `V0` to `Vx` read from the bytes from the index register on.
    pub open spec fn registers_loaded(self, x: int) -> Result<Machine, Fault> {
        if self.index + x >= RAM_SIZE {
            Err(Fault::OutOfBounds)
        } else {
            Ok(
                Machine {
                    v: Seq::new(
                        NUM_REGS as nat,
                        |r: int|
                            if r <= x {
                                self.memory[self.index + r]
                            } else {
                                self.v[r]
                            },
                    ),
                    ..self
                },
            )
        }
    }

    /// The effect of the instruction `opcode` on a machine whose program
    /// counter is already past it. `random` is the byte that the random
    /// instruction uses; no other instruction looks at it.
    pub open spec fn execute(self, opcode: u16, random: u8) -> Result<Machine, Fault> {
        let d = digits(opcode);
        let x = d.1 as int;
        let y = d.2 as int;
        let nn = low_byte(opcode);
        let nnn = address(opcode);
        if opcode == 0x0000 {
            Ok(self)
        } else if opcode == 0x00E0 {
            Ok(self.cleared())
        } else if opcode == 0x00EE {
            self.returned()
        } else if d.0 == 0x1 {
            Ok(self.jumped(nnn))
        } else if d.0 == 0x2 {
            self.called(nnn)
        } else if d.0 == 0x3 {
            Ok(self.skipped_if(self.v[x] == nn))
        } else if d.0 == 0x4 {
            Ok(self.skipped_if(self.v[x] != nn))
        } else if d.0 == 0x5 && d.3 == 0x0 {
            Ok(self.skipped_if(self.v[x] == self.v[y]))
        } else if d.0 == 0x6 {
            Ok(self.with_register(x, nn))
        } else if d.0 == 0x7 {
            Ok(self.incremented(x, nn))
        } else if d.0 == 0x8 && d.3 == 0x0 {
            Ok(self.with_register(x, self.v[y]))
        } else if d.0 == 0x8 && d.3 == 0x1 {
            Ok(self.with_register(x, self.v[x] | self.v[y]))
        } else if d.0 == 0x8 && d.3 == 0x2 {
            Ok(self.with_register(x, self.v[x] & self.v[y]))
        } else if d.0 == 0x8 && d.3 == 0x3 {
            Ok(self.with_register(x, self.v[x] ^ self.v[y]))
        } else if d.0 == 0x8 && d.3 == 0x4 {
            Ok(self.sum(x, y))
        } else if d.0 == 0x8 && d.3 == 0x5 {
            Ok(self.difference(x, y))
        } else if d.0 == 0x8 && d.3 == 0x6 {
            Ok(self.shifted_right(x))
        } else if d.0 == 0x8 && d.3 == 0x7 {
            Ok(self.reverse_difference(x, y))
        } else if d.0 == 0x8 && d.3 == 0xE {
            Ok(self.shifted_left(x))
        } else if d.0 == 0x9 && d.3 == 0x0 {
            Ok(self.skipped_if(self.v[x] != self.v[y]))
        } else if d.0 == 0xA {
            Ok(Machine { index: nnn, ..self })
        } else if d.0 == 0xB {
            Ok(self.jumped((self.v[0] + nnn) as u16))
        } else if d.0 == 0xC {
            Ok(self.randomized(x, nn, random))
        } else if d.0 == 0xD {
            self.drawn(x, y, d.3 as int)
        } else if d.0 == 0xE && d.2 == 0x9 && d.3 == 0xE {
            self.key_skipped(x, true)
        } else if d.0 == 0xE && d.2 == 0xA && d.3 == 0x1 {
            self.key_skipped(x, false)
        } else if d.0 == 0xF && d.2 == 0x0 && d.3 == 0x7 {
            Ok(self.with_register(x, self.delay))
        } else if d.0 == 0xF && d.2 == 0x0 && d.3 == 0xA {
            Ok(self.waited(x))
        } else if d.0 == 0xF && d.2 == 0x1 && d.3 == 0x5 {
            Ok(Machine { delay: self.v[x], ..self })
        } else if d.0 == 0xF && d.2 == 0x1 && d.3 == 0x8 {
            Ok(Machine { sound: self.v[x], ..self })
        } else if d.0 == 0xF && d.2 == 0x1 && d.3 == 0xE {
            Ok(Machine { index: ((self.index + self.v[x]) % 0x10000) as u16, ..self })
        } else if d.0 == 0xF && d.2 == 0x2 && d.3 == 0x9 {
            Ok(Machine { index: (self.v[x] * 5) as u16, ..self })
        } else if d.0 == 0xF && d.2 == 0x3 && d.3 == 0x3 {
            self.decimal_stored(x)
        } else if d.0 == 0xF && d.2 == 0x5 && d.3 == 0x5 {
            self.registers_stored(x)
        } else if d.0 == 0xF && d.2 == 0x6 && d.3 == 0x5 {
            self.registers_loaded(x)
        } else {
            Err(Fault::Unimplemented { opcode, digits: d })
        }
    }

    /// Whether the next instruction is the one that uses a random byte.
    pub open spec fn draws_random(self) -> bool {
        self.can_fetch() && digits(self.opcode()).0 == 0xC
    }

    /// One instruction: fetch the opcode under the program counter, move the
    /// program counter past it, and execute it. `random` is the byte that the
    /// random instruction uses.
    pub open spec fn step(self, random: u8) -> Result<Machine, Fault> {
        if !self.can_fetch() {
            Err(Fault::OutOfBounds)
        } else {
            self.advanced(2).execute(self.opcode(), random)
        }
    }

    /// The outcome of as many steps as `randoms` has bytes, each step with
    /// its own byte, stopping at the first fault.
    pub open spec fn run(self, randoms: Seq<u8>) -> Result<Machine, Fault>
        decreases randoms.len(),
    {
        if randoms.len() == 0 {
            Ok(self)
        } else {
            match self.step(randoms[0]) {
                Ok(next) => next.run(randoms.skip(1)),
                Err(fault) => Err(fault),
            }
        }
    }

    /// Whether some step of that run executes the random instruction.
    pub open spec fn run_draws_random(self, randoms: Seq<u8>) -> bool
        decreases randoms.len(),
    {
        if randoms.len() == 0 {
            false
        } else {
            self.draws_random() || match self.step(randoms[0]) {
                Ok(next) => next.run_draws_random(randoms.skip(1)),
                Err(_) => false,
            }
        }
    }

    /// The timers after one tick of the 60 Hz clock: each one less, unless it
    /// is zero already.
    pub open spec fn timers_ticked(self) -> Machine {
        Machine {
            delay: if self.delay > 0 { (self.delay - 1) as u8 } else { 0u8 },
            sound: if self.sound > 0 { (self.sound - 1) as u8 } else { 0u8 },
            ..self
        }
    }

    /// Key `key` held down or released.
    pub open spec fn with_key(self, key: int, pressed: bool) -> Machine {
        Machine { keys: self.keys.update(key, pressed), ..self }
    }

    /// The bytes of `program` in memory from the start address on.
    pub open spec fn loaded(self, program: Seq<u8>) -> Machine {
        Machine {
            memory: Seq::new(
                RAM_SIZE as nat,
                |a: int|
                    if START_ADDRESS <= a < START_ADDRESS + program.len() {
                        program[a - START_ADDRESS]
                    } else {
                        self.memory[a]
                    },
            ),
            ..self
        }
    }
}

} // verus!
