//! The interpreter: the machine state in fixed-size arrays, and the
//! fetch-decode-execute cycle over it.

use vstd::prelude::*;
use crate::fault::Fault;
use crate::machine::{
    Machine, FONTSET, FONTSET_SIZE, MAX_ROM_SIZE, NUM_KEYS, NUM_REGS, RAM_SIZE, SCREEN_HEIGHT,
    SCREEN_SIZE, SCREEN_WIDTH, STACK_SIZE, START_ADDRESS,
};
use crate::bits::{
    lemma_address, lemma_big_endian, lemma_high_nibble, lemma_low_byte, lemma_nibbles,
    lemma_shift_left, lemma_shift_right,
};
use crate::random::random_byte;
use crate::semantics::{
    address, any_pressed, carried_out, digits, is_lowest_pressed, low_byte, lowest_pressed,
    sprite_bit,
};
use crate::sprite::{cell_of, erased, lemma_cell_of, painted};

verus! {

/// A CHIP-8 interpreter. It owns all of the emulated state; callers drive it
/// with `tick` and `tick_timers`, feed it key presses, and read the display.
pub struct CPU {
    program_counter: u16,
    ram: [u8; RAM_SIZE],
    screen: [bool; SCREEN_SIZE],
    v_registers: [u8; NUM_REGS],
    i_register: u16,
    stack_pointer: u16,
    stack: [u16; STACK_SIZE],
    keypad: [bool; NUM_KEYS],
    delay_timer: u8,
    sound_timer: u8,
}

impl View for CPU {
    type V = Machine;

    /// The machine that this interpreter stands for. Of the stack array only
    /// the entries below the stack pointer count.
    closed spec fn view(&self) -> Machine {
        Machine {
            pc: self.program_counter,
            memory: self.ram@,
            screen: self.screen@,
            v: self.v_registers@,
            index: self.i_register,
            stack: Seq::new(self.stack_pointer as nat, |i: int| self.stack@[i]),
            keys: self.keypad@,
            delay: self.delay_timer,
            sound: self.sound_timer,
        }
    }
}

impl CPU {
    /// The stack pointer never passes the end of the stack.
    #[verifier::type_invariant]
    spec fn stack_pointer_in_bounds(self) -> bool {
        self.stack_pointer <= STACK_SIZE
    }

    /// An interpreter at power-on.
    pub fn new() -> (cpu: CPU)
        ensures
            cpu@ == Machine::initial(),
            cpu@.wf(),
    {
        let mut new_cpu = CPU {
            program_counter: START_ADDRESS,
            ram: [0;RAM_SIZE],
            screen: [false;SCREEN_SIZE],
            v_registers: [0;NUM_REGS],
            i_register: 0,
            stack_pointer: 0,
            stack: [0;STACK_SIZE],
            keypad: [false;NUM_KEYS],
            delay_timer: 0,
            sound_timer: 0,
        };
        new_cpu.load_fontset();
        assert(new_cpu@ =~= Machine::initial());
        new_cpu
    }

    /// Puts the interpreter back to power-on, whatever state it was in: the
    /// loaded program, the registers, the timers and the display are lost.
    pub fn reset(&mut self)
        ensures
            final(self)@ == Machine::initial(),
            final(self)@.wf(),
    {
        proof {
            use_type_invariant(&*self);
        }
        self.program_counter = START_ADDRESS;
        self.ram = [0;RAM_SIZE];
        self.screen = [false;SCREEN_SIZE];
        self.v_registers = [0;NUM_REGS];
        self.i_register = 0;
        self.stack_pointer = 0;
        self.stack = [0;STACK_SIZE];
        self.keypad = [false;NUM_KEYS];
        self.delay_timer = 0;
        self.sound_timer = 0;
        self.load_fontset();
        assert(self@ =~= Machine::initial());
    }

    /// Copies the font atlas to the bottom of memory.
    fn load_fontset(&mut self)
        ensures
            forall|a: int| 0 <= a < FONTSET_SIZE ==> final(self).ram@[a] == FONTSET@[a],
            forall|a: int| FONTSET_SIZE <= a < RAM_SIZE ==> final(self).ram@[a] == old(self).ram@[a],
            final(self).program_counter == old(self).program_counter,
            final(self).screen == old(self).screen,
            final(self).v_registers == old(self).v_registers,
            final(self).i_register == old(self).i_register,
            final(self).stack_pointer == old(self).stack_pointer,
            final(self).stack == old(self).stack,
            final(self).keypad == old(self).keypad,
            final(self).delay_timer == old(self).delay_timer,
            final(self).sound_timer == old(self).sound_timer,
    {
        proof {
            use_type_invariant(&*self);
        }
        let mut a: usize = 0;
        while a < FONTSET_SIZE
            invariant
                a <= FONTSET_SIZE,
                self.stack_pointer <= STACK_SIZE,
                forall|k: int| 0 <= k < a ==> self.ram@[k] == FONTSET@[k],
                forall|k: int| FONTSET_SIZE <= k < RAM_SIZE ==> self.ram@[k] == old(self).ram@[k],
                self.program_counter == old(self).program_counter,
                self.screen == old(self).screen,
                self.v_registers == old(self).v_registers,
                self.i_register == old(self).i_register,
                self.stack_pointer == old(self).stack_pointer,
                self.stack == old(self).stack,
                self.keypad == old(self).keypad,
                self.delay_timer == old(self).delay_timer,
                self.sound_timer == old(self).sound_timer,
            decreases FONTSET_SIZE - a,
        {
            self.ram[a] = FONTSET[a];
            a += 1;
        }
    }

    /// Pushes a return address.
    fn push(&mut self, val: u16)
        requires
            old(self)@.stack.len() < STACK_SIZE,
        ensures
            final(self)@ == (Machine { stack: old(self)@.stack.push(val), ..old(self)@ }),
    {
        proof {
            use_type_invariant(&*self);
        }
        self.stack[self.stack_pointer as usize] = val;
        self.stack_pointer += 1;
        assert(self@.stack =~= old(self)@.stack.push(val));
    }

    /// Pops the most recent return address.
    fn pop(&mut self) -> (val: u16)
        requires
            0 < old(self)@.stack.len(),
        ensures
            val == old(self)@.stack.last(),
            final(self)@ == (Machine { stack: old(self)@.stack.drop_last(), ..old(self)@ }),
    {
        proof {
            use_type_invariant(&*self);
        }
        self.stack_pointer -= 1;
        assert(self@.stack =~= old(self)@.stack.drop_last());
        self.stack[self.stack_pointer as usize]
    }

    /// The display: 64 by 32 pixels, row after row, `true` for a lit pixel.
    pub fn get_display(&self) -> (display: &[bool])
        ensures
            display@ == self@.screen,
            self@.wf(),
    {
        proof {
            use_type_invariant(self);
        }
        &self.screen
    }

    /// The memory, all 4096 bytes of it.
    pub fn get_memory(&self) -> (memory: &[u8])
        ensures
            memory@ == self@.memory,
            self@.wf(),
    {
        proof {
            use_type_invariant(self);
        }
        &self.ram
    }

    /// The address of the next instruction.
    pub fn program_counter(&self) -> (pc: u16)
        ensures
            pc == self@.pc,
    {
        self.program_counter
    }

    /// The index register.
    pub fn index_register(&self) -> (index: u16)
        ensures
            index == self@.index,
    {
        self.i_register
    }

    /// The value of register `x`.
    pub fn register(&self, x: usize) -> (value: u8)
        requires
            x < NUM_REGS,
        ensures
            value == self@.v[x as int],
    {
        self.v_registers[x]
    }

    /// The delay timer.
    pub fn delay_timer(&self) -> (delay: u8)
        ensures
            delay == self@.delay,
    {
        self.delay_timer
    }

    /// The sound timer; a tone sounds while it is not zero.
    pub fn sound_timer(&self) -> (sound: u8)
        ensures
            sound == self@.sound,
    {
        self.sound_timer
    }

    /// The number of calls that have not returned yet.
    pub fn call_depth(&self) -> (depth: usize)
        ensures
            depth == self@.stack.len(),
            depth <= STACK_SIZE,
    {
        proof {
            use_type_invariant(self);
        }
        self.stack_pointer as usize
    }

    /// Records that key `index` is held down (`pressed`) or released.
    pub fn keypress(&mut self, index: usize, pressed: bool)
        requires
            index < NUM_KEYS,
        ensures
            final(self)@ == old(self)@.with_key(index as int, pressed),
            final(self)@.wf(),
    {
        proof {
            use_type_invariant(&*self);
        }
        self.keypad[index] = pressed;
    }

    /// Copies a program into memory from the start address on. The registers,
    /// the stack and the rest of memory stay as they are.
    pub fn load_rom(&mut self, data: &[u8])
        requires
            data@.len() <= MAX_ROM_SIZE,
        ensures
            final(self)@ == old(self)@.loaded(data@),
            final(self)@.wf(),
    {
        proof {
            use_type_invariant(&*self);
        }
        let start = START_ADDRESS as usize;
        let mut offset: usize = 0;
        while offset < data.len()
            invariant
                start == START_ADDRESS,
                self.stack_pointer <= STACK_SIZE,
                offset <= data@.len() <= MAX_ROM_SIZE,
                forall|a: int|
                    0 <= a < RAM_SIZE ==> self.ram@[a] == if start <= a < start + offset {
                        data@[a - start]
                    } else {
                        old(self).ram@[a]
                    },
                self.program_counter == old(self).program_counter,
                self.screen == old(self).screen,
                self.v_registers == old(self).v_registers,
                self.i_register == old(self).i_register,
                self.stack_pointer == old(self).stack_pointer,
                self.stack == old(self).stack,
                self.keypad == old(self).keypad,
                self.delay_timer == old(self).delay_timer,
                self.sound_timer == old(self).sound_timer,
            decreases data@.len() - offset,
        {
            self.ram[start + offset] = data[offset];
            offset += 1;
        }
        assert(self@ =~= old(self)@.loaded(data@));
    }

    /// One tick of the 60 Hz clock: each timer that is not zero goes down by
    /// one. Returns whether the sound timer reached zero on this tick, which
    /// is when the tone ends.
    pub fn tick_timers(&mut self) -> (tone_ended: bool)
        ensures
            final(self)@.wf(),
            final(self)@ == old(self)@.timers_ticked(),
            tone_ended == (old(self)@.sound == 1),
            old(self)@.delay == 0 ==> final(self)@.delay == 0,
            old(self)@.sound == 0 ==> final(self)@.sound == 0,
    {
        proof {
            use_type_invariant(&*self);
        }
        if self.delay_timer > 0 {
            self.delay_timer -= 1;
        }
        let mut tone_ended = false;
        if self.sound_timer > 0 {
            if self.sound_timer == 1 {
                tone_ended = true;
            }
            self.sound_timer -= 1;
        }
        tone_ended
    }

    /// Draws the sprite of `z` rows at the index register at (`Vx`, `Vy`).
    fn draw(&mut self, x: u16, y: u16, z: u16) -> (result: Result<(), Fault>)
        requires
            x < NUM_REGS,
            y < NUM_REGS,
            z < 16,
        ensures
            carried_out(
                old(self)@.drawn(x as int, y as int, z as int),
                old(self)@,
                final(self)@,
                result,
            ),
    {
        proof {
            use_type_invariant(&*self);
        }
        if z > 0 && self.i_register as usize + z as usize > RAM_SIZE {
            return Err(Fault::OutOfBounds);
        }
        let ghost before = self@;
        let x_coord = self.v_registers[x as usize];
        let y_coord = self.v_registers[y as usize];
        let num_rows = z;
        let mut flipped = false;

        let mut y_line: u16 = 0;
        while y_line < num_rows
            invariant
                y_line <= num_rows < 16,
                before == old(self)@,
                num_rows > 0 ==> before.index + num_rows <= RAM_SIZE,
                self.stack_pointer <= STACK_SIZE,
                self@ == (Machine { screen: self.screen@, ..before }),
                forall|cell: int|
                    0 <= cell < SCREEN_SIZE ==> self.screen@[cell] == (before.screen[cell]
                        != painted(before, x_coord, y_coord, num_rows as int, y_line as int, 0, cell)),
                flipped == erased(before, x_coord, y_coord, num_rows as int, y_line as int, 0),
            decreases num_rows - y_line,
        {
            let addr = self.i_register + y_line;
            let pixels = self.ram[addr as usize];

            let mut x_line: u16 = 0;
            while x_line < 8
                invariant
                    x_line <= 8,
                    y_line < num_rows < 16,
                    before == old(self)@,
                    before.index + num_rows <= RAM_SIZE,
                    pixels == before.memory[before.index + y_line],
                    self.stack_pointer <= STACK_SIZE,
                    self@ == (Machine { screen: self.screen@, ..before }),
                    forall|cell: int|
                        0 <= cell < SCREEN_SIZE ==> self.screen@[cell] == (before.screen[cell]
                            != painted(
                            before,
                            x_coord,
                            y_coord,
                            num_rows as int,
                            y_line as int,
                            x_line as int,
                            cell,
                        )),
                    flipped == erased(
                        before,
                        x_coord,
                        y_coord,
                        num_rows as int,
                        y_line as int,
                        x_line as int,
                    ),
                decreases 8 - x_line,
            {
                let sx = (x_coord as usize + x_line as usize) % SCREEN_WIDTH;
                let sy = (y_coord as usize + y_line as usize) % SCREEN_HEIGHT;
                let index = sx + SCREEN_WIDTH * sy;
                proof {
                    lemma_cell_of(x_coord, y_coord, y_line as int, x_line as int);
                    assert(index == cell_of(x_coord, y_coord, y_line as int, x_line as int));
                }
                let ghost was_erased = flipped;
                if (pixels & (0b10000000u8 >> x_line)) != 0 {
                    assert(sprite_bit(pixels, x_line as int));
                    if self.screen[index] {
                        flipped = true;
                    }
                    self.screen[index] = !self.screen[index];
                }
                proof {
                    let rows = num_rows as int;
                    let r = y_line as int;
                    let c = x_line as int;
                    let lit = sprite_bit(pixels, c);
                    assert forall|cell: int| 0 <= cell < SCREEN_SIZE implies painted(
                        before,
                        x_coord,
                        y_coord,
                        rows,
                        r,
                        c + 1,
                        cell,
                    ) == (painted(before, x_coord, y_coord, rows, r, c, cell) || (cell == index
                        && lit)) by {}
                    if was_erased {
                        let cell = choose|cell: int|
                            0 <= cell < SCREEN_SIZE && before.screen[cell] && painted(
                                before,
                                x_coord,
                                y_coord,
                                rows,
                                r,
                                c,
                                cell,
                            );
                        assert(painted(before, x_coord, y_coord, rows, r, c + 1, cell));
                    }
                    if lit && before.screen[index as int] {
                        assert(painted(before, x_coord, y_coord, rows, r, c + 1, index as int));
                    }
                }
                x_line += 1;
            }
            proof {
                let rows = num_rows as int;
                let r = y_line as int;
                assert forall|cell: int| 0 <= cell < SCREEN_SIZE implies painted(
                    before,
                    x_coord,
                    y_coord,
                    rows,
                    r,
                    8,
                    cell,
                ) == painted(before, x_coord, y_coord, rows, r + 1, 0, cell) by {}
                if flipped {
                    let cell = choose|cell: int|
                        0 <= cell < SCREEN_SIZE && before.screen[cell] && painted(
                            before,
                            x_coord,
                            y_coord,
                            rows,
                            r,
                            8,
                            cell,
                        );
                    assert(painted(before, x_coord, y_coord, rows, r + 1, 0, cell));
                }
                if erased(before, x_coord, y_coord, rows, r + 1, 0) {
                    let cell = choose|cell: int|
                        0 <= cell < SCREEN_SIZE && before.screen[cell] && painted(
                            before,
                            x_coord,
                            y_coord,
                            rows,
                            r + 1,
                            0,
                            cell,
                        );
                    assert(painted(before, x_coord, y_coord, rows, r, 8, cell));
                }
            }
            y_line += 1;
        }

        if flipped {
            self.v_registers[0xF] = 1;
        } else {
            self.v_registers[0xF] = 0;
        }
        proof {
            let rows = num_rows as int;
            assert forall|cell: int| 0 <= cell < SCREEN_SIZE implies painted(
                before,
                x_coord,
                y_coord,
                rows,
                rows,
                0,
                cell,
            ) == before.sprite_covers(x_coord, y_coord, rows, cell) by {}
            if flipped {
                let cell = choose|cell: int|
                    0 <= cell < SCREEN_SIZE && before.screen[cell] && painted(
                        before,
                        x_coord,
                        y_coord,
                        rows,
                        rows,
                        0,
                        cell,
                    );
                assert(before.sprite_covers(x_coord, y_coord, rows, cell));
            }
            if before.sprite_collides(x_coord, y_coord, rows) {
                let cell = choose|cell: int|
                    0 <= cell < SCREEN_SIZE && before.screen[cell] && before.sprite_covers(
                        x_coord,
                        y_coord,
                        rows,
                        cell,
                    );
                assert(painted(before, x_coord, y_coord, rows, rows, 0, cell));
            }
            assert(self@ =~= before.drawn(x as int, y as int, z as int)->Ok_0);
        }
        Ok(())
    }
}

impl CPU {
    /// Clears the display.
    fn cls(&mut self)
        ensures
            final(self)@ == old(self)@.cleared(),
    {
        proof {
            use_type_invariant(&*self);
        }
        self.screen = [false;SCREEN_SIZE];
        assert(self@ =~= old(self)@.cleared());
    }

    /// Returns from a subroutine.
    fn ret(&mut self) -> (result: Result<(), Fault>)
        ensures
            carried_out(old(self)@.returned(), old(self)@, final(self)@, result),
    {
        proof {
            use_type_invariant(&*self);
        }
        if self.stack_pointer == 0 {
            return Err(Fault::StackUnderflow);
        }
        let return_address = self.pop();
        proof {
            use_type_invariant(&*self);
        }
        self.program_counter = return_address;
        assert(self@ =~= old(self)@.returned()->Ok_0);
        Ok(())
    }

    /// Jumps to the address in the opcode.
    fn jmp(&mut self, opcode: u16)
        ensures
            final(self)@ == old(self)@.jumped(address(opcode)),
    {
        proof {
            use_type_invariant(&*self);
            lemma_address(opcode);
        }
        let new_address = opcode & 0xFFF;
        self.program_counter = new_address;
    }

    /// Calls the subroutine at the address in the opcode.
    fn call(&mut self, opcode: u16) -> (result: Result<(), Fault>)
        ensures
            carried_out(old(self)@.called(address(opcode)), old(self)@, final(self)@, result),
    {
        proof {
            use_type_invariant(&*self);
            lemma_address(opcode);
        }
        if self.stack_pointer as usize >= STACK_SIZE {
            return Err(Fault::StackOverflow);
        }
        let subroutine_address = opcode & 0xFFF;
        self.push(self.program_counter);
        proof {
            use_type_invariant(&*self);
        }
        self.program_counter = subroutine_address;
        assert(self@ =~= old(self)@.called(address(opcode))->Ok_0);
        Ok(())
    }

    /// Skips the next instruction if `Vx` equals the low byte of the opcode.
    fn skip_eq_nn(&mut self, x: u16, opcode: u16)
        requires
            x < NUM_REGS,
            old(self)@.pc <= RAM_SIZE,
        ensures
            final(self)@ == old(self)@.skipped_if(old(self)@.v[x as int] == low_byte(opcode)),
    {
        proof {
            use_type_invariant(&*self);
            lemma_low_byte(opcode);
        }
        let nn = (opcode & 0xFF) as u8;
        if self.v_registers[x as usize] == nn {
            self.program_counter += 2
        }
    }

    /// Skips the next instruction if `Vx` differs from the low byte of the
    /// opcode.
    fn skip_neq_nn(&mut self, x: u16, opcode: u16)
        requires
            x < NUM_REGS,
            old(self)@.pc <= RAM_SIZE,
        ensures
            final(self)@ == old(self)@.skipped_if(old(self)@.v[x as int] != low_byte(opcode)),
    {
        proof {
            use_type_invariant(&*self);
            lemma_low_byte(opcode);
        }
        let nn = (opcode & 0xFF) as u8;
        if self.v_registers[x as usize] != nn {
            self.program_counter += 2
        }
    }

    /// Skips the next instruction if `Vx` equals `Vy`.
    fn skip_eq_vy(&mut self, x: u16, y: u16)
        requires
            x < NUM_REGS,
            y < NUM_REGS,
            old(self)@.pc <= RAM_SIZE,
        ensures
            final(self)@ == old(self)@.skipped_if(old(self)@.v[x as int] == old(self)@.v[y as int]),
    {
        proof {
            use_type_invariant(&*self);
        }
        if self.v_registers[x as usize] == self.v_registers[y as usize] {
            self.program_counter += 2
        }
    }

    /// Sets `Vx` to the low byte of the opcode.
    fn set_nn(&mut self, x: u16, opcode: u16)
        requires
            x < NUM_REGS,
        ensures
            final(self)@ == old(self)@.with_register(x as int, low_byte(opcode)),
    {
        proof {
            use_type_invariant(&*self);
            lemma_low_byte(opcode);
        }
        let new_value = (opcode & 0xFF) as u8;
        self.v_registers[x as usize] = new_value;
    }

    /// Adds the low byte of the opcode to `Vx`.
    fn incr_nn(&mut self, x: u16, opcode: u16)
        requires
            x < NUM_REGS,
        ensures
            final(self)@ == old(self)@.incremented(x as int, low_byte(opcode)),
    {
        proof {
            use_type_invariant(&*self);
            lemma_low_byte(opcode);
        }
        let increment_by = (opcode & 0xFF) as u8;
        self.v_registers[x as usize] = self.v_registers[x as usize].wrapping_add(increment_by);
    }

    /// Sets `Vx` to `Vy`.
    fn set_vy(&mut self, x: u16, y: u16)
        requires
            x < NUM_REGS,
            y < NUM_REGS,
        ensures
            final(self)@ == old(self)@.with_register(x as int, old(self)@.v[y as int]),
    {
        proof {
            use_type_invariant(&*self);
        }
        self.v_registers[x as usize] = self.v_registers[y as usize]
    }

    /// Sets `Vx` to `Vx | Vy`.
    fn or(&mut self, x: u16, y: u16)
        requires
            x < NUM_REGS,
            y < NUM_REGS,
        ensures
            final(self)@ == old(self)@.with_register(
                x as int,
                old(self)@.v[x as int] | old(self)@.v[y as int],
            ),
    {
        proof {
            use_type_invariant(&*self);
        }
        self.v_registers[x as usize] = self.v_registers[x as usize] | self.v_registers[y as usize];
    }

    /// Sets `Vx` to `Vx & Vy`.
    fn and(&mut self, x: u16, y: u16)
        requires
            x < NUM_REGS,
            y < NUM_REGS,
        ensures
            final(self)@ == old(self)@.with_register(
                x as int,
                old(self)@.v[x as int] & old(self)@.v[y as int],
            ),
    {
        proof {
            use_type_invariant(&*self);
        }
        self.v_registers[x as usize] = self.v_registers[x as usize] & self.v_registers[y as usize];
    }

    /// Sets `Vx` to `Vx ^ Vy`.
    fn xor(&mut self, x: u16, y: u16)
        requires
            x < NUM_REGS,
            y < NUM_REGS,
        ensures
            final(self)@ == old(self)@.with_register(
                x as int,
                old(self)@.v[x as int] ^ old(self)@.v[y as int],
            ),
    {
        proof {
            use_type_invariant(&*self);
        }
        self.v_registers[x as usize] = self.v_registers[x as usize] ^ self.v_registers[y as usize];
    }

    /// Adds `Vy` to `Vx` and sets the flag to the carry.
    fn incr_vy(&mut self, x: u16, y: u16)
        requires
            x < NUM_REGS,
            y < NUM_REGS,
        ensures
            final(self)@ == old(self)@.sum(x as int, y as int),
    {
        proof {
            use_type_invariant(&*self);
        }
        let vx = self.v_registers[x as usize];
        let vy = self.v_registers[y as usize];
        let new_vx = vx.wrapping_add(vy);
        let carry = vx > u8::MAX - vy;
        let new_vf = if carry {
            1
        } else {
            0
        };

        self.v_registers[x as usize] = new_vx;
        self.v_registers[0xF] = new_vf;
    }

    /// Subtracts `Vy` from `Vx` and clears the flag on a borrow.
    fn decr_vy(&mut self, x: u16, y: u16)
        requires
            x < NUM_REGS,
            y < NUM_REGS,
        ensures
            final(self)@ == old(self)@.difference(x as int, y as int),
    {
        proof {
            use_type_invariant(&*self);
        }
        let vx = self.v_registers[x as usize];
        let vy = self.v_registers[y as usize];
        let new_vx = vx.wrapping_sub(vy);
        let borrow = vx < vy;
        let new_vf = if borrow {
            0
        } else {
            1
        };

        self.v_registers[x as usize] = new_vx;
        self.v_registers[0xF] = new_vf;
    }

    /// Shifts `Vx` right by one bit; the flag takes the bit shifted out.
    fn brs(&mut self, x: u16)
        requires
            x < NUM_REGS,
        ensures
            final(self)@ == old(self)@.shifted_right(x as int),
    {
        proof {
            use_type_invariant(&*self);
            lemma_shift_right(self.v_registers@[x as int]);
        }
        let lsb = self.v_registers[x as usize] & 1;
        self.v_registers[x as usize] = self.v_registers[x as usize] >> 1;
        self.v_registers[0xF] = lsb;
    }

    /// Sets `Vx` to `Vy - Vx` and clears the flag on a borrow.
    fn sub_vx(&mut self, x: u16, y: u16)
        requires
            x < NUM_REGS,
            y < NUM_REGS,
        ensures
            final(self)@ == old(self)@.reverse_difference(x as int, y as int),
    {
        proof {
            use_type_invariant(&*self);
        }
        let vx = self.v_registers[x as usize];
        let vy = self.v_registers[y as usize];
        let new_vx = vy.wrapping_sub(vx);
        let borrow = vy < vx;
        let new_vf = if borrow {
            0
        } else {
            1
        };

        self.v_registers[x as usize] = new_vx;
        self.v_registers[0xF] = new_vf;
    }

    /// Shifts `Vx` left by one bit; the flag takes the bit shifted out.
    fn bls(&mut self, x: u16)
        requires
            x < NUM_REGS,
        ensures
            final(self)@ == old(self)@.shifted_left(x as int),
    {
        proof {
            use_type_invariant(&*self);
            lemma_shift_left(self.v_registers@[x as int]);
        }
        let msb = (self.v_registers[x as usize] >> 7) & 1;
        self.v_registers[x as usize] = self.v_registers[x as usize] << 1;
        self.v_registers[0xF] = msb;
    }

    /// Skips the next instruction if `Vx` differs from `Vy`.
    fn skip_neq_vy(&mut self, x: u16, y: u16)
        requires
            x < NUM_REGS,
            y < NUM_REGS,
            old(self)@.pc <= RAM_SIZE,
        ensures
            final(self)@ == old(self)@.skipped_if(old(self)@.v[x as int] != old(self)@.v[y as int]),
    {
        proof {
            use_type_invariant(&*self);
        }
        if self.v_registers[x as usize] != self.v_registers[y as usize] {
            self.program_counter += 2
        }
    }

    /// Sets the index register to the address in the opcode.
    fn seti(&mut self, opcode: u16)
        ensures
            final(self)@ == (Machine { index: address(opcode), ..old(self)@ }),
    {
        proof {
            use_type_invariant(&*self);
            lemma_address(opcode);
        }
        let next_i = opcode & 0xFFF;
        self.i_register = next_i;
    }

    /// Jumps to the address in the opcode plus `V0`.
    fn setpc(&mut self, opcode: u16)
        ensures
            final(self)@ == old(self)@.jumped((old(self)@.v[0] + address(opcode)) as u16),
    {
        proof {
            use_type_invariant(&*self);
            lemma_address(opcode);
        }
        let opcode_value = opcode & 0xFFF;
        self.program_counter = (self.v_registers[0] as u16) + opcode_value;
    }

    /// Sets `Vx` to `random` masked with the low byte of the opcode.
    fn rand(&mut self, x: u16, opcode: u16, random: u8)
        requires
            x < NUM_REGS,
        ensures
            final(self)@ == old(self)@.randomized(x as int, low_byte(opcode), random),
    {
        proof {
            use_type_invariant(&*self);
            lemma_low_byte(opcode);
        }
        let opcode_value = (opcode & 0xFF) as u8;
        self.v_registers[x as usize] = random & opcode_value;
    }
}

impl CPU {
    /// Skips the next instruction if key `Vx` is held down.
    fn skip_kp(&mut self, x: u16) -> (result: Result<(), Fault>)
        requires
            x < NUM_REGS,
            old(self)@.pc <= RAM_SIZE,
        ensures
            carried_out(old(self)@.key_skipped(x as int, true), old(self)@, final(self)@, result),
    {
        proof {
            use_type_invariant(&*self);
        }
        let key = self.v_registers[x as usize];
        if key as usize >= NUM_KEYS {
            return Err(Fault::KeyOutOfRange);
        }
        if self.keypad[key as usize] {
            self.program_counter += 2
        }
        Ok(())
    }

    /// Skips the next instruction if key `Vx` is not held down.
    fn skip_knp(&mut self, x: u16) -> (result: Result<(), Fault>)
        requires
            x < NUM_REGS,
            old(self)@.pc <= RAM_SIZE,
        ensures
            carried_out(old(self)@.key_skipped(x as int, false), old(self)@, final(self)@, result),
    {
        proof {
            use_type_invariant(&*self);
        }
        let key = self.v_registers[x as usize];
        if key as usize >= NUM_KEYS {
            return Err(Fault::KeyOutOfRange);
        }
        if !self.keypad[key as usize] {
            self.program_counter += 2
        }
        Ok(())
    }

    /// Sets `Vx` to the delay timer.
    fn vx_to_dt(&mut self, x: u16)
        requires
            x < NUM_REGS,
        ensures
            final(self)@ == old(self)@.with_register(x as int, old(self)@.delay),
    {
        proof {
            use_type_invariant(&*self);
        }
        self.v_registers[x as usize] = self.delay_timer;
    }

    /// Waits for a key: with none held down, puts the program counter back on
    /// this instruction, so that the next step runs it again.
    fn wait(&mut self, x: u16)
        requires
            x < NUM_REGS,
            old(self)@.pc >= 2,
        ensures
            final(self)@ == old(self)@.waited(x as int),
    {
        proof {
            use_type_invariant(&*self);
        }
        let mut pressed = false;
        let mut i: usize = 0;
        while i < NUM_KEYS
            invariant_except_break
                !pressed,
                self@ == old(self)@,
            invariant
                i <= NUM_KEYS,
                x < NUM_REGS,
                self.stack_pointer <= STACK_SIZE,
                self.keypad@ == old(self)@.keys,
                forall|j: int| 0 <= j < i ==> !old(self)@.keys[j],
            ensures
                pressed ==> i < NUM_KEYS && old(self)@.keys[i as int] && self@ == old(
                    self,
                )@.with_register(x as int, i as u8),
                !pressed ==> i == NUM_KEYS && self@ == old(self)@,
            decreases NUM_KEYS - i,
        {
            if self.keypad[i] {
                self.v_registers[x as usize] = i as u8;
                pressed = true;
                break ;
            }
            i += 1;
        }

        if !pressed {
            self.program_counter -= 2;
        }
        proof {
            let keys = old(self)@.keys;
            if pressed {
                assert(is_lowest_pressed(keys, i as int));
                let k = lowest_pressed(keys);
                assert(is_lowest_pressed(keys, k));
                assert(k == i);
            } else {
                assert(!any_pressed(keys));
            }
        }
    }

    /// Sets the delay timer to `Vx`.
    fn dt_to_vx(&mut self, x: u16)
        requires
            x < NUM_REGS,
        ensures
            final(self)@ == (Machine { delay: old(self)@.v[x as int], ..old(self)@ }),
    {
        proof {
            use_type_invariant(&*self);
        }
        self.delay_timer = self.v_registers[x as usize];
    }

    /// Sets the sound timer to `Vx`.
    fn st_to_vx(&mut self, x: u16)
        requires
            x < NUM_REGS,
        ensures
            final(self)@ == (Machine { sound: old(self)@.v[x as int], ..old(self)@ }),
    {
        proof {
            use_type_invariant(&*self);
        }
        self.sound_timer = self.v_registers[x as usize];
    }

    /// Adds `Vx` to the index register, wrapping.
    fn incr_i(&mut self, x: u16)
        requires
            x < NUM_REGS,
        ensures
            final(self)@ == (Machine {
                index: ((old(self)@.index + old(self)@.v[x as int]) % 0x10000) as u16,
                ..old(self)@
            }),
    {
        proof {
            use_type_invariant(&*self);
        }
        let increment_by = self.v_registers[x as usize] as u16;
        self.i_register = self.i_register.wrapping_add(increment_by);
    }

    /// Sets the index register to the address of the glyph for `Vx`.
    fn seti_font(&mut self, x: u16)
        requires
            x < NUM_REGS,
        ensures
            final(self)@ == (Machine { index: (old(self)@.v[x as int] * 5) as u16, ..old(self)@ }),
    {
        proof {
            use_type_invariant(&*self);
        }
        let number = self.v_registers[x as usize] as u16;
        self.i_register = number * 5;
    }

    /// Stores the three decimal digits of `Vx` at the index register.
    fn bcd(&mut self, x: u16) -> (result: Result<(), Fault>)
        requires
            x < NUM_REGS,
        ensures
            carried_out(old(self)@.decimal_stored(x as int), old(self)@, final(self)@, result),
    {
        proof {
            use_type_invariant(&*self);
        }
        let i = self.i_register as usize;
        if i + 2 >= RAM_SIZE {
            return Err(Fault::OutOfBounds);
        }
        let vx = self.v_registers[x as usize];

        let hundreds = vx / 100;
        let tens = (vx / 10) % 10;
        let units = vx % 10;

        self.ram[i] = hundreds;
        self.ram[i + 1] = tens;
        self.ram[i + 2] = units;
        assert(self@ =~= old(self)@.decimal_stored(x as int)->Ok_0);
        Ok(())
    }

    /// Stores `V0` to `Vx` in memory from the index register on.
    fn store_v(&mut self, x: u16) -> (result: Result<(), Fault>)
        requires
            x < NUM_REGS,
        ensures
            carried_out(old(self)@.registers_stored(x as int), old(self)@, final(self)@, result),
    {
        proof {
            use_type_invariant(&*self);
        }
        let i = self.i_register as usize;
        if i + x as usize >= RAM_SIZE {
            return Err(Fault::OutOfBounds);
        }
        let mut index: usize = 0;
        while index <= x as usize
            invariant
                index <= x + 1,
                x < NUM_REGS,
                i == old(self)@.index,
                i + x < RAM_SIZE,
                self.stack_pointer <= STACK_SIZE,
                self@ == (Machine { memory: self.ram@, ..old(self)@ }),
                forall|a: int|
                    0 <= a < RAM_SIZE ==> self.ram@[a] == if i <= a < i + index {
                        old(self)@.v[a - i]
                    } else {
                        old(self)@.memory[a]
                    },
            decreases x + 1 - index,
        {
            self.ram[i + index] = self.v_registers[index];
            index += 1;
        }
        assert(self@ =~= old(self)@.registers_stored(x as int)->Ok_0);
        Ok(())
    }

    /// Loads `V0` to `Vx` from memory from the index register on.
    fn load_v(&mut self, x: u16) -> (result: Result<(), Fault>)
        requires
            x < NUM_REGS,
        ensures
            carried_out(old(self)@.registers_loaded(x as int), old(self)@, final(self)@, result),
    {
        proof {
            use_type_invariant(&*self);
        }
        let i = self.i_register as usize;
        if i + x as usize >= RAM_SIZE {
            return Err(Fault::OutOfBounds);
        }
        let mut index: usize = 0;
        while index <= x as usize
            invariant
                index <= x + 1,
                x < NUM_REGS,
                i == old(self)@.index,
                i + x < RAM_SIZE,
                self.stack_pointer <= STACK_SIZE,
                self@ == (Machine { v: self.v_registers@, ..old(self)@ }),
                forall|r: int|
                    0 <= r < NUM_REGS ==> self.v_registers@[r] == if r < index {
                        old(self)@.memory[i + r]
                    } else {
                        old(self)@.v[r]
                    },
            decreases x + 1 - index,
        {
            self.v_registers[index] = self.ram[i + index];
            index += 1;
        }
        assert(self@ =~= old(self)@.registers_loaded(x as int)->Ok_0);
        Ok(())
    }
}

impl CPU {
    /// Reads the opcode under the program counter and moves the program
    /// counter past it.
    fn fetch(&mut self) -> (fetched: Result<u16, Fault>)
        ensures
            match fetched {
                Ok(opcode) => {
                    &&& old(self)@.can_fetch()
                    &&& opcode == old(self)@.opcode()
                    &&& final(self)@ == old(self)@.advanced(2)
                },
                Err(fault) => {
                    &&& !old(self)@.can_fetch()
                    &&& fault == Fault::OutOfBounds
                    &&& final(self)@ == old(self)@
                },
            },
    {
        proof {
            use_type_invariant(&*self);
        }
        if self.program_counter as usize + 1 >= RAM_SIZE {
            return Err(Fault::OutOfBounds);
        }
        let first_half = self.ram[self.program_counter as usize] as u16;
        let second_half = self.ram[(self.program_counter + 1) as usize] as u16;
        self.program_counter += 2;
        proof {
            lemma_big_endian(first_half as u8, second_half as u8);
        }
        Ok((first_half << 8) | second_half)
    }

    /// Splits an opcode into its four nibbles, most significant first.
    fn decode(opcode: u16) -> (nibbles: (u16, u16, u16, u16))
        ensures
            nibbles == digits(opcode),
    {
        proof {
            lemma_nibbles(opcode);
        }
        ((opcode & 0xF000) >> 12, (opcode & 0x0F00) >> 8, (opcode & 0x00F0) >> 4, (opcode & 0x000F))
    }

    /// Carries out the instruction `opcode`, whose nibbles are `digits`, with
    /// the program counter already past it.
    fn execute(&mut self, digits: (u16, u16, u16, u16), opcode: u16, random: u8) -> (result: Result<
        (),
        Fault,
    >)
        requires
            digits == crate::semantics::digits(opcode),
            2 <= old(self)@.pc <= RAM_SIZE,
        ensures
            carried_out(old(self)@.execute(opcode, random), old(self)@, final(self)@, result),
    {
        match digits {
            (0, 0, 0, 0) => Ok(()),
            (0, 0, 0xE, 0) => {
                self.cls();
                Ok(())
            },
            (0, 0, 0xE, 0xE) => self.ret(),
            (1, _, _, _) => {
                self.jmp(opcode);
                Ok(())
            },
            (2, _, _, _) => self.call(opcode),
            (3, _, _, _) => {
                self.skip_eq_nn(digits.1, opcode);
                Ok(())
            },
            (4, _, _, _) => {
                self.skip_neq_nn(digits.1, opcode);
                Ok(())
            },
            (5, _, _, 0) => {
                self.skip_eq_vy(digits.1, digits.2);
                Ok(())
            },
            (6, _, _, _) => {
                self.set_nn(digits.1, opcode);
                Ok(())
            },
            (7, _, _, _) => {
                self.incr_nn(digits.1, opcode);
                Ok(())
            },
            (8, _, _, 0) => {
                self.set_vy(digits.1, digits.2);
                Ok(())
            },
            (8, _, _, 1) => {
                self.or(digits.1, digits.2);
                Ok(())
            },
            (8, _, _, 2) => {
                self.and(digits.1, digits.2);
                Ok(())
            },
            (8, _, _, 3) => {
                self.xor(digits.1, digits.2);
                Ok(())
            },
            (8, _, _, 4) => {
                self.incr_vy(digits.1, digits.2);
                Ok(())
            },
            (8, _, _, 5) => {
                self.decr_vy(digits.1, digits.2);
                Ok(())
            },
            (8, _, _, 6) => {
                self.brs(digits.1);
                Ok(())
            },
            (8, _, _, 7) => {
                self.sub_vx(digits.1, digits.2);
                Ok(())
            },
            (8, _, _, 0xE) => {
                self.bls(digits.1);
                Ok(())
            },
            (9, _, _, 0) => {
                self.skip_neq_vy(digits.1, digits.2);
                Ok(())
            },
            (0xA, _, _, _) => {
                self.seti(opcode);
                Ok(())
            },
            (0xB, _, _, _) => {
                self.setpc(opcode);
                Ok(())
            },
            (0xC, _, _, _) => {
                self.rand(digits.1, opcode, random);
                Ok(())
            },
            (0xD, _, _, _) => self.draw(digits.1, digits.2, digits.3),
            (0xE, _, 9, 0xE) => self.skip_kp(digits.1),
            (0xE, _, 0xA, 1) => self.skip_knp(digits.1),
            (0xF, _, 0, 7) => {
                self.vx_to_dt(digits.1);
                Ok(())
            },
            (0xF, _, 0, 0xA) => {
                self.wait(digits.1);
                Ok(())
            },
            (0xF, _, 1, 5) => {
                self.dt_to_vx(digits.1);
                Ok(())
            },
            (0xF, _, 1, 8) => {
                self.st_to_vx(digits.1);
                Ok(())
            },
            (0xF, _, 1, 0xE) => {
                self.incr_i(digits.1);
                Ok(())
            },
            (0xF, _, 2, 9) => {
                self.seti_font(digits.1);
                Ok(())
            },
            (0xF, _, 3, 3) => self.bcd(digits.1),
            (0xF, _, 5, 5) => self.store_v(digits.1),
            (0xF, _, 6, 5) => self.load_v(digits.1),
            (_, _, _, _) => Err(Fault::Unimplemented { opcode, digits }),
        }
    }

    /// Whether the next instruction is the one that uses a random byte.
    fn next_draws_random(&self) -> (answer: bool)
        ensures
            answer == self@.draws_random(),
    {
        let pc = self.program_counter as usize;
        if pc + 1 >= RAM_SIZE {
            return false;
        }
        proof {
            lemma_high_nibble(self.ram@[pc as int]);
        }
        (self.ram[pc] >> 4) == 0xC
    }

    /// Executes one instruction, with `random` as the byte that the random
    /// instruction uses. On a fault nothing changes.
    pub fn tick_with(&mut self, random: u8) -> (result: Result<(), Fault>)
        ensures
            carried_out(old(self)@.step(random), old(self)@, final(self)@, result),
            final(self)@.wf(),
    {
        let opcode = match self.fetch() {
            Ok(opcode) => opcode,
            Err(fault) => {
                proof {
                    use_type_invariant(&*self);
                }
                return Err(fault);
            },
        };
        let digits = Self::decode(opcode);
        let result = self.execute(digits, opcode, random);
        proof {
            use_type_invariant(&*self);
        }
        if result.is_err() {
            self.program_counter -= 2;
        }
        result
    }

    /// Executes one instruction. Where it is the random instruction, the byte
    /// comes from the `rand` crate; the outcome is that of `tick_with` for
    /// some byte. On a fault nothing changes.
    pub fn tick(&mut self) -> (result: Result<(), Fault>)
        ensures
            exists|random: u8|
                carried_out(
                    #[trigger] old(self)@.step(random),
                    old(self)@,
                    final(self)@,
                    result,
                ),
            !old(self)@.draws_random() ==> carried_out(
                old(self)@.step(0),
                old(self)@,
                final(self)@,
                result,
            ),
            final(self)@.wf(),
    {
        let random = if self.next_draws_random() {
            random_byte()
        } else {
            0
        };
        self.tick_with(random)
    }
}

} // verus!
