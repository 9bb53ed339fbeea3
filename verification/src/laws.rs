//! What holds of the instruction set as a whole, proved from the model.

use vstd::prelude::*;
use crate::machine::{Machine, MAX_ROM_SIZE, NUM_REGS, RAM_SIZE, SCREEN_SIZE, START_ADDRESS};
use crate::fault::Fault;
use crate::semantics::{address, any_pressed, digits, is_lowest_pressed, low_byte, lowest_pressed};

verus! {

/// An opcode put together from four nibbles comes apart into the same four,
/// and its operands are made of the lower ones.
pub proof fn lemma_digits(opcode: u16, n1: int, n2: int, n3: int, n4: int)
    requires
        0 <= n1 < 16,
        0 <= n2 < 16,
        0 <= n3 < 16,
        0 <= n4 < 16,
        opcode == 0x1000 * n1 + 0x100 * n2 + 0x10 * n3 + n4,
    ensures
        digits(opcode) == (n1 as u16, n2 as u16, n3 as u16, n4 as u16),
        low_byte(opcode) == 0x10 * n3 + n4,
        address(opcode) == 0x100 * n2 + 0x10 * n3 + n4,
{
    let a = n1 as u16;
    let b = n2 as u16;
    let c = n3 as u16;
    let d = n4 as u16;
    assert(opcode / 0x1000 == a && (opcode / 0x100) % 16 == b && (opcode / 0x10) % 16 == c
        && opcode % 16 == d && opcode % 0x100 == 0x10 * c + d && opcode % 0x1000 == 0x100 * b
        + 0x10 * c + d) by (bit_vector)
        requires
            a < 16,
            b < 16,
            c < 16,
            d < 16,
            opcode == 0x1000 * a + 0x100 * b + 0x10 * c + d,
    ;
}

/// A step takes a well-formed machine to a well-formed machine: in
/// particular the call depth never passes sixteen.
pub proof fn lemma_step_preserves_wf(s: Machine, random: u8)
    requires
        s.wf(),
        s.step(random) is Ok,
    ensures
        s.step(random)->Ok_0.wf(),
{
}

/// The add instruction `8xy4` sets the flag to 1 exactly when the sum of
/// `Vx` and `Vy` passes 255, and to 0 otherwise. Unless `x` names the flag
/// register itself, it leaves the sum modulo 256 in `Vx`.
pub proof fn lemma_add_sets_carry(s: Machine, x: int, y: int, random: u8)
    requires
        s.wf(),
        0 <= x < NUM_REGS,
        0 <= y < NUM_REGS,
        s.can_fetch(),
        s.opcode() == 0x8004 + 0x100 * x + 0x10 * y,
    ensures
        s.step(random) is Ok,
        s.step(random)->Ok_0.v[0xF] == 1 <==> s.v[x] + s.v[y] > 255,
        s.step(random)->Ok_0.v[0xF] == 0 <==> s.v[x] + s.v[y] <= 255,
        x != 0xF ==> s.step(random)->Ok_0.v[x] == (s.v[x] + s.v[y]) % 256,
        s.step(random)->Ok_0.pc == s.pc + 2,
{
    lemma_digits(s.opcode(), 8, x, y, 4);
}

/// The subtract instruction `8xy5` sets the flag to 0 exactly when `Vx` is
/// less than `Vy`, and to 1 otherwise. Unless `x` names the flag register
/// itself, it leaves the difference modulo 256 in `Vx`.
pub proof fn lemma_subtract_sets_borrow(s: Machine, x: int, y: int, random: u8)
    requires
        s.wf(),
        0 <= x < NUM_REGS,
        0 <= y < NUM_REGS,
        s.can_fetch(),
        s.opcode() == 0x8005 + 0x100 * x + 0x10 * y,
    ensures
        s.step(random) is Ok,
        s.step(random)->Ok_0.v[0xF] == 0 <==> s.v[x] < s.v[y],
        s.step(random)->Ok_0.v[0xF] == 1 <==> s.v[x] >= s.v[y],
        x != 0xF ==> s.step(random)->Ok_0.v[x] == (s.v[x] - s.v[y]) % 256,
        s.step(random)->Ok_0.pc == s.pc + 2,
{
    lemma_digits(s.opcode(), 8, x, y, 5);
}

/// The right shift `8xy6` sets the flag to the lowest bit that `Vx` had, and
/// the outcome is the same whatever `y` is.
pub proof fn lemma_shift_right_flag(s: Machine, x: int, y: int, random: u8)
    requires
        s.wf(),
        0 <= x < NUM_REGS,
        0 <= y < NUM_REGS,
        s.can_fetch(),
        s.opcode() == 0x8006 + 0x100 * x + 0x10 * y,
    ensures
        s.step(random) == Ok::<Machine, Fault>(s.advanced(2).shifted_right(x)),
        s.step(random)->Ok_0.v[0xF] == s.v[x] % 2,
        x != 0xF ==> s.step(random)->Ok_0.v[x] == s.v[x] / 2,
{
    lemma_digits(s.opcode(), 8, x, y, 6);
}

/// The left shift `8xyE` sets the flag to the highest bit that `Vx` had, and
/// the outcome is the same whatever `y` is.
pub proof fn lemma_shift_left_flag(s: Machine, x: int, y: int, random: u8)
    requires
        s.wf(),
        0 <= x < NUM_REGS,
        0 <= y < NUM_REGS,
        s.can_fetch(),
        s.opcode() == 0x800E + 0x100 * x + 0x10 * y,
    ensures
        s.step(random) == Ok::<Machine, Fault>(s.advanced(2).shifted_left(x)),
        s.step(random)->Ok_0.v[0xF] == s.v[x] / 128,
        x != 0xF ==> s.step(random)->Ok_0.v[x] == (s.v[x] * 2) % 256,
{
    lemma_digits(s.opcode(), 8, x, y, 0xE);
}

/// What a shift leaves in the flag and in `Vx` does not depend on the value
/// of any other register: put any `value` in a register `r` other than `Vx`
/// before the step, and the flag comes out the same, and so does `Vx`.
pub proof fn lemma_shift_ignores_other_registers(
    s: Machine,
    x: int,
    y: int,
    r: int,
    value: u8,
    random: u8,
)
    requires
        s.wf(),
        0 <= x < NUM_REGS,
        0 <= y < NUM_REGS,
        0 <= r < NUM_REGS,
        r != x,
        s.can_fetch(),
        s.opcode() == 0x8006 + 0x100 * x + 0x10 * y || s.opcode() == 0x800E + 0x100 * x + 0x10
            * y,
    ensures
        s.step(random) is Ok,
        s.with_register(r, value).step(random) is Ok,
        s.with_register(r, value).step(random)->Ok_0.v[0xF] == s.step(random)->Ok_0.v[0xF],
        s.with_register(r, value).step(random)->Ok_0.v[x] == s.step(random)->Ok_0.v[x],
{
    let t = s.with_register(r, value);
    assert(t.opcode() == s.opcode());
    if s.opcode() == 0x8006 + 0x100 * x + 0x10 * y {
        lemma_digits(s.opcode(), 8, x, y, 6);
    } else {
        lemma_digits(s.opcode(), 8, x, y, 0xE);
    }
}

/// Where a sprite falls depends on its origin only up to a whole number of
/// display widths and heights.
pub proof fn lemma_wrapped_origin(cell: int, vx: u8, vy: u8, wx: u8, wy: u8)
    requires
        wx % 64 == vx % 64,
        wy % 32 == vy % 32,
    ensures
        Machine::sprite_row(cell, wy) == Machine::sprite_row(cell, vy),
        Machine::sprite_col(cell, wx) == Machine::sprite_col(cell, vx),
{
}

/// Drawing a sprite twice at the same position puts the display back as it
/// was. The second draw sets the flag to 1 exactly when the first one lit a
/// pixel, which the second then turns off, and to 0 otherwise.
///
/// The first draw writes the flag register, so where `x` or `y` names that
/// register the second draw may start elsewhere; the law is for draws that
/// start on the same cell.
pub proof fn lemma_draw_twice_restores(s: Machine, x: int, y: int, rows: int)
    requires
        s.wf(),
        0 <= x < NUM_REGS,
        0 <= y < NUM_REGS,
        0 <= rows < 16,
        s.drawn(x, y, rows) is Ok,
        s.drawn(x, y, rows)->Ok_0.v[x] % 64 == s.v[x] % 64,
        s.drawn(x, y, rows)->Ok_0.v[y] % 32 == s.v[y] % 32,
    ensures
        s.drawn(x, y, rows)->Ok_0.drawn(x, y, rows) is Ok,
        s.drawn(x, y, rows)->Ok_0.drawn(x, y, rows)->Ok_0.screen == s.screen,
        s.drawn(x, y, rows)->Ok_0.drawn(x, y, rows)->Ok_0.v[0xF] == if s.sprite_lights(
            s.v[x],
            s.v[y],
            rows,
        ) {
            1u8
        } else {
            0u8
        },
{
    let once = s.drawn(x, y, rows)->Ok_0;
    let twice = once.drawn(x, y, rows)->Ok_0;
    let vx = s.v[x];
    let vy = s.v[y];
    let wx = once.v[x];
    let wy = once.v[y];
    assert forall|cell: int| 0 <= cell < SCREEN_SIZE implies #[trigger] once.sprite_covers(
        wx,
        wy,
        rows,
        cell,
    ) == s.sprite_covers(vx, vy, rows, cell) by {
        lemma_wrapped_origin(cell, vx, vy, wx, wy);
    }
    assert(twice.screen =~= s.screen);
    if once.sprite_collides(wx, wy, rows) {
        let cell = choose|cell: int|
            0 <= cell < SCREEN_SIZE && once.screen[cell] && #[trigger] once.sprite_covers(
                wx,
                wy,
                rows,
                cell,
            );
        assert(s.sprite_covers(vx, vy, rows, cell));
        assert(!s.screen[cell]);
    }
    if s.sprite_lights(vx, vy, rows) {
        let cell = choose|cell: int|
            0 <= cell < SCREEN_SIZE && !s.screen[cell] && #[trigger] s.sprite_covers(
                vx,
                vy,
                rows,
                cell,
            );
        assert(once.screen[cell]);
        assert(once.sprite_covers(wx, wy, rows, cell));
    }
}

/// The draw instruction `Dxyn` executed twice in a row from the same
/// position: the display is put back, and the flag tells whether the first
/// draw lit a pixel.
pub proof fn lemma_draw_instruction_twice(
    s: Machine,
    opcode: u16,
    x: int,
    y: int,
    rows: int,
    random: u8,
)
    requires
        s.wf(),
        0 <= x < NUM_REGS,
        0 <= y < NUM_REGS,
        0 <= rows < 16,
        opcode == 0xD000 + 0x100 * x + 0x10 * y + rows,
        s.execute(opcode, random) is Ok,
        s.execute(opcode, random)->Ok_0.v[x] % 64 == s.v[x] % 64,
        s.execute(opcode, random)->Ok_0.v[y] % 32 == s.v[y] % 32,
    ensures
        s.execute(opcode, random)->Ok_0.execute(opcode, random) is Ok,
        s.execute(opcode, random)->Ok_0.execute(opcode, random)->Ok_0.screen == s.screen,
        s.execute(opcode, random)->Ok_0.execute(opcode, random)->Ok_0.v[0xF] == if s.sprite_lights(
            s.v[x],
            s.v[y],
            rows,
        ) {
            1u8
        } else {
            0u8
        },
{
    lemma_digits(opcode, 0xD, x, y, rows);
    assert(s.execute(opcode, random) == s.drawn(x, y, rows));
    let once = s.drawn(x, y, rows)->Ok_0;
    assert(once.execute(opcode, random) == once.drawn(x, y, rows));
    lemma_draw_twice_restores(s, x, y, rows);
}

/// Loading a program into a machine at power-on changes nothing but the
/// bytes from the start address on that the program fills. Since `reset`
/// leaves the machine at power-on whatever it held, a reset followed by a
/// load gives the same machine as a new interpreter followed by that load.
pub proof fn lemma_load_after_reset(program: Seq<u8>)
    requires
        program.len() <= MAX_ROM_SIZE,
    ensures
        Machine::initial().loaded(program).wf(),
        Machine::initial().loaded(program) == (Machine {
            memory: Machine::initial().loaded(program).memory,
            ..Machine::initial()
        }),
        forall|a: int|
            0 <= a < RAM_SIZE ==> #[trigger] Machine::initial().loaded(program).memory[a] == if START_ADDRESS
                <= a < START_ADDRESS + program.len() {
                program[a - START_ADDRESS]
            } else {
                Machine::initial().memory[a]
            },
{
}

/// Only the random instruction looks at the random byte.
pub proof fn lemma_step_ignores_random(s: Machine, random: u8, other: u8)
    requires
        !s.draws_random(),
    ensures
        s.step(random) == s.step(other),
{
}

/// A run is determined by the machine it starts from and by the bytes that
/// its random instructions use: a run that executes no random instruction
/// gives the same outcome whatever bytes it is offered.
pub proof fn lemma_run_ignores_unused_randoms(s: Machine, randoms: Seq<u8>, others: Seq<u8>)
    requires
        randoms.len() == others.len(),
        !s.run_draws_random(randoms),
    ensures
        s.run(randoms) == s.run(others),
        !s.run_draws_random(others),
    decreases randoms.len(),
{
    if randoms.len() > 0 {
        lemma_step_ignores_random(s, randoms[0], others[0]);
        match s.step(randoms[0]) {
            Ok(next) => {
                lemma_run_ignores_unused_randoms(next, randoms.skip(1), others.skip(1));
            },
            Err(_) => {},
        }
    }
}

/// The key wait `Fx0A` with no key held down changes nothing at all: the
/// program counter ends where it was and no register is written, however
/// often the step is repeated.
pub proof fn lemma_key_wait_blocks(s: Machine, x: int, first: u8, second: u8)
    requires
        s.wf(),
        0 <= x < NUM_REGS,
        s.can_fetch(),
        s.opcode() == 0xF00A + 0x100 * x,
        !any_pressed(s.keys),
    ensures
        s.step(first) == Ok::<Machine, Fault>(s),
        s.step(first)->Ok_0.step(second) == Ok::<Machine, Fault>(s),
{
    lemma_digits(s.opcode(), 0xF, x, 0, 0xA);
    assert(s.advanced(2).advanced(-2) == s);
}

/// The key wait `Fx0A` with a key held down moves the program counter past
/// the instruction and leaves the lowest-numbered such key in `Vx`.
pub proof fn lemma_key_wait_resumes(s: Machine, x: int, key: int, random: u8)
    requires
        s.wf(),
        0 <= x < NUM_REGS,
        s.can_fetch(),
        s.opcode() == 0xF00A + 0x100 * x,
        is_lowest_pressed(s.keys, key),
    ensures
        s.step(random) == Ok::<Machine, Fault>(s.advanced(2).with_register(x, key as u8)),
        s.step(random)->Ok_0.pc == s.pc + 2,
        s.step(random)->Ok_0.v[x] == key,
{
    lemma_digits(s.opcode(), 0xF, x, 0, 0xA);
    assert(any_pressed(s.keys));
    let k = lowest_pressed(s.keys);
    assert(is_lowest_pressed(s.keys, k));
    assert(k == key);
}

} // verus!
