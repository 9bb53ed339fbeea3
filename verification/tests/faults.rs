use chip8_core::{Fault, CPU};

fn ready(program: &[u8], steps: usize) -> CPU {
    let mut cpu = CPU::new();
    cpu.load_rom(program);
    for _ in 0..steps {
        assert_eq!(cpu.tick_with(0), Ok(()));
    }
    cpu
}

/// Steps once, expects `fault`, and checks that nothing has changed.
fn assert_faults(mut cpu: CPU, fault: Fault) {
    let pc = cpu.program_counter();
    let index = cpu.index_register();
    let depth = cpu.call_depth();
    let timers = (cpu.delay_timer(), cpu.sound_timer());
    let registers: Vec<u8> = (0..16).map(|x| cpu.register(x)).collect();
    let memory = cpu.get_memory().to_vec();
    let display = cpu.get_display().to_vec();

    assert_eq!(cpu.tick(), Err(fault));

    assert_eq!(cpu.program_counter(), pc);
    assert_eq!(cpu.index_register(), index);
    assert_eq!(cpu.call_depth(), depth);
    assert_eq!((cpu.delay_timer(), cpu.sound_timer()), timers);
    assert_eq!((0..16).map(|x| cpu.register(x)).collect::<Vec<u8>>(), registers);
    assert_eq!(cpu.get_memory(), &memory[..]);
    assert_eq!(cpu.get_display(), &display[..]);

    // The same step faults again in the same way.
    assert_eq!(cpu.tick_with(0x77), Err(fault));
    assert_eq!(cpu.program_counter(), pc);
}

#[test]
fn fetch_past_the_end_of_memory() {
    // The second byte of the opcode would be at 0x1000.
    assert_faults(ready(&[0x1F, 0xFF], 1), Fault::OutOfBounds);
    // Both bytes are past the end.
    assert_faults(ready(&[0x60, 0xFF, 0xBF, 0xFF], 2), Fault::OutOfBounds);
}

#[test]
fn fetch_of_the_last_opcode_in_memory() {
    let mut program = vec![0u8; 4096 - 0x200];
    program[0] = 0x1F;
    program[1] = 0xFE;
    program[0xDFE] = 0x6A;
    program[0xDFF] = 0x55;
    let mut cpu = ready(&program, 1);
    assert_eq!(cpu.program_counter(), 0xFFE);
    assert_eq!(cpu.tick(), Ok(()));
    assert_eq!(cpu.register(0xA), 0x55);
    assert_eq!(cpu.program_counter(), 0x1000);
    assert_faults(cpu, Fault::OutOfBounds);
}

#[test]
fn return_without_call() {
    assert_faults(ready(&[0x00, 0xEE], 0), Fault::StackUnderflow);
}

#[test]
fn return_after_the_last_return() {
    let cpu = ready(&[0x22, 0x02, 0x00, 0xEE, 0x00, 0xEE], 2);
    assert_eq!(cpu.program_counter(), 0x202);
    assert_faults(cpu, Fault::StackUnderflow);
}

#[test]
fn seventeenth_call() {
    // The instruction at 0x200 calls itself.
    let cpu = ready(&[0x22, 0x00], 16);
    assert_eq!(cpu.call_depth(), 16);
    assert_faults(cpu, Fault::StackOverflow);
}

#[test]
fn sixteen_calls_return_sixteen_times() {
    // Sixteen blocks of a call to the next block and a return, then one more return.
    let mut program = Vec::new();
    for k in 0..16u16 {
        let target = 0x200 + 4 * (k + 1);
        program.extend_from_slice(&[0x20 | (target >> 8) as u8, (target & 0xFF) as u8, 0x00, 0xEE]);
    }
    program.extend_from_slice(&[0x00, 0xEE]);
    let cpu = ready(&program, 16);
    assert_eq!((cpu.call_depth(), cpu.program_counter()), (16, 0x240));
    // Each return comes back to the return behind the call before.
    let cpu = ready(&program, 16 + 1);
    assert_eq!((cpu.call_depth(), cpu.program_counter()), (15, 0x23E));
    let cpu = ready(&program, 16 + 15);
    assert_eq!((cpu.call_depth(), cpu.program_counter()), (1, 0x206));
    let cpu = ready(&program, 16 + 16);
    assert_eq!((cpu.call_depth(), cpu.program_counter()), (0, 0x202));
    assert_faults(cpu, Fault::StackUnderflow);
}

#[test]
fn key_instruction_with_a_key_that_is_not_there() {
    assert_faults(ready(&[0x60, 0x10, 0xE0, 0x9E], 1), Fault::KeyOutOfRange);
    assert_faults(ready(&[0x60, 0x10, 0xE0, 0xA1], 1), Fault::KeyOutOfRange);
    assert_faults(ready(&[0x60, 0xFF, 0xE0, 0x9E], 1), Fault::KeyOutOfRange);
}

#[test]
fn unimplemented_opcode_reports_its_nibbles() {
    assert_faults(
        ready(&[0x5A, 0xB1], 0),
        Fault::Unimplemented { opcode: 0x5AB1, digits: (0x5, 0xA, 0xB, 0x1) },
    );
}

#[test]
fn every_opcode_outside_the_table_is_unimplemented() {
    let outside: [u16; 14] = [
        0x0001, 0x00E1, 0x00EF, 0x0123, 0x5001, 0x800F, 0x8128, 0x9001, 0xE09F, 0xE0A0, 0xF000, 0xF01F, 0xF056,
        0xFF66,
    ];
    for opcode in outside {
        let digits = (opcode >> 12, (opcode >> 8) & 0xF, (opcode >> 4) & 0xF, opcode & 0xF);
        assert_faults(
            ready(&[(opcode >> 8) as u8, (opcode & 0xFF) as u8], 0),
            Fault::Unimplemented { opcode, digits },
        );
    }
}

#[test]
fn draw_past_the_end_of_memory() {
    // Two rows from 0xFFF: the second would be at 0x1000.
    assert_faults(ready(&[0xAF, 0xFF, 0xD0, 0x02], 1), Fault::OutOfBounds);
    // One row at 0xFFF is inside.
    let mut cpu = ready(&[0xAF, 0xFF, 0xD0, 0x01], 1);
    assert_eq!(cpu.tick(), Ok(()));
}

#[test]
fn draw_that_faults_leaves_the_display() {
    // Glyph 0 at (0, 0), then fifteen rows from 0xFF8, of which the first eight are inside.
    let program = [0x60, 0xFF, 0xAF, 0xF8, 0xF0, 0x55, 0x60, 0x00, 0xA0, 0x00, 0xD0, 0x05, 0xAF, 0xF8, 0xD0, 0x0F];
    assert_faults(ready(&program, 7), Fault::OutOfBounds);
}

#[test]
fn decimal_store_past_the_end_of_memory() {
    assert_faults(ready(&[0x60, 0x7B, 0xAF, 0xFE, 0xF0, 0x33], 2), Fault::OutOfBounds);
    assert_faults(ready(&[0x60, 0x7B, 0xAF, 0xFF, 0xF0, 0x33], 2), Fault::OutOfBounds);
}

#[test]
fn register_store_past_the_end_of_memory() {
    assert_faults(ready(&[0x60, 0x11, 0x61, 0x22, 0xAF, 0xFF, 0xF1, 0x55], 3), Fault::OutOfBounds);
    let mut cpu = ready(&[0x60, 0x11, 0x61, 0x22, 0xAF, 0xFF, 0xF0, 0x55], 3);
    assert_eq!(cpu.tick(), Ok(()));
    assert_eq!(cpu.get_memory()[0xFFF], 0x11);
}

#[test]
fn register_load_past_the_end_of_memory() {
    assert_faults(ready(&[0x61, 0x22, 0xAF, 0xFF, 0xF1, 0x65], 2), Fault::OutOfBounds);
    assert_faults(ready(&[0xAF, 0xF1, 0xFF, 0x65], 1), Fault::OutOfBounds);
    let mut cpu = ready(&[0xAF, 0xF0, 0xFF, 0x65], 1);
    assert_eq!(cpu.tick(), Ok(()));
}

#[test]
fn index_register_far_past_the_end_of_memory() {
    // I = 0xFFF + 255.
    let program = [0xAF, 0xFF, 0x60, 0xFF, 0xF0, 0x1E, 0xF0, 0x33];
    assert_faults(ready(&program, 3), Fault::OutOfBounds);
    let program = [0xAF, 0xFF, 0x60, 0xFF, 0xF0, 0x1E, 0xF0, 0x55];
    assert_faults(ready(&program, 3), Fault::OutOfBounds);
    let program = [0xAF, 0xFF, 0x60, 0xFF, 0xF0, 0x1E, 0xF0, 0x65];
    assert_faults(ready(&program, 3), Fault::OutOfBounds);
    let program = [0xAF, 0xFF, 0x60, 0xFF, 0xF0, 0x1E, 0xD0, 0x01];
    assert_faults(ready(&program, 3), Fault::OutOfBounds);
}

#[test]
fn reset_recovers_from_a_fault() {
    let mut cpu = ready(&[0x00, 0xEE], 0);
    assert_eq!(cpu.tick(), Err(Fault::StackUnderflow));
    cpu.reset();
    cpu.load_rom(&[0x60, 0x01]);
    assert_eq!(cpu.tick(), Ok(()));
    assert_eq!(cpu.register(0), 1);
}
