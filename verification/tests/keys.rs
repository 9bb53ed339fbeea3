use chip8_core::{convert_keycode, CPU};

#[test]
fn layout_follows_the_four_rows() {
    let rows = [("1234", [0x1, 0x2, 0x3, 0xC]), ("qwer", [0x4, 0x5, 0x6, 0xD]), ("asdf", [0x7, 0x8, 0x9, 0xE]), ("zxcv", [0xA, 0x0, 0xB, 0xF])];
    for (keys, indices) in rows {
        for (key, index) in keys.chars().zip(indices) {
            assert_eq!(convert_keycode(key), Some(index));
        }
    }
}

#[test]
fn layout_reaches_every_key_once() {
    let mut reached = [0usize; 16];
    for code in 0..=0x10FFFFu32 {
        if let Some(key) = char::from_u32(code) {
            if let Some(index) = convert_keycode(key) {
                reached[index] += 1;
            }
        }
    }
    assert_eq!(reached, [1; 16]);
}

#[test]
fn other_characters_stand_for_no_key() {
    for key in ['0', '5', '9', 'Q', 'A', 'V', 'b', 'g', 't', ' ', '\n', 'é'] {
        assert_eq!(convert_keycode(key), None);
    }
}

#[test]
fn keypress_sets_and_clears_one_key() {
    for index in 0..16usize {
        // V0 = index; skip if key V0 is down.
        let program = [0x60, index as u8, 0xE0, 0x9E, 0x12, 0x02, 0x12, 0x02];
        let mut cpu = CPU::new();
        cpu.load_rom(&program);
        assert_eq!(cpu.tick(), Ok(()));
        for other in 0..16usize {
            if other != index {
                cpu.keypress(other, true);
            }
        }
        assert_eq!(cpu.tick(), Ok(()));
        assert_eq!(cpu.program_counter(), 0x204);
        assert_eq!(cpu.tick(), Ok(()));
        assert_eq!(cpu.program_counter(), 0x202);
        cpu.keypress(index, true);
        assert_eq!(cpu.tick(), Ok(()));
        assert_eq!(cpu.program_counter(), 0x206);
        assert_eq!(cpu.tick(), Ok(()));
        cpu.keypress(index, false);
        assert_eq!(cpu.tick(), Ok(()));
        assert_eq!(cpu.program_counter(), 0x204);
    }
}

#[test]
fn keypress_through_the_layout() {
    let mut cpu = CPU::new();
    cpu.load_rom(&[0xF0, 0x0A]);
    if let Some(index) = convert_keycode('v') {
        cpu.keypress(index, true);
    }
    if let Some(index) = convert_keycode('p') {
        cpu.keypress(index, true);
    }
    assert_eq!(cpu.tick(), Ok(()));
    assert_eq!(cpu.register(0), 0xF);
}
