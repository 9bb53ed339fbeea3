use chip8_core::{pixel_rect, CPU, SCREEN_HEIGHT, SCREEN_WIDTH};

fn drawn(program: &[u8], steps: usize) -> CPU {
    let mut cpu = CPU::new();
    cpu.load_rom(program);
    for _ in 0..steps {
        assert_eq!(cpu.tick_with(0), Ok(()));
    }
    cpu
}

fn lit_cells(cpu: &CPU) -> Vec<(usize, usize)> {
    let display = cpu.get_display();
    let mut cells = Vec::new();
    for y in 0..SCREEN_HEIGHT {
        for x in 0..SCREEN_WIDTH {
            if display[x + SCREEN_WIDTH * y] {
                cells.push((x, y));
            }
        }
    }
    cells
}

/// The cells of the glyph for 0 with its top left corner at (`x`, `y`).
fn glyph_zero_at(x: usize, y: usize) -> Vec<(usize, usize)> {
    let rows: [&[usize]; 5] = [&[0, 1, 2, 3], &[0, 3], &[0, 3], &[0, 3], &[0, 1, 2, 3]];
    let mut cells = Vec::new();
    for (dy, row) in rows.iter().enumerate() {
        for dx in row.iter() {
            cells.push(((x + dx) % SCREEN_WIDTH, (y + dy) % SCREEN_HEIGHT));
        }
    }
    cells.sort_by_key(|cell| (cell.1, cell.0));
    cells
}

#[test]
fn scenario_clear_screen() {
    // Light pixel (0, 0) and its neighbours with one row of a glyph, then go back to the start.
    let mut cpu = drawn(&[0xA0, 0x00, 0xD0, 0x01, 0x12, 0x00], 3);
    assert!(cpu.get_display()[0]);
    cpu.load_rom(&[0x00, 0xE0]);
    assert_eq!(cpu.tick(), Ok(()));
    assert!(cpu.get_display().iter().all(|lit| !lit));
    assert_eq!(cpu.get_display().len(), 2048);
    assert_eq!(cpu.program_counter(), 0x202);
}

#[test]
fn draw_glyph_at_the_origin() {
    let cpu = drawn(&[0xA0, 0x00, 0xD0, 0x05], 2);
    assert_eq!(lit_cells(&cpu), glyph_zero_at(0, 0));
    assert_eq!(cpu.register(0xF), 0);
    assert_eq!(cpu.index_register(), 0);
}

#[test]
fn draw_one_row_most_significant_bit_first() {
    // The first row of the glyph for 1 is 0x20: only the third pixel is set.
    let cpu = drawn(&[0xA0, 0x05, 0xD0, 0x01], 2);
    assert_eq!(lit_cells(&cpu), vec![(2, 0)]);
}

#[test]
fn draw_at_a_position() {
    let cpu = drawn(&[0x61, 0x0A, 0x62, 0x14, 0xA0, 0x00, 0xD1, 0x25], 4);
    assert_eq!(lit_cells(&cpu), glyph_zero_at(10, 20));
    assert!(cpu.get_display()[10 + 64 * 20]);
}

#[test]
fn draw_wraps_round_the_right_edge() {
    let cpu = drawn(&[0x61, 0x3E, 0x62, 0x00, 0xA0, 0x00, 0xD1, 0x25], 4);
    assert_eq!(lit_cells(&cpu), glyph_zero_at(62, 0));
    assert!(cpu.get_display()[1]);
    assert!(cpu.get_display()[62]);
}

#[test]
fn draw_wraps_round_the_bottom_edge() {
    let cpu = drawn(&[0x61, 0x00, 0x62, 0x1E, 0xA0, 0x00, 0xD1, 0x25], 4);
    assert_eq!(lit_cells(&cpu), glyph_zero_at(0, 30));
    assert!(cpu.get_display()[64 * 30]);
    assert!(cpu.get_display()[64 * 2]);
}

#[test]
fn draw_takes_the_position_modulo_the_display() {
    // (200, 100) is (8, 4) on a display of 64 by 32.
    let cpu = drawn(&[0x61, 0xC8, 0x62, 0x64, 0xA0, 0x00, 0xD1, 0x25], 4);
    assert_eq!(lit_cells(&cpu), glyph_zero_at(8, 4));
}

#[test]
fn draw_of_no_rows_changes_nothing_but_the_flag() {
    let cpu = drawn(&[0x6F, 0x01, 0xA0, 0x00, 0xD0, 0x00], 3);
    assert!(lit_cells(&cpu).is_empty());
    assert_eq!(cpu.register(0xF), 0);
}

#[test]
fn draw_of_no_rows_reads_no_memory() {
    // I = 0xFFF + 255 is past the end of memory, but no row is read.
    let cpu = drawn(&[0xAF, 0xFF, 0x60, 0xFF, 0xF0, 0x1E, 0x60, 0x00, 0xD0, 0x00], 5);
    assert_eq!(cpu.index_register(), 0x10FE);
    assert!(lit_cells(&cpu).is_empty());
}

#[test]
fn draw_of_fifteen_rows() {
    // Three glyphs on top of each other: 0, 1, 2.
    let cpu = drawn(&[0xA0, 0x00, 0xD0, 0x0F], 2);
    let display = cpu.get_display();
    let memory = cpu.get_memory();
    for row in 0..15 {
        for col in 0..8 {
            assert_eq!(display[col + 64 * row], memory[row] & (0x80 >> col) != 0);
        }
    }
    assert_eq!(lit_cells(&cpu).len(), memory[..15].iter().map(|b| b.count_ones() as usize).sum::<usize>());
}

#[test]
fn draw_at_the_last_byte_of_memory() {
    let cpu = drawn(&[0x60, 0xFF, 0xAF, 0xFF, 0xF0, 0x55, 0x60, 0x00, 0xD0, 0x01], 5);
    assert_eq!(lit_cells(&cpu), (0..8).map(|x| (x, 0)).collect::<Vec<_>>());
}

#[test]
fn draw_twice_restores_the_display() {
    let once = drawn(&[0x61, 0x3D, 0x62, 0x1D, 0xA0, 0x00, 0xD1, 0x25, 0xD1, 0x25], 4);
    assert_eq!(lit_cells(&once), glyph_zero_at(61, 29));
    assert_eq!(once.register(0xF), 0);
    let twice = drawn(&[0x61, 0x3D, 0x62, 0x1D, 0xA0, 0x00, 0xD1, 0x25, 0xD1, 0x25], 5);
    assert!(lit_cells(&twice).is_empty());
    assert_eq!(twice.register(0xF), 1);
}

#[test]
fn draw_twice_restores_a_display_that_was_not_empty() {
    // Glyph 0 at (0, 0), then glyph 8 at (2, 1) twice.
    let program = [0xA0, 0x00, 0xD0, 0x05, 0x61, 0x02, 0x62, 0x01, 0xA0, 0x28, 0xD1, 0x25, 0xD1, 0x25];
    let before = drawn(&program, 5);
    let once = drawn(&program, 6);
    let twice = drawn(&program, 7);
    assert_ne!(once.get_display(), before.get_display());
    assert_eq!(twice.get_display(), before.get_display());
    // The first draw both erased and lit pixels; the second erases what the first lit.
    assert_eq!(once.register(0xF), 1);
    assert_eq!(twice.register(0xF), 1);
}

#[test]
fn second_draw_does_not_collide_where_the_first_lit_nothing() {
    // Glyph 0 at (0, 0), then its top row again twice: the first erases the row, the second
    // lights it again.
    let program = [0xA0, 0x00, 0xD0, 0x05, 0xD0, 0x01, 0xD0, 0x01];
    let before = drawn(&program, 2);
    let once = drawn(&program, 3);
    let twice = drawn(&program, 4);
    assert_eq!(once.register(0xF), 1);
    assert_eq!(twice.register(0xF), 0);
    assert_eq!(twice.get_display(), before.get_display());
}

#[test]
fn collision_flag_is_set_only_on_overlap() {
    // Glyph 0 at (0, 0) and at (8, 0) do not touch.
    let cpu = drawn(&[0xA0, 0x00, 0xD0, 0x05, 0x61, 0x08, 0xD1, 0x05], 4);
    assert_eq!(cpu.register(0xF), 0);
    assert_eq!(lit_cells(&cpu).len(), 28);
    // At (3, 0) the left column of the second falls on the right column of the first.
    let cpu = drawn(&[0xA0, 0x00, 0xD0, 0x05, 0x61, 0x03, 0xD1, 0x05], 4);
    assert_eq!(cpu.register(0xF), 1);
    assert_eq!(lit_cells(&cpu).len(), 28 - 2 * 5);
}

#[test]
fn draw_with_the_flag_register_as_coordinate() {
    // VF = 5 gives the column; the draw then writes the flag.
    let cpu = drawn(&[0x6F, 0x05, 0xA0, 0x00, 0xDF, 0x05], 3);
    assert_eq!(lit_cells(&cpu), glyph_zero_at(5, 0));
    assert_eq!(cpu.register(0xF), 0);
}

#[test]
fn pixel_rect_scales_column_and_row() {
    assert_eq!(pixel_rect(0, 15), (0, 0, 15, 15));
    assert_eq!(pixel_rect(1, 15), (15, 0, 15, 15));
    assert_eq!(pixel_rect(63, 15), (945, 0, 15, 15));
    assert_eq!(pixel_rect(64, 15), (0, 15, 15, 15));
    assert_eq!(pixel_rect(10 + 64 * 20, 3), (30, 60, 3, 3));
    assert_eq!(pixel_rect(2047, 1), (63, 31, 1, 1));
    assert_eq!(pixel_rect(2047, 0), (0, 0, 0, 0));
}
