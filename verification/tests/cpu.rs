use chip8::cpu::Cpu;
use chip8::machine::{CpuError, FONT};

fn boot(program: &[u8]) -> Cpu {
    let mut cpu = Cpu::new();
    assert_eq!(cpu.load(program), 0);
    cpu
}

fn run(program: &[u8], steps: usize) -> Cpu {
    let mut cpu = boot(program);
    for _ in 0..steps {
        assert_eq!(cpu.tick(), Ok(()));
    }
    cpu
}

fn lit(cpu: &Cpu) -> Vec<(usize, usize)> {
    let mut found: Vec<(usize, usize)> = Vec::new();
    for y in 0..32usize {
        for x in 0..64usize {
            if cpu.get_display().pixel(x, y) {
                found.push((x, y));
            }
        }
    }
    found
}

fn same_state(a: &Cpu, b: &Cpu) -> bool {
    a.pc() == b.pc()
        && a.index() == b.index()
        && a.registers() == b.registers()
        && a.memory()[..] == b.memory()[..]
        && a.stack() == b.stack()
        && a.stack_pointer() == b.stack_pointer()
        && a.delay_timer() == b.delay_timer()
        && a.get_display().pixels == b.get_display().pixels
}

#[test]
fn new_machine_holds_the_font_and_starts_at_0x200() {
    let cpu = Cpu::new();
    assert_eq!(cpu.pc(), 0x200);
    assert_eq!(cpu.index(), 0);
    assert_eq!(cpu.registers(), &[0u8; 16]);
    assert_eq!(cpu.stack_pointer(), 0);
    assert!(cpu.stack().is_empty());
    assert_eq!(cpu.delay_timer(), 0);
    assert_eq!(&cpu.memory()[..80], &FONT[..]);
    assert!(cpu.memory()[80..].iter().all(|b| *b == 0));
    assert_eq!(lit(&cpu), vec![]);
    assert_eq!(&cpu.memory()[0..5], &[0xF0, 0x90, 0x90, 0x90, 0xF0]);
    assert_eq!(&cpu.memory()[75..80], &[0xF0, 0x80, 0xF0, 0x80, 0x80]);
}

#[test]
fn load_copies_the_program_to_0x200_and_touches_nothing_else() {
    let mut cpu = Cpu::new();
    let dropped = cpu.load(&[0x12, 0x34, 0x56]);
    assert_eq!(dropped, 0);
    assert_eq!(&cpu.memory()[0x200..0x204], &[0x12, 0x34, 0x56, 0x00]);
    assert_eq!(&cpu.memory()[..80], &FONT[..]);
    assert!(cpu.memory()[80..0x200].iter().all(|b| *b == 0));
    assert_eq!(cpu.pc(), 0x200);
    assert_eq!(cpu.registers(), &[0u8; 16]);
    assert_eq!(cpu.stack_pointer(), 0);
}

#[test]
fn load_of_nothing_changes_nothing() {
    let mut cpu = Cpu::new();
    let fresh = Cpu::new();
    assert_eq!(cpu.load(&[]), 0);
    assert!(same_state(&cpu, &fresh));
}

#[test]
fn load_of_5000_bytes_is_cut_off_at_the_last_address() {
    let rom: Vec<u8> = (0..5000usize).map(|i| (i % 251) as u8 + 1).collect();
    let mut cpu = Cpu::new();
    let dropped = cpu.load(&rom);
    assert_eq!(dropped, 5000 - 3584);
    assert_eq!(dropped, 1416);
    assert_eq!(&cpu.memory()[0x200..], &rom[..3584]);
    assert_eq!(cpu.memory()[4095], rom[3583]);
    assert_eq!(&cpu.memory()[..80], &FONT[..]);
    assert_eq!(cpu.pc(), 0x200);
}

#[test]
fn load_that_fits_exactly_drops_nothing() {
    let rom: Vec<u8> = vec![0xAB; 3584];
    let mut cpu = Cpu::new();
    assert_eq!(cpu.load(&rom), 0);
    assert_eq!(cpu.memory()[4095], 0xAB);
    let longer: Vec<u8> = vec![0xCD; 3585];
    assert_eq!(cpu.load(&longer), 1);
    assert_eq!(cpu.memory()[4095], 0xCD);
}

#[test]
fn clear_screen_turns_every_pixel_off() {
    // I = 0 (glyph 0), draw it, clear.
    let mut cpu = run(&[0xA0, 0x00, 0xD0, 0x05, 0x00, 0xE0], 2);
    assert!(!lit(&cpu).is_empty());
    assert_eq!(cpu.tick(), Ok(()));
    assert_eq!(lit(&cpu), vec![]);
    assert_eq!(cpu.pc(), 0x206);
    let rows = cpu.get_display().snapshot();
    assert_eq!(rows.len(), 32);
    assert!(rows.iter().all(|row| row.len() == 64 && row.iter().all(|p| !*p)));
}

#[test]
fn return_with_an_empty_stack_is_an_underflow_and_changes_nothing() {
    let mut cpu = boot(&[0x00, 0xEE]);
    let before = boot(&[0x00, 0xEE]);
    assert_eq!(cpu.tick(), Err(CpuError::StackUnderflow));
    assert!(same_state(&cpu, &before));
    assert_eq!(cpu.pc(), 0x200);
    assert_eq!(cpu.stack_pointer(), 0);
    assert_eq!(cpu.tick(), Err(CpuError::StackUnderflow));
    assert!(same_state(&cpu, &before));
}

#[test]
fn a_failed_cycle_does_not_count_the_timer_down() {
    // V0 = 5, timer = V0, return with nothing to return to.
    let program: [u8; 6] = [0x60, 0x05, 0xF0, 0x15, 0x00, 0xEE];
    let mut cpu = run(&program, 2);
    assert_eq!(cpu.delay_timer(), 5);
    assert_eq!(cpu.tick(), Err(CpuError::StackUnderflow));
    assert_eq!(cpu.delay_timer(), 5);
    assert_eq!(cpu.pc(), 0x204);
    assert!(same_state(&cpu, &run(&program, 2)));
}

#[test]
fn jump_sets_the_program_counter() {
    let cpu = run(&[0x1A, 0xBC], 1);
    assert_eq!(cpu.pc(), 0xABC);
    assert_eq!(cpu.stack_pointer(), 0);
}

#[test]
fn call_pushes_the_next_address_and_return_pops_it() {
    // 0x200: call 0x206; 0x202: V1 = 7; ...; 0x206: return
    let program: [u8; 8] = [0x22, 0x06, 0x61, 0x07, 0x00, 0x00, 0x00, 0xEE];
    let mut cpu = run(&program, 1);
    assert_eq!(cpu.pc(), 0x206);
    assert_eq!(cpu.stack_pointer(), 1);
    assert_eq!(cpu.stack(), &[0x202]);
    assert_eq!(cpu.tick(), Ok(()));
    assert_eq!(cpu.pc(), 0x202);
    assert_eq!(cpu.stack_pointer(), 0);
    assert!(cpu.stack().is_empty());
    assert_eq!(cpu.tick(), Ok(()));
    assert_eq!(cpu.registers()[1], 7);
}

#[test]
fn nested_calls_return_in_reverse_order() {
    // 0x200: call 0x204; 0x202: jump 0x202; 0x204: call 0x208; 0x206: return; 0x208: return
    let program: [u8; 10] = [0x22, 0x04, 0x12, 0x02, 0x22, 0x08, 0x00, 0xEE, 0x00, 0xEE];
    let mut cpu = run(&program, 2);
    assert_eq!(cpu.stack(), &[0x202, 0x206]);
    assert_eq!(cpu.pc(), 0x208);
    assert_eq!(cpu.tick(), Ok(()));
    assert_eq!(cpu.pc(), 0x206);
    assert_eq!(cpu.stack(), &[0x202]);
    assert_eq!(cpu.tick(), Ok(()));
    assert_eq!(cpu.pc(), 0x202);
    assert!(cpu.stack().is_empty());
}

#[test]
fn the_seventeenth_nested_call_is_an_overflow_and_changes_nothing() {
    // 0x200: call 0x200, over and over.
    let program: [u8; 2] = [0x22, 0x00];
    let mut cpu = run(&program, 16);
    assert_eq!(cpu.stack_pointer(), 16);
    assert_eq!(cpu.stack(), &[0x202u16; 16]);
    assert_eq!(cpu.pc(), 0x200);
    assert_eq!(cpu.tick(), Err(CpuError::StackOverflow));
    assert!(same_state(&cpu, &run(&program, 16)));
    assert_eq!(cpu.stack_pointer(), 16);
    assert_eq!(cpu.pc(), 0x200);
}

#[test]
fn skip_if_equal_to_immediate() {
    let taken = run(&[0x63, 0x2A, 0x33, 0x2A], 2);
    assert_eq!(taken.pc(), 0x206);
    let not_taken = run(&[0x63, 0x2A, 0x33, 0x2B], 2);
    assert_eq!(not_taken.pc(), 0x204);
}

#[test]
fn skip_if_not_equal_to_immediate() {
    let taken = run(&[0x63, 0x2A, 0x43, 0x2B], 2);
    assert_eq!(taken.pc(), 0x206);
    let not_taken = run(&[0x63, 0x2A, 0x43, 0x2A], 2);
    assert_eq!(not_taken.pc(), 0x204);
}

#[test]
fn skip_if_registers_equal() {
    let taken = run(&[0x61, 0x09, 0x62, 0x09, 0x51, 0x20], 3);
    assert_eq!(taken.pc(), 0x208);
    let not_taken = run(&[0x61, 0x09, 0x62, 0x08, 0x51, 0x20], 3);
    assert_eq!(not_taken.pc(), 0x206);
}

#[test]
fn skip_if_registers_differ() {
    let taken = run(&[0x61, 0x09, 0x62, 0x08, 0x91, 0x20], 3);
    assert_eq!(taken.pc(), 0x208);
    let not_taken = run(&[0x61, 0x09, 0x62, 0x09, 0x91, 0x20], 3);
    assert_eq!(not_taken.pc(), 0x206);
}

#[test]
fn load_immediate_sets_one_register() {
    let cpu = run(&[0x6A, 0xC3], 1);
    let mut want = [0u8; 16];
    want[0xA] = 0xC3;
    assert_eq!(cpu.registers(), &want);
    assert_eq!(cpu.pc(), 0x202);
}

#[test]
fn add_immediate_wraps_and_leaves_the_flag_alone() {
    let cpu = run(&[0x61, 0xFF, 0x71, 0x02, 0x72, 0x05, 0x72, 0x06], 4);
    assert_eq!(cpu.registers()[1], 0x01);
    assert_eq!(cpu.registers()[2], 11);
    assert_eq!(cpu.registers()[0xF], 0);
    assert_eq!(cpu.pc(), 0x208);
}

#[test]
fn move_or_and_xor() {
    let setup: [u8; 4] = [0x61, 0b1100_1010, 0x62, 0b1010_0110];
    let mut program: Vec<u8> = setup.to_vec();
    program.extend_from_slice(&[0x83, 0x20]);
    assert_eq!(run(&program, 3).registers()[3], 0b1010_0110);

    let mut program: Vec<u8> = setup.to_vec();
    program.extend_from_slice(&[0x81, 0x21]);
    let cpu = run(&program, 3);
    assert_eq!(cpu.registers()[1], 0b1110_1110);
    assert_eq!(cpu.registers()[2], 0b1010_0110);

    let mut program: Vec<u8> = setup.to_vec();
    program.extend_from_slice(&[0x81, 0x22]);
    assert_eq!(run(&program, 3).registers()[1], 0b1000_0010);

    let mut program: Vec<u8> = setup.to_vec();
    program.extend_from_slice(&[0x81, 0x23]);
    let cpu = run(&program, 3);
    assert_eq!(cpu.registers()[1], 0b0110_1100);
    assert_eq!(cpu.registers()[0xF], 0);
    assert_eq!(cpu.pc(), 0x206);
}

fn binary_op(vx: u8, vy: u8, low_nibble: u8) -> (u8, u8) {
    // V1 = vx, V2 = vy, then 812<low_nibble>.
    let cpu = run(&[0x61, vx, 0x62, vy, 0x81, 0x20 | low_nibble], 3);
    assert_eq!(cpu.registers()[2], vy);
    assert_eq!(cpu.pc(), 0x206);
    (cpu.registers()[1], cpu.registers()[0xF])
}

#[test]
fn add_sets_the_flag_exactly_when_the_sum_exceeds_255() {
    assert_eq!(binary_op(0x10, 0x20, 4), (0x30, 0));
    assert_eq!(binary_op(0xFF, 0x01, 4), (0x00, 1));
    assert_eq!(binary_op(0xFF, 0x00, 4), (0xFF, 0));
    assert_eq!(binary_op(0x80, 0x7F, 4), (0xFF, 0));
    assert_eq!(binary_op(0x80, 0x80, 4), (0x00, 1));
    assert_eq!(binary_op(0xFF, 0xFF, 4), (0xFE, 1));
    for vx in 0..=255u8 {
        for vy in [0u8, 1, 2, 127, 128, 254, 255] {
            let sum: u16 = vx as u16 + vy as u16;
            let flag: u8 = if sum > 255 { 1 } else { 0 };
            assert_eq!(binary_op(vx, vy, 4), ((sum % 256) as u8, flag));
        }
    }
}

#[test]
fn the_subtract_slot_adds_and_flags_the_carry_of_the_sum() {
    assert_eq!(binary_op(5, 3, 5), (8, 0));
    assert_eq!(binary_op(3, 5, 5), (8, 0));
    assert_eq!(binary_op(0xF0, 0x20, 5), (0x10, 1));
    assert_eq!(binary_op(0, 0, 5), (0, 0));
    for vx in [0u8, 1, 100, 200, 255] {
        for vy in 0..=255u8 {
            assert_eq!(binary_op(vx, vy, 5), binary_op(vx, vy, 4));
        }
    }
}

#[test]
fn the_reverse_subtract_slot_adds_and_flags_the_carry_of_the_sum() {
    assert_eq!(binary_op(5, 3, 7), (8, 0));
    assert_eq!(binary_op(3, 5, 7), (8, 0));
    assert_eq!(binary_op(0x20, 0xF0, 7), (0x10, 1));
    assert_eq!(binary_op(0xFF, 0xFF, 7), (0xFE, 1));
}

#[test]
fn shift_right_puts_the_low_nibble_in_the_flag() {
    assert_eq!(binary_op(0x1F, 0, 6), (0x0F, 0x0F));
    assert_eq!(binary_op(0x01, 0, 6), (0x00, 0x01));
    assert_eq!(binary_op(0xF0, 0, 6), (0x78, 0x00));
    assert_eq!(binary_op(0xAB, 0x77, 6), (0x55, 0x0B));
    assert_eq!(binary_op(0xFF, 0, 6), (0x7F, 0x0F));
    for vx in 0..=255u8 {
        assert_eq!(binary_op(vx, 0x33, 6), (vx >> 1, vx & 0x0F));
    }
}

#[test]
fn shift_left_puts_the_top_bit_in_the_flag() {
    assert_eq!(binary_op(0x81, 0, 0xE), (0x02, 1));
    assert_eq!(binary_op(0x7F, 0, 0xE), (0xFE, 0));
    assert_eq!(binary_op(0xFF, 0x12, 0xE), (0xFE, 1));
    assert_eq!(binary_op(0x00, 0, 0xE), (0x00, 0));
}

#[test]
fn the_flag_is_written_last_when_the_target_is_vf() {
    // VF = 0xFF, V1 = 1, VF += V1: the carry, not the sum, stays in VF.
    for low_nibble in [4u8, 5, 7] {
        let cpu = run(&[0x6F, 0xFF, 0x61, 0x01, 0x8F, 0x10 | low_nibble], 3);
        assert_eq!(cpu.registers()[0xF], 1);
        let cpu = run(&[0x6F, 0x03, 0x61, 0x01, 0x8F, 0x10 | low_nibble], 3);
        assert_eq!(cpu.registers()[0xF], 0);
    }
    // VF = 0x3C shifted right: the low nibble, not the shifted value.
    let cpu = run(&[0x6F, 0x3C, 0x8F, 0x06], 2);
    assert_eq!(cpu.registers()[0xF], 0x0C);
    // VF = 0xC1 shifted left: the top bit, not the shifted value.
    let cpu = run(&[0x6F, 0xC1, 0x8F, 0x0E], 2);
    assert_eq!(cpu.registers()[0xF], 1);
}

#[test]
fn vf_is_read_as_an_operand_before_the_flag_is_written() {
    // V1 = 0xF0, VF = 0x20, V1 += VF.
    let cpu = run(&[0x61, 0xF0, 0x6F, 0x20, 0x81, 0xF4], 3);
    assert_eq!(cpu.registers()[1], 0x10);
    assert_eq!(cpu.registers()[0xF], 1);
}

#[test]
fn load_index_and_jump_with_offset() {
    let cpu = run(&[0xAF, 0xED], 1);
    assert_eq!(cpu.index(), 0xFED);
    assert_eq!(cpu.pc(), 0x202);
    let cpu = run(&[0x60, 0x10, 0xB3, 0x00], 2);
    assert_eq!(cpu.pc(), 0x310);
    let cpu = run(&[0x60, 0xFF, 0xBF, 0xFF], 2);
    assert_eq!(cpu.pc(), 0x10FE);
}

#[test]
fn draw_xors_the_sprite_onto_the_screen() {
    // Glyph 0 at (2, 3): F0 90 90 90 F0.
    let cpu = run(&[0x61, 0x02, 0x62, 0x03, 0xA0, 0x00, 0xD1, 0x25], 4);
    let want: Vec<(usize, usize)> = vec![
        (2, 3), (3, 3), (4, 3), (5, 3),
        (2, 4), (5, 4),
        (2, 5), (5, 5),
        (2, 6), (5, 6),
        (2, 7), (3, 7), (4, 7), (5, 7),
    ];
    assert_eq!(lit(&cpu), want);
    assert_eq!(cpu.registers()[0xF], 0);
    assert_eq!(cpu.pc(), 0x208);
    assert_eq!(cpu.index(), 0);
    assert_eq!(cpu.registers()[1], 2);
    assert_eq!(cpu.registers()[2], 3);
}

#[test]
fn draw_wraps_the_right_edge_to_column_zero() {
    // One row of FF at (63, 0).
    let program: [u8; 10] = [0x61, 0x3F, 0x62, 0x00, 0xA2, 0x08, 0xD1, 0x21, 0xFF, 0x00];
    let cpu = run(&program, 4);
    let want: Vec<(usize, usize)> =
        vec![(0, 0), (1, 0), (2, 0), (3, 0), (4, 0), (5, 0), (6, 0), (63, 0)];
    assert_eq!(lit(&cpu), want);
    assert_eq!(cpu.registers()[0xF], 0);
}

#[test]
fn draw_wraps_the_bottom_edge_to_row_zero() {
    // Two rows, 80 then 01, at (0, 31).
    let program: [u8; 10] = [0x61, 0x00, 0x62, 0x1F, 0xA2, 0x08, 0xD1, 0x22, 0x80, 0x01];
    let cpu = run(&program, 4);
    assert_eq!(lit(&cpu), vec![(7, 0), (0, 31)]);
}

#[test]
fn draw_takes_its_coordinates_modulo_the_screen() {
    // (200, 100) is (8, 4).
    let program: [u8; 10] = [0x61, 200, 0x62, 100, 0xA2, 0x08, 0xD1, 0x21, 0xC0, 0x00];
    let cpu = run(&program, 4);
    assert_eq!(lit(&cpu), vec![(8, 4), (9, 4)]);
}

#[test]
fn drawing_twice_in_the_same_place_clears_and_collides() {
    let program: [u8; 10] = [0x61, 0x3E, 0x62, 0x1E, 0xA0, 0x05, 0xD1, 0x25, 0xD1, 0x25];
    let mut cpu = run(&program, 4);
    assert_eq!(lit(&cpu).len(), 1 + 2 + 1 + 1 + 3);
    assert_eq!(cpu.registers()[0xF], 0);
    assert_eq!(cpu.tick(), Ok(()));
    assert_eq!(lit(&cpu), vec![]);
    assert_eq!(cpu.registers()[0xF], 1);
    assert_eq!(cpu.pc(), 0x20A);
}

#[test]
fn a_partial_overlap_collides_and_leaves_the_rest_lit() {
    // Row C0 at (0, 0), then row 60 at (0, 0): column 1 overlaps.
    let program: [u8; 14] = [
        0xA2, 0x0A, 0xD0, 0x01, 0xA2, 0x0B, 0xD0, 0x01, 0x00, 0x00, 0xC0, 0x60, 0x00, 0x00,
    ];
    let mut cpu = run(&program, 2);
    assert_eq!(lit(&cpu), vec![(0, 0), (1, 0)]);
    assert_eq!(cpu.registers()[0xF], 0);
    assert_eq!(cpu.tick(), Ok(()));
    assert_eq!(cpu.tick(), Ok(()));
    assert_eq!(lit(&cpu), vec![(0, 0), (2, 0)]);
    assert_eq!(cpu.registers()[0xF], 1);
}

#[test]
fn a_draw_without_overlap_resets_the_flag() {
    // VF = 9, then draw on a blank screen.
    let cpu = run(&[0x6F, 0x09, 0x61, 0x04, 0xA0, 0x00, 0xD1, 0x11], 4);
    assert_eq!(cpu.registers()[0xF], 0);
    assert_eq!(lit(&cpu), vec![(4, 4), (5, 4), (6, 4), (7, 4)]);
}

#[test]
fn draw_reads_vf_as_a_coordinate_before_it_writes_the_flag() {
    // VF = 10, draw one row of glyph 0 at (VF, V0).
    let cpu = run(&[0x6F, 0x0A, 0xA0, 0x00, 0xDF, 0x01], 3);
    assert_eq!(lit(&cpu), vec![(10, 0), (11, 0), (12, 0), (13, 0)]);
    assert_eq!(cpu.registers()[0xF], 0);
}

#[test]
fn a_draw_of_no_rows_draws_nothing() {
    let cpu = run(&[0x6F, 0x05, 0xAF, 0xFF, 0xD0, 0x00], 3);
    assert_eq!(lit(&cpu), vec![]);
    assert_eq!(cpu.registers()[0xF], 0);
    assert_eq!(cpu.pc(), 0x206);
}

#[test]
fn a_draw_that_reads_past_memory_is_an_error_and_changes_nothing() {
    let program: [u8; 6] = [0x6F, 0x05, 0xAF, 0xFF, 0xD0, 0x02];
    let mut cpu = run(&program, 2);
    assert_eq!(cpu.tick(), Err(CpuError::OutOfBounds { address: 0xFFF }));
    assert!(same_state(&cpu, &run(&program, 2)));
    // One row at the last address is within memory.
    let cpu = run(&[0xAF, 0xFF, 0xD0, 0x01], 2);
    assert_eq!(cpu.pc(), 0x204);
}

#[test]
fn set_delay_and_count_down_to_zero() {
    // V3 = 3, timer = V3, then jump in place.
    let program: [u8; 6] = [0x63, 0x03, 0xF3, 0x15, 0x12, 0x04];
    let mut cpu = run(&program, 2);
    assert_eq!(cpu.delay_timer(), 3);
    let mut seen: Vec<u8> = Vec::new();
    for _ in 0..5 {
        assert_eq!(cpu.tick(), Ok(()));
        seen.push(cpu.delay_timer());
    }
    assert_eq!(seen, vec![2, 1, 0, 0, 0]);
}

#[test]
fn store_bcd_writes_hundreds_tens_and_ones() {
    let cpu = run(&[0x64, 254, 0xA3, 0x00, 0xF4, 0x33], 3);
    assert_eq!(&cpu.memory()[0x300..0x304], &[2, 5, 4, 0]);
    assert_eq!(cpu.pc(), 0x206);
    assert_eq!(cpu.index(), 0x300);
    let cpu = run(&[0x64, 7, 0xA3, 0x00, 0xF4, 0x33], 3);
    assert_eq!(&cpu.memory()[0x300..0x303], &[0, 0, 7]);
    let cpu = run(&[0x64, 120, 0xA3, 0x00, 0xF4, 0x33], 3);
    assert_eq!(&cpu.memory()[0x300..0x303], &[1, 2, 0]);
}

#[test]
fn store_bcd_at_the_end_of_memory() {
    let cpu = run(&[0x64, 199, 0xAF, 0xFD, 0xF4, 0x33], 3);
    assert_eq!(&cpu.memory()[0xFFD..], &[1, 9, 9]);
    let program: [u8; 6] = [0x64, 199, 0xAF, 0xFE, 0xF4, 0x33];
    let mut cpu = run(&program, 2);
    assert_eq!(cpu.tick(), Err(CpuError::OutOfBounds { address: 0xFFE }));
    assert!(same_state(&cpu, &run(&program, 2)));
}

#[test]
fn store_registers_writes_v0_to_vx_from_the_index_on() {
    let program: [u8; 10] = [0x60, 0x11, 0x61, 0x22, 0x62, 0x33, 0xA3, 0x00, 0xF1, 0x55];
    let cpu = run(&program, 5);
    assert_eq!(&cpu.memory()[0x2FF..0x304], &[0, 0x11, 0x22, 0, 0]);
    assert_eq!(cpu.index(), 0x300);
    assert_eq!(cpu.pc(), 0x20A);
    assert_eq!(cpu.registers()[2], 0x33);
}

#[test]
fn store_all_registers_at_address_zero() {
    let mut program: Vec<u8> = Vec::new();
    for r in 0..16u8 {
        program.extend_from_slice(&[0x60 | r, 0xA0 + r]);
    }
    program.extend_from_slice(&[0xA0, 0x00, 0xFF, 0x55]);
    let cpu = run(&program, 18);
    let want: Vec<u8> = (0..16u8).map(|r| 0xA0 + r).collect();
    assert_eq!(&cpu.memory()[0..16], &want[..]);
    assert_eq!(&cpu.memory()[16..80], &FONT[16..]);
    assert_eq!(cpu.index(), 0);
}

#[test]
fn load_registers_reads_v0_to_vx_from_the_index_on() {
    // I = 0 (the font), load V0..=V2, with V3 preset.
    let cpu = run(&[0x63, 0x77, 0xA0, 0x05, 0xF2, 0x65], 3);
    assert_eq!(&cpu.registers()[0..4], &[0x20, 0x60, 0x20, 0x77]);
    assert_eq!(cpu.index(), 0x005);
    assert_eq!(cpu.pc(), 0x206);
}

#[test]
fn registers_stored_and_loaded_again_come_back_exactly() {
    for x in 0..16u8 {
        let mut program: Vec<u8> = Vec::new();
        for r in 0..16u8 {
            program.extend_from_slice(&[0x60 | r, 0x11u8.wrapping_mul(r + 1)]);
        }
        program.extend_from_slice(&[0xA4, 0x00, 0xF0 | x, 0x55]);
        for r in 0..16u8 {
            program.extend_from_slice(&[0x60 | r, 0xEE]);
        }
        program.extend_from_slice(&[0xF0 | x, 0x65]);
        let cpu = run(&program, 16 + 2 + 16 + 1);
        for r in 0..16u8 {
            let want: u8 = if r <= x { 0x11u8.wrapping_mul(r + 1) } else { 0xEE };
            assert_eq!(cpu.registers()[r as usize], want, "x = {}, r = {}", x, r);
            let stored: u8 = if r <= x { 0x11u8.wrapping_mul(r + 1) } else { 0 };
            assert_eq!(cpu.memory()[0x400 + r as usize], stored);
        }
    }
}

#[test]
fn register_transfers_past_the_end_of_memory_are_errors() {
    // I = 0xFF8: V0..=V7 fit, V0..=V8 do not.
    let cpu = run(&[0x67, 0x5A, 0xAF, 0xF8, 0xF7, 0x55], 3);
    assert_eq!(cpu.memory()[0xFFF], 0x5A);
    let cpu = run(&[0xAF, 0xF8, 0xF7, 0x65], 2);
    assert_eq!(cpu.pc(), 0x204);
    for low_byte in [0x55u8, 0x65] {
        let program: [u8; 6] = [0x67, 0x5A, 0xAF, 0xF8, 0xF8, low_byte];
        let mut cpu = run(&program, 2);
        assert_eq!(cpu.tick(), Err(CpuError::OutOfBounds { address: 0xFF8 }));
        assert!(same_state(&cpu, &run(&program, 2)));
    }
}

#[test]
fn an_unknown_word_is_reported_with_its_value_and_changes_nothing() {
    for word in [0x0000u16, 0x5121, 0x8128, 0x9121, 0xC0FF, 0xE09E, 0xF007, 0xF01E] {
        let program: [u8; 6] =
            [0x63, 0x03, 0xF3, 0x15, (word >> 8) as u8, (word & 0xFF) as u8];
        let mut cpu = run(&program, 2);
        assert_eq!(cpu.tick(), Err(CpuError::UnimplementedOpcode { opcode: word }));
        assert!(same_state(&cpu, &run(&program, 2)));
        assert_eq!(cpu.pc(), 0x204);
    }
}

#[test]
fn a_fetch_past_the_end_of_memory_is_an_error() {
    let program: [u8; 2] = [0x1F, 0xFF];
    let mut cpu = run(&program, 1);
    assert_eq!(cpu.pc(), 0xFFF);
    assert_eq!(cpu.tick(), Err(CpuError::OutOfBounds { address: 0xFFF }));
    assert!(same_state(&cpu, &run(&program, 1)));
}

#[test]
fn the_last_two_bytes_of_memory_hold_an_instruction() {
    let mut rom: Vec<u8> = vec![0; 3584];
    rom[0] = 0x1F;
    rom[1] = 0xFE;
    rom[3582] = 0x6B;
    rom[3583] = 0x42;
    let mut cpu = run(&rom, 2);
    assert_eq!(cpu.registers()[0xB], 0x42);
    assert_eq!(cpu.pc(), 0x1000);
    assert_eq!(cpu.tick(), Err(CpuError::OutOfBounds { address: 0x1000 }));
}

#[test]
fn the_program_counter_advances_by_two() {
    let mut cpu = boot(&[0x60, 0x00, 0x61, 0x00, 0x62, 0x00, 0xA0, 0x00]);
    let mut seen: Vec<u16> = Vec::new();
    for _ in 0..4 {
        assert_eq!(cpu.tick(), Ok(()));
        seen.push(cpu.pc());
    }
    assert_eq!(seen, vec![0x202, 0x204, 0x206, 0x208]);
}
