use chip8::chip::{Chip, FONT_BASE, PROGRAM_START};
use chip8::instruction::{decode, Instruction};
use chip8::ChipError;

fn machine(program: &[u8]) -> Chip {
    let mut chip = Chip::with_seed(7);
    assert_eq!(chip.load_program(program), Ok(()));
    chip
}

fn run(chip: &mut Chip, cycles: usize) {
    for _ in 0..cycles {
        assert_eq!(chip.cycle(), Ok(()));
    }
}

#[test]
fn load_and_run_one_instruction() {
    let mut chip = machine(&[0x60, 0x05]);
    assert_eq!(chip.cycle(), Ok(()));
    assert_eq!(chip.registers()[0], 5);
    assert_eq!(chip.pc(), 0x202);
}

#[test]
fn fresh_machine_state() {
    let chip = Chip::init();
    assert_eq!(chip.pc(), PROGRAM_START);
    assert_eq!(chip.stack_pointer(), 0);
    assert_eq!(chip.index(), 0);
    assert_eq!(chip.registers(), [0u8; 16]);
    assert!(chip.display().iter().all(|p| !*p));
    assert_eq!(chip.mem_byte(FONT_BASE), 0xF0);
    assert_eq!(chip.mem_byte(FONT_BASE + 79), 0x80);
    assert_eq!(chip.mem_byte(FONT_BASE + 80), 0);
    assert!(!chip.is_waiting_for_key());
}

#[test]
fn draw_glyph_zero_at_origin() {
    // V0 = 0, V1 = 0, I = glyph of V0, draw 5 rows at (V0, V1)
    let mut chip = machine(&[0x60, 0x00, 0x61, 0x00, 0xF0, 0x29, 0xD0, 0x15]);
    run(&mut chip, 4);
    assert_eq!(chip.index(), FONT_BASE);
    let rows = [0xF0u8, 0x90, 0x90, 0x90, 0xF0];
    for row in 0..32 {
        for col in 0..64 {
            let expected = row < 5 && col < 8 && (rows[row] >> (7 - col)) & 1 == 1;
            assert_eq!(chip.pixel(row, col), expected, "cell {} {}", row, col);
        }
    }
    assert_eq!(chip.registers()[15], 0);
}

#[test]
fn draw_twice_collides_and_clears() {
    let mut chip = machine(&[0x6F, 0x07, 0xF0, 0x29, 0xD0, 0x15, 0xD0, 0x15]);
    run(&mut chip, 3);
    assert_eq!(chip.registers()[15], 0);
    run(&mut chip, 1);
    assert_eq!(chip.registers()[15], 1);
    assert!(chip.display().iter().all(|p| !*p));
}

#[test]
fn draw_wraps_at_edges() {
    // V0 = 62, V1 = 30, glyph 0 drawn across the corner
    let mut chip = machine(&[0x60, 62, 0x61, 30, 0xA0, 0x00 + FONT_BASE as u8, 0xD0, 0x15]);
    run(&mut chip, 4);
    assert!(chip.pixel(30, 62));
    assert!(chip.pixel(30, 63));
    assert!(chip.pixel(30, 0));
    assert!(chip.pixel(30, 1));
    assert!(!chip.pixel(30, 2));
    assert!(chip.pixel(31, 62));
    assert!(!chip.pixel(31, 63));
    assert!(chip.pixel(31, 1));
    assert!(chip.pixel(0, 62));
    assert!(chip.pixel(2, 62));
    assert!(chip.pixel(2, 1));
    assert_eq!(chip.registers()[15], 0);
}

#[test]
fn cls_clears_display() {
    let mut chip = machine(&[0xF0, 0x29, 0xD0, 0x15, 0x00, 0xE0]);
    run(&mut chip, 2);
    assert!(chip.display().iter().any(|p| *p));
    run(&mut chip, 1);
    assert!(chip.display().iter().all(|p| !*p));
}

#[test]
fn call_then_ret_returns_after_call() {
    let mut program = vec![0u8; 0x102];
    program[0] = 0x23;
    program[1] = 0x00;
    program[0x100] = 0x00;
    program[0x101] = 0xEE;
    let mut chip = machine(&program);
    run(&mut chip, 1);
    assert_eq!(chip.pc(), 0x300);
    assert_eq!(chip.stack_pointer(), 1);
    run(&mut chip, 1);
    assert_eq!(chip.pc(), 0x202);
    assert_eq!(chip.stack_pointer(), 0);
}

#[test]
fn ret_on_empty_stack_faults() {
    let mut chip = machine(&[0x00, 0xEE]);
    assert_eq!(chip.cycle(), Err(ChipError::OutOfBounds));
    assert_eq!(chip.pc(), PROGRAM_START);
}

#[test]
fn call_beyond_stack_depth_faults() {
    // each call jumps to the next instruction
    let mut program = Vec::new();
    for k in 0..16u16 {
        let target = 0x202 + 2 * k;
        program.push(0x20 | (target >> 8) as u8);
        program.push((target & 0xFF) as u8);
    }
    let mut chip = machine(&program);
    run(&mut chip, 15);
    assert_eq!(chip.stack_pointer(), 15);
    assert_eq!(chip.cycle(), Err(ChipError::OutOfBounds));
    assert_eq!(chip.stack_pointer(), 15);
}

#[test]
fn jump_sets_pc_exactly() {
    let mut chip = machine(&[0x13, 0x45]);
    run(&mut chip, 1);
    assert_eq!(chip.pc(), 0x345);
}

#[test]
fn jump_with_offset() {
    let mut chip = machine(&[0x60, 0x10, 0xB3, 0x00]);
    run(&mut chip, 2);
    assert_eq!(chip.pc(), 0x310);
}

#[test]
fn fetch_beyond_memory_faults() {
    let mut chip = machine(&[0x1F, 0xFF]);
    run(&mut chip, 1);
    assert_eq!(chip.pc(), 0xFFF);
    assert_eq!(chip.cycle(), Err(ChipError::OutOfBounds));
    assert_eq!(chip.pc(), 0xFFF);
}

#[test]
fn unsupported_opcode_is_reported() {
    let mut chip = machine(&[0x00, 0x00, 0x60, 0x01]);
    assert_eq!(chip.cycle(), Err(ChipError::UnsupportedOpcode));
    assert_eq!(chip.pc(), 0x202);
    assert_eq!(chip.registers(), [0u8; 16]);
}

#[test]
fn load_register_copies() {
    let mut chip = machine(&[0x63, 0x2A, 0x6F, 0x09, 0x81, 0x30]);
    run(&mut chip, 3);
    assert_eq!(chip.registers()[1], 0x2A);
    assert_eq!(chip.registers()[3], 0x2A);
    assert_eq!(chip.registers()[15], 0x09);
}

#[test]
fn add_registers_with_carry() {
    let mut chip = machine(&[0x60, 200, 0x61, 100, 0x80, 0x14]);
    run(&mut chip, 3);
    assert_eq!(chip.registers()[0], 44);
    assert_eq!(chip.registers()[15], 1);
}

#[test]
fn add_registers_without_carry() {
    let mut chip = machine(&[0x6F, 0x05, 0x60, 100, 0x61, 100, 0x80, 0x14]);
    run(&mut chip, 4);
    assert_eq!(chip.registers()[0], 200);
    assert_eq!(chip.registers()[15], 0);
}

#[test]
fn add_immediate_wraps() {
    let mut chip = machine(&[0x60, 250, 0x70, 10]);
    run(&mut chip, 2);
    assert_eq!(chip.registers()[0], 4);
    assert_eq!(chip.registers()[15], 0);
}

#[test]
fn sub_sets_not_borrow() {
    let mut chip = machine(&[0x60, 10, 0x61, 3, 0x80, 0x15]);
    run(&mut chip, 3);
    assert_eq!(chip.registers()[0], 7);
    assert_eq!(chip.registers()[15], 1);
}

#[test]
fn sub_with_borrow_wraps() {
    let mut chip = machine(&[0x60, 3, 0x61, 10, 0x80, 0x15]);
    run(&mut chip, 3);
    assert_eq!(chip.registers()[0], 249);
    assert_eq!(chip.registers()[15], 0);
}

#[test]
fn sub_equal_operands_clears_flag() {
    let mut chip = machine(&[0x6F, 1, 0x60, 5, 0x61, 5, 0x80, 0x15]);
    run(&mut chip, 4);
    assert_eq!(chip.registers()[0], 0);
    assert_eq!(chip.registers()[15], 0);
}

#[test]
fn subn_reverses_operands() {
    let mut chip = machine(&[0x60, 3, 0x61, 10, 0x80, 0x17]);
    run(&mut chip, 3);
    assert_eq!(chip.registers()[0], 7);
    assert_eq!(chip.registers()[15], 1);
}

#[test]
fn shifts_set_flag_from_outgoing_bit() {
    let mut chip = machine(&[0x60, 0x81, 0x80, 0x0E, 0x61, 0x03, 0x81, 0x06]);
    run(&mut chip, 2);
    assert_eq!(chip.registers()[0], 0x02);
    assert_eq!(chip.registers()[15], 1);
    run(&mut chip, 2);
    assert_eq!(chip.registers()[1], 0x01);
    assert_eq!(chip.registers()[15], 1);
}

#[test]
fn bitwise_operations() {
    let mut chip = machine(&[
        0x60, 0x0C, 0x61, 0x0A, 0x82, 0x00, 0x82, 0x11, 0x83, 0x00, 0x83, 0x12, 0x84, 0x00,
        0x84, 0x13,
    ]);
    run(&mut chip, 8);
    assert_eq!(chip.registers()[2], 0x0E);
    assert_eq!(chip.registers()[3], 0x08);
    assert_eq!(chip.registers()[4], 0x06);
}

#[test]
fn skips_compare_registers() {
    // V0 = V1 = 4; 5010 skips, 9010 does not
    let mut chip = machine(&[0x60, 4, 0x61, 4, 0x50, 0x10, 0x00, 0x00, 0x90, 0x10]);
    run(&mut chip, 3);
    assert_eq!(chip.pc(), 0x208);
    run(&mut chip, 1);
    assert_eq!(chip.pc(), 0x20A);
}

#[test]
fn skips_compare_immediate() {
    let mut chip = machine(&[0x60, 4, 0x30, 4, 0x00, 0x00, 0x40, 4, 0x30, 5]);
    run(&mut chip, 2);
    assert_eq!(chip.pc(), 0x206);
    run(&mut chip, 2);
    assert_eq!(chip.pc(), 0x20A);
}

#[test]
fn wait_for_key_holds_pc_until_pressed() {
    let mut chip = machine(&[0xF3, 0x0A]);
    run(&mut chip, 3);
    assert_eq!(chip.pc(), PROGRAM_START);
    assert!(chip.is_waiting_for_key());
    let mut keys = [false; 16];
    keys[9] = true;
    keys[5] = true;
    chip.set_keys(keys);
    run(&mut chip, 1);
    assert_eq!(chip.registers()[3], 5);
    assert_eq!(chip.pc(), 0x202);
    assert!(!chip.is_waiting_for_key());
}

#[test]
fn wait_for_key_with_key_already_down() {
    let mut chip = machine(&[0xF2, 0x0A]);
    let mut keys = [false; 16];
    keys[12] = true;
    chip.set_keys(keys);
    run(&mut chip, 1);
    assert_eq!(chip.registers()[2], 12);
    assert_eq!(chip.pc(), 0x202);
}

#[test]
fn key_skips() {
    let mut chip = machine(&[0x61, 6, 0xE1, 0x9E, 0x00, 0x00, 0xE1, 0xA1]);
    let mut keys = [false; 16];
    keys[6] = true;
    chip.set_keys(keys);
    run(&mut chip, 2);
    assert_eq!(chip.pc(), 0x206);
    run(&mut chip, 1);
    assert_eq!(chip.pc(), 0x208);
}

#[test]
fn key_skip_with_large_register_faults() {
    let mut chip = machine(&[0x61, 16, 0xE1, 0x9E]);
    run(&mut chip, 1);
    assert_eq!(chip.cycle(), Err(ChipError::OutOfBounds));
    assert_eq!(chip.pc(), 0x202);
}

#[test]
fn timers_load_and_tick() {
    let mut chip = machine(&[0x60, 2, 0xF0, 0x15, 0xF0, 0x18, 0xF1, 0x07]);
    run(&mut chip, 3);
    assert_eq!(chip.delay_timer(), 2);
    assert_eq!(chip.sound_timer(), 2);
    chip.tick_timers();
    run(&mut chip, 1);
    assert_eq!(chip.registers()[1], 1);
    chip.tick_timers();
    chip.tick_timers();
    assert_eq!(chip.delay_timer(), 0);
    assert_eq!(chip.sound_timer(), 0);
}

#[test]
fn random_byte_follows_generator() {
    let mut chip = Chip::with_seed(0);
    assert_eq!(chip.random_byte(), 60);
    let next = 1013904223u32.wrapping_mul(1664525).wrapping_add(1013904223);
    assert_eq!(chip.random_byte(), (next >> 24) as u8);
}

#[test]
fn random_instruction_masks() {
    let mut chip = Chip::with_seed(0);
    assert_eq!(chip.load_program(&[0xC0, 0x0F]), Ok(()));
    run(&mut chip, 1);
    assert_eq!(chip.registers()[0], 60 & 0x0F);
}

#[test]
fn index_add_and_bcd() {
    let mut chip = machine(&[0xA3, 0x00, 0x60, 234, 0xF0, 0x1E, 0xF0, 0x33]);
    run(&mut chip, 4);
    assert_eq!(chip.index(), 0x300 + 234);
    assert_eq!(chip.mem_byte(0x300 + 234), 2);
    assert_eq!(chip.mem_byte(0x300 + 235), 3);
    assert_eq!(chip.mem_byte(0x300 + 236), 4);
}

#[test]
fn bcd_past_memory_faults() {
    let mut chip = machine(&[0xAF, 0xFE, 0xF0, 0x33]);
    run(&mut chip, 1);
    assert_eq!(chip.cycle(), Err(ChipError::OutOfBounds));
    assert_eq!(chip.mem_byte(0xFFE), 0);
}

#[test]
fn store_then_load_round_trip() {
    let mut chip = machine(&[
        0x60, 11, 0x61, 22, 0x62, 33, 0xA4, 0x00, 0xF2, 0x55, 0x60, 0, 0x61, 0, 0x62, 0, 0x63,
        44, 0xF2, 0x65,
    ]);
    run(&mut chip, 5);
    assert_eq!(chip.mem_byte(0x400), 11);
    assert_eq!(chip.mem_byte(0x401), 22);
    assert_eq!(chip.mem_byte(0x402), 33);
    assert_eq!(chip.mem_byte(0x403), 0);
    run(&mut chip, 5);
    assert_eq!(chip.registers()[0], 11);
    assert_eq!(chip.registers()[1], 22);
    assert_eq!(chip.registers()[2], 33);
    assert_eq!(chip.registers()[3], 44);
}

#[test]
fn program_too_large_is_refused() {
    let mut chip = Chip::with_seed(1);
    let program = vec![0xAAu8; 4096 - 0x200 + 1];
    assert_eq!(chip.load_program(&program), Err(ChipError::ProgramTooLarge));
    assert_eq!(chip.mem_byte(0x200), 0);
    let fits = vec![0xAAu8; 4096 - 0x200];
    assert_eq!(chip.load_program(&fits), Ok(()));
    assert_eq!(chip.mem_byte(0xFFF), 0xAA);
}

#[test]
fn fetch_reads_big_endian() {
    let mut chip = machine(&[0x12, 0x34]);
    assert_eq!(chip.fetch(), Ok(0x1234));
    assert_eq!(chip.pc(), 0x202);
}

#[test]
fn decode_table_entries() {
    assert_eq!(decode(0x00E0), Some(Instruction::Cls));
    assert_eq!(decode(0x00EE), Some(Instruction::Ret));
    assert_eq!(decode(0x1ABC), Some(Instruction::Jp(0xABC)));
    assert_eq!(decode(0x5120), Some(Instruction::SeReg(1, 2)));
    assert_eq!(decode(0x5121), None);
    assert_eq!(decode(0x8A3E), Some(Instruction::Shl(0xA)));
    assert_eq!(decode(0xD125), Some(Instruction::Drw(1, 2, 5)));
    assert_eq!(decode(0xE49E), Some(Instruction::Skp(4)));
    assert_eq!(decode(0xF765), Some(Instruction::LoadRegs(7)));
    assert_eq!(decode(0xF7FF), None);
    assert_eq!(decode(0x0123), None);
}

#[test]
fn pixel_colours_pack() {
    assert_eq!(chip8::render::from_u8_rgb(255, 255, 255), 0x00FF_FFFF);
    assert_eq!(chip8::render::from_u8_rgb(0x12, 0x34, 0x56), 0x0012_3456);
    assert_eq!(chip8::render::from_u8_rgb(0, 0, 0), 0);
}
