use chip8::cpu::CHIP8;
use chip8::instruction::Instruction;
use chip8::machine::{Chip8Error, Flow};
use chip8::op_code::OpCode;
use chip8::quirks::Quirks;

fn machine_with(quirks: Quirks, values: &[(u8, u8)]) -> CHIP8 {
    let mut chip = CHIP8::with_quirks(quirks);
    for (x, byte) in values {
        let outcome = chip.execute(Instruction::Load { x: *x, byte: *byte }, 0);
        assert_eq!(outcome, Ok(Flow::Advance));
    }
    chip
}

#[test]
fn load_sets_the_register_and_advances() {
    let mut chip = CHIP8::new();
    assert_eq!(chip.execute(Instruction::Load { x: 3, byte: 0x42 }, 0), Ok(Flow::Advance));
    assert_eq!(chip.v(3), 0x42);
    assert_eq!(chip.pc(), 0x202);
}

#[test]
fn add_immediate_wraps_at_256() {
    let mut chip = machine_with(Quirks::legacy(), &[(2, 0xFF), (0xF, 7)]);
    assert_eq!(chip.execute(Instruction::AddImmediate { x: 2, byte: 2 }, 0), Ok(Flow::Advance));
    assert_eq!(chip.v(2), 1);
    assert_eq!(chip.v(0xF), 7);
}

#[test]
fn add_immediate_table() {
    let cases: [(u8, u8, u8); 5] =
        [(0, 0, 0), (5, 3, 8), (200, 100, 44), (255, 255, 254), (128, 128, 0)];
    for (a, b, sum) in cases {
        let mut chip = machine_with(Quirks::modern(), &[(1, a), (0xF, 1)]);
        chip.execute(Instruction::AddImmediate { x: 1, byte: b }, 0).unwrap();
        assert_eq!(chip.v(1), sum);
        assert_eq!(chip.v(0xF), 1);
    }
}

#[test]
fn add_immediate_to_the_flags_register_stores_the_sum_there() {
    let mut chip = machine_with(Quirks::legacy(), &[(0xF, 250)]);
    chip.execute(Instruction::AddImmediate { x: 0xF, byte: 10 }, 0).unwrap();
    assert_eq!(chip.v(0xF), 4);
}

#[test]
fn copy_takes_the_second_register() {
    let mut chip = machine_with(Quirks::legacy(), &[(1, 9), (2, 77)]);
    chip.execute(Instruction::Copy { x: 1, y: 2 }, 0).unwrap();
    assert_eq!(chip.v(1), 77);
    assert_eq!(chip.v(2), 77);
}

#[test]
fn logic_under_the_legacy_quirk_clears_the_flags() {
    let mut chip = machine_with(Quirks::legacy(), &[(1, 0b1100), (2, 0b1010), (0xF, 1)]);
    chip.execute(Instruction::Or { x: 1, y: 2 }, 0).unwrap();
    assert_eq!(chip.v(1), 0b1110);
    assert_eq!(chip.v(0xF), 0);
    let mut chip = machine_with(Quirks::legacy(), &[(1, 0b1100), (2, 0b1010), (0xF, 1)]);
    chip.execute(Instruction::And { x: 1, y: 2 }, 0).unwrap();
    assert_eq!(chip.v(1), 0b1000);
    assert_eq!(chip.v(0xF), 0);
    let mut chip = machine_with(Quirks::legacy(), &[(1, 0b1100), (2, 0b1010), (0xF, 1)]);
    chip.execute(Instruction::Xor { x: 1, y: 2 }, 0).unwrap();
    assert_eq!(chip.v(1), 0b0110);
    assert_eq!(chip.v(0xF), 0);
}

#[test]
fn logic_under_the_modern_quirk_keeps_the_flags() {
    let mut chip = machine_with(Quirks::modern(), &[(1, 0b1100), (2, 0b1010), (0xF, 1)]);
    chip.execute(Instruction::Or { x: 1, y: 2 }, 0).unwrap();
    assert_eq!(chip.v(1), 0b1110);
    assert_eq!(chip.v(0xF), 1);
    chip.execute(Instruction::And { x: 1, y: 2 }, 0).unwrap();
    assert_eq!(chip.v(1), 0b1010);
    assert_eq!(chip.v(0xF), 1);
    chip.execute(Instruction::Xor { x: 1, y: 2 }, 0).unwrap();
    assert_eq!(chip.v(1), 0);
    assert_eq!(chip.v(0xF), 1);
}

#[test]
fn modern_logic_into_the_flags_register_changes_it() {
    let mut chip = machine_with(Quirks::modern(), &[(0, 1), (0xF, 0)]);
    chip.execute(Instruction::Or { x: 0xF, y: 0 }, 0).unwrap();
    assert_eq!(chip.v(0xF), 1);
}

#[test]
fn legacy_logic_into_the_flags_register_leaves_zero() {
    let mut chip = machine_with(Quirks::legacy(), &[(0, 1), (0xF, 0)]);
    chip.execute(Instruction::Or { x: 0xF, y: 0 }, 0).unwrap();
    assert_eq!(chip.v(0xF), 0);
}

#[test]
fn add_with_carry_table() {
    let cases: [(u8, u8, u8, u8); 6] = [
        (1, 2, 3, 0),
        (200, 100, 44, 1),
        (255, 1, 0, 1),
        (255, 0, 255, 0),
        (255, 255, 254, 1),
        (128, 127, 255, 0),
    ];
    for (a, b, sum, carry) in cases {
        let mut chip = machine_with(Quirks::legacy(), &[(4, a), (5, b)]);
        assert_eq!(chip.execute(Instruction::AddWithCarry { x: 4, y: 5 }, 0), Ok(Flow::Advance));
        assert_eq!(chip.v(4), sum);
        assert_eq!(chip.v(5), b);
        assert_eq!(chip.v(0xF), carry);
    }
}

#[test]
fn add_with_carry_into_the_flags_register_leaves_the_carry() {
    let mut chip = machine_with(Quirks::legacy(), &[(0xF, 200), (1, 100)]);
    chip.execute(Instruction::AddWithCarry { x: 0xF, y: 1 }, 0).unwrap();
    assert_eq!(chip.v(0xF), 1);
    let mut chip = machine_with(Quirks::legacy(), &[(0xF, 20), (1, 10)]);
    chip.execute(Instruction::AddWithCarry { x: 0xF, y: 1 }, 0).unwrap();
    assert_eq!(chip.v(0xF), 0);
}

#[test]
fn subtract_table() {
    let cases: [(u8, u8, u8, u8); 5] =
        [(5, 3, 2, 1), (3, 5, 254, 0), (7, 7, 0, 1), (0, 1, 255, 0), (255, 0, 255, 1)];
    for (a, b, difference, no_borrow) in cases {
        let mut chip = machine_with(Quirks::legacy(), &[(4, a), (5, b)]);
        chip.execute(Instruction::Subtract { x: 4, y: 5 }, 0).unwrap();
        assert_eq!(chip.v(4), difference);
        assert_eq!(chip.v(0xF), no_borrow);
    }
}

#[test]
fn subtract_reversed_table() {
    let cases: [(u8, u8, u8, u8); 5] =
        [(3, 5, 2, 1), (5, 3, 254, 0), (7, 7, 0, 1), (1, 0, 255, 0), (0, 255, 255, 1)];
    for (vx, vy, difference, no_borrow) in cases {
        let mut chip = machine_with(Quirks::legacy(), &[(4, vx), (5, vy)]);
        chip.execute(Instruction::SubtractReversed { x: 4, y: 5 }, 0).unwrap();
        assert_eq!(chip.v(4), difference);
        assert_eq!(chip.v(5), vy);
        assert_eq!(chip.v(0xF), no_borrow);
    }
}

#[test]
fn subtract_a_register_from_itself() {
    let mut chip = machine_with(Quirks::modern(), &[(4, 9)]);
    chip.execute(Instruction::Subtract { x: 4, y: 4 }, 0).unwrap();
    assert_eq!(chip.v(4), 0);
    assert_eq!(chip.v(0xF), 1);
}

#[test]
fn shift_right_legacy_reads_the_second_operand() {
    let mut chip = machine_with(Quirks::legacy(), &[(1, 0xFF), (2, 5)]);
    chip.execute(Instruction::ShiftRight { x: 1, y: 2 }, 0).unwrap();
    assert_eq!(chip.v(1), 2);
    assert_eq!(chip.v(2), 5);
    assert_eq!(chip.v(0xF), 1);
}

#[test]
fn shift_right_modern_ignores_the_second_operand() {
    let mut chip = machine_with(Quirks::modern(), &[(1, 4), (2, 0xFF)]);
    chip.execute(Instruction::ShiftRight { x: 1, y: 2 }, 0).unwrap();
    assert_eq!(chip.v(1), 2);
    assert_eq!(chip.v(0xF), 0);
    chip.execute(Instruction::ShiftRight { x: 1, y: 2 }, 0).unwrap();
    chip.execute(Instruction::ShiftRight { x: 1, y: 2 }, 0).unwrap();
    assert_eq!(chip.v(1), 0);
    assert_eq!(chip.v(0xF), 1);
}

#[test]
fn shift_left_legacy_reads_the_second_operand() {
    let mut chip = machine_with(Quirks::legacy(), &[(1, 0), (2, 0x81)]);
    chip.execute(Instruction::ShiftLeft { x: 1, y: 2 }, 0).unwrap();
    assert_eq!(chip.v(1), 0x02);
    assert_eq!(chip.v(0xF), 1);
}

#[test]
fn shift_left_modern_ignores_the_second_operand() {
    let mut chip = machine_with(Quirks::modern(), &[(1, 0x41), (2, 0xFF)]);
    chip.execute(Instruction::ShiftLeft { x: 1, y: 2 }, 0).unwrap();
    assert_eq!(chip.v(1), 0x82);
    assert_eq!(chip.v(0xF), 0);
    chip.execute(Instruction::ShiftLeft { x: 1, y: 2 }, 0).unwrap();
    assert_eq!(chip.v(1), 0x04);
    assert_eq!(chip.v(0xF), 1);
}

#[test]
fn skips_against_an_immediate() {
    let mut chip = machine_with(Quirks::legacy(), &[(1, 0x11)]);
    let start = chip.pc();
    assert_eq!(chip.execute(Instruction::SkipIfEqual { x: 1, byte: 0x11 }, 0), Ok(Flow::Skip));
    assert_eq!(chip.pc(), start + 4);
    assert_eq!(chip.execute(Instruction::SkipIfEqual { x: 1, byte: 0x12 }, 0), Ok(Flow::Advance));
    assert_eq!(chip.pc(), start + 6);
    assert_eq!(chip.execute(Instruction::SkipIfNotEqual { x: 1, byte: 0x12 }, 0), Ok(Flow::Skip));
    assert_eq!(chip.pc(), start + 10);
    assert_eq!(
        chip.execute(Instruction::SkipIfNotEqual { x: 1, byte: 0x11 }, 0),
        Ok(Flow::Advance)
    );
    assert_eq!(chip.pc(), start + 12);
}

#[test]
fn skips_against_a_register() {
    let mut chip = machine_with(Quirks::legacy(), &[(1, 0x11), (2, 0x11), (3, 0x33)]);
    let start = chip.pc();
    assert_eq!(chip.execute(Instruction::SkipIfRegistersEqual { x: 1, y: 2 }, 0), Ok(Flow::Skip));
    assert_eq!(
        chip.execute(Instruction::SkipIfRegistersEqual { x: 1, y: 3 }, 0),
        Ok(Flow::Advance)
    );
    assert_eq!(
        chip.execute(Instruction::SkipIfRegistersNotEqual { x: 1, y: 3 }, 0),
        Ok(Flow::Skip)
    );
    assert_eq!(
        chip.execute(Instruction::SkipIfRegistersNotEqual { x: 1, y: 2 }, 0),
        Ok(Flow::Advance)
    );
    assert_eq!(chip.pc(), start + 12);
}

#[test]
fn jump_sets_the_program_counter() {
    let mut chip = CHIP8::new();
    assert_eq!(chip.execute(Instruction::Jump { addr: 0xABC }, 0), Ok(Flow::Jump));
    assert_eq!(chip.pc(), 0xABC);
}

#[test]
fn jump_with_offset_adds_register_zero() {
    let mut chip = machine_with(Quirks::legacy(), &[(0, 5)]);
    assert_eq!(chip.execute(Instruction::JumpWithOffset { addr: 0x300 }, 0), Ok(Flow::Jump));
    assert_eq!(chip.pc(), 0x305);
    let mut chip = machine_with(Quirks::legacy(), &[(0, 0xFF)]);
    chip.execute(Instruction::JumpWithOffset { addr: 0xFFF }, 0).unwrap();
    assert_eq!(chip.pc(), 0x10FE);
}

#[test]
fn call_pushes_and_return_pops() {
    let mut chip = CHIP8::new();
    assert_eq!(chip.execute(Instruction::Call { addr: 0x300 }, 0), Ok(Flow::Jump));
    assert_eq!(chip.pc(), 0x300);
    assert_eq!(chip.stack_pointer(), 1);
    assert_eq!(chip.execute(Instruction::Return, 0), Ok(Flow::Jump));
    assert_eq!(chip.pc(), 0x202);
    assert_eq!(chip.stack_pointer(), 0);
}

#[test]
fn nested_calls_return_in_reverse_order() {
    let mut chip = CHIP8::new();
    chip.execute(Instruction::Call { addr: 0x300 }, 0).unwrap();
    chip.execute(Instruction::Call { addr: 0x400 }, 0).unwrap();
    chip.execute(Instruction::Call { addr: 0x500 }, 0).unwrap();
    assert_eq!(chip.stack_pointer(), 3);
    chip.execute(Instruction::Return, 0).unwrap();
    assert_eq!(chip.pc(), 0x402);
    chip.execute(Instruction::Return, 0).unwrap();
    assert_eq!(chip.pc(), 0x302);
    chip.execute(Instruction::Return, 0).unwrap();
    assert_eq!(chip.pc(), 0x202);
    assert_eq!(chip.stack_pointer(), 0);
}

#[test]
fn return_on_an_empty_stack_is_an_underflow() {
    let mut chip = machine_with(Quirks::legacy(), &[(1, 9)]);
    let pc = chip.pc();
    assert_eq!(chip.execute(Instruction::Return, 0), Err(Chip8Error::StackUnderflow));
    assert_eq!(chip.pc(), pc);
    assert_eq!(chip.stack_pointer(), 0);
    assert_eq!(chip.v(1), 9);
    assert_eq!(chip.execute(Instruction::Return, 0), Err(Chip8Error::StackUnderflow));
}

#[test]
fn seventeenth_call_is_an_overflow() {
    let mut chip = CHIP8::new();
    for depth in 0..16u16 {
        assert_eq!(chip.execute(Instruction::Call { addr: 0x300 + depth }, 0), Ok(Flow::Jump));
    }
    assert_eq!(chip.stack_pointer(), 16);
    let pc = chip.pc();
    assert_eq!(chip.execute(Instruction::Call { addr: 0x400 }, 0), Err(Chip8Error::StackOverflow));
    assert_eq!(chip.pc(), pc);
    assert_eq!(chip.stack_pointer(), 16);
    assert_eq!(chip.execute(Instruction::Call { addr: 0x400 }, 0), Err(Chip8Error::StackOverflow));
    assert_eq!(chip.execute(Instruction::Return, 0), Ok(Flow::Jump));
    assert_eq!(chip.pc(), 0x300 + 14 + 2);
    assert_eq!(chip.stack_pointer(), 15);
}

#[test]
fn load_address_sets_i() {
    let mut chip = CHIP8::new();
    assert_eq!(chip.execute(Instruction::LoadAddress { addr: 0x2F0 }, 0), Ok(Flow::Advance));
    assert_eq!(chip.i(), 0x2F0);
    assert_eq!(chip.pc(), 0x202);
}

#[test]
fn add_to_address_adds_the_register() {
    let mut chip = machine_with(Quirks::legacy(), &[(3, 0xFF)]);
    chip.execute(Instruction::LoadAddress { addr: 0xFFF }, 0).unwrap();
    chip.execute(Instruction::AddToAddress { x: 3 }, 0).unwrap();
    assert_eq!(chip.i(), 0x10FE);
    assert_eq!(chip.v(0xF), 0);
}

#[test]
fn add_to_address_wraps_at_sixteen_bits() {
    let mut chip = machine_with(Quirks::legacy(), &[(3, 0xFF)]);
    chip.execute(Instruction::LoadAddress { addr: 0xFFF }, 0).unwrap();
    let mut expected: u32 = 0xFFF;
    for _ in 0..300 {
        chip.execute(Instruction::AddToAddress { x: 3 }, 0).unwrap();
        expected = (expected + 0xFF) % 0x10000;
        assert_eq!(chip.i() as u32, expected);
    }
    assert!(expected < 0xFFF + 300 * 0xFF);
}

#[test]
fn random_masks_the_given_byte() {
    let mut chip = CHIP8::new();
    assert_eq!(chip.execute(Instruction::Random { x: 1, byte: 0x0F }, 0xAB), Ok(Flow::Advance));
    assert_eq!(chip.v(1), 0x0B);
    chip.execute(Instruction::Random { x: 1, byte: 0xF0 }, 0xAB).unwrap();
    assert_eq!(chip.v(1), 0xA0);
    chip.execute(Instruction::Random { x: 1, byte: 0x00 }, 0xFF).unwrap();
    assert_eq!(chip.v(1), 0);
    chip.execute(Instruction::Random { x: 1, byte: 0xFF }, 0x5A).unwrap();
    assert_eq!(chip.v(1), 0x5A);
}

#[test]
fn run_instruction_draws_random_bytes_below_255() {
    let mut chip = CHIP8::new();
    let mut seen = [false; 256];
    for _ in 0..4000 {
        assert_eq!(chip.run_instruction(&OpCode::new(0xC1FF)), Ok(Flow::Advance));
        seen[chip.v(1) as usize] = true;
    }
    assert!(!seen[255]);
    let distinct = seen.iter().filter(|hit| **hit).count();
    assert!(distinct > 100);
}

#[test]
fn run_instruction_masks_its_random_byte() {
    let mut chip = CHIP8::new();
    for _ in 0..200 {
        chip.run_instruction(&OpCode::new(0xC20F)).unwrap();
        assert!(chip.v(2) <= 0x0F);
        chip.run_instruction(&OpCode::new(0xC300)).unwrap();
        assert_eq!(chip.v(3), 0);
    }
}

#[test]
fn run_instruction_decodes_the_word() {
    let mut chip = CHIP8::new();
    assert_eq!(chip.run_instruction(&OpCode::new(0x6A2C)), Ok(Flow::Advance));
    assert_eq!(chip.v(0xA), 0x2C);
    assert_eq!(chip.run_instruction(&OpCode::new(0x7A01)), Ok(Flow::Advance));
    assert_eq!(chip.v(0xA), 0x2D);
    assert_eq!(chip.run_instruction(&OpCode::new(0x3A2D)), Ok(Flow::Skip));
    assert_eq!(chip.pc(), 0x208);
    assert_eq!(chip.run_instruction(&OpCode::new(0x00EE)), Err(Chip8Error::StackUnderflow));
    assert_eq!(chip.pc(), 0x208);
}

#[test]
fn key_skips_follow_the_key_state() {
    let mut chip = machine_with(Quirks::legacy(), &[(1, 5)]);
    let start = chip.pc();
    assert_eq!(chip.execute(Instruction::SkipIfKeyPressed { x: 1 }, 0), Ok(Flow::Advance));
    assert_eq!(chip.execute(Instruction::SkipIfKeyNotPressed { x: 1 }, 0), Ok(Flow::Skip));
    assert_eq!(chip.pc(), start + 6);
    chip.press_key(5, true);
    assert_eq!(chip.execute(Instruction::SkipIfKeyPressed { x: 1 }, 0), Ok(Flow::Skip));
    assert_eq!(chip.execute(Instruction::SkipIfKeyNotPressed { x: 1 }, 0), Ok(Flow::Advance));
    assert_eq!(chip.pc(), start + 12);
}

#[test]
fn key_skips_read_the_low_four_bits_of_the_register() {
    let mut chip = machine_with(Quirks::legacy(), &[(1, 0x35)]);
    chip.press_key(5, true);
    assert_eq!(chip.execute(Instruction::SkipIfKeyPressed { x: 1 }, 0), Ok(Flow::Skip));
    chip.press_key(5, false);
    assert_eq!(chip.execute(Instruction::SkipIfKeyPressed { x: 1 }, 0), Ok(Flow::Advance));
}

#[test]
fn wait_for_key_blocks_until_a_key_is_down() {
    let mut chip = machine_with(Quirks::legacy(), &[(4, 0x77)]);
    let pc = chip.pc();
    for _ in 0..5 {
        assert_eq!(chip.execute(Instruction::WaitForKey { x: 4 }, 0), Ok(Flow::Wait));
        assert_eq!(chip.pc(), pc);
        assert_eq!(chip.v(4), 0x77);
    }
    chip.press_key(0xB, true);
    assert_eq!(chip.execute(Instruction::WaitForKey { x: 4 }, 0), Ok(Flow::Advance));
    assert_eq!(chip.v(4), 0xB);
    assert_eq!(chip.pc(), pc + 2);
}

#[test]
fn wait_for_key_takes_the_lowest_key_down() {
    let mut chip = CHIP8::new();
    chip.press_key(7, true);
    chip.press_key(3, true);
    chip.press_key(0xF, true);
    chip.execute(Instruction::WaitForKey { x: 0 }, 0).unwrap();
    assert_eq!(chip.v(0), 3);
}

#[test]
fn wait_for_key_sees_key_zero() {
    let mut chip = machine_with(Quirks::legacy(), &[(2, 9)]);
    chip.press_key(0, true);
    assert_eq!(chip.execute(Instruction::WaitForKey { x: 2 }, 0), Ok(Flow::Advance));
    assert_eq!(chip.v(2), 0);
}

#[test]
fn timers_are_set_and_read_through_registers() {
    let mut chip = machine_with(Quirks::legacy(), &[(1, 30), (2, 40)]);
    chip.execute(Instruction::SetDelayTimer { x: 1 }, 0).unwrap();
    chip.execute(Instruction::SetSoundTimer { x: 2 }, 0).unwrap();
    assert_eq!(chip.delay_timer(), 30);
    assert_eq!(chip.sound_timer(), 40);
    chip.timers_tick();
    chip.execute(Instruction::ReadDelayTimer { x: 3 }, 0).unwrap();
    assert_eq!(chip.v(3), 29);
    assert_eq!(chip.sound_timer(), 39);
}

#[test]
fn glyph_address_is_five_times_the_digit() {
    for digit in 0..16u8 {
        let mut chip = machine_with(Quirks::legacy(), &[(1, digit)]);
        chip.execute(Instruction::LoadGlyphAddress { x: 1 }, 0).unwrap();
        assert_eq!(chip.i(), 5 * digit as u16);
    }
}

#[test]
fn glyph_address_wraps_in_eight_bits() {
    let mut chip = machine_with(Quirks::legacy(), &[(1, 52)]);
    chip.execute(Instruction::LoadGlyphAddress { x: 1 }, 0).unwrap();
    assert_eq!(chip.i(), 4);
    let mut chip = machine_with(Quirks::legacy(), &[(1, 255)]);
    chip.execute(Instruction::LoadGlyphAddress { x: 1 }, 0).unwrap();
    assert_eq!(chip.i(), 251);
}

#[test]
fn store_decimal_writes_three_digits() {
    let cases: [(u8, [u8; 3]); 5] =
        [(0, [0, 0, 0]), (7, [0, 0, 7]), (42, [0, 4, 2]), (254, [2, 5, 4]), (255, [2, 5, 5])];
    for (value, digits) in cases {
        let mut chip = machine_with(Quirks::legacy(), &[(6, value)]);
        chip.execute(Instruction::LoadAddress { addr: 0x400 }, 0).unwrap();
        chip.execute(Instruction::StoreDecimal { x: 6 }, 0).unwrap();
        assert_eq!([chip.ram(0x400), chip.ram(0x401), chip.ram(0x402)], digits);
        assert_eq!(chip.ram(0x403), 0);
        assert_eq!(chip.i(), 0x400);
    }
}

#[test]
fn store_decimal_goes_round_the_end_of_memory() {
    let mut chip = machine_with(Quirks::legacy(), &[(6, 123)]);
    chip.execute(Instruction::LoadAddress { addr: 0xFFF }, 0).unwrap();
    chip.execute(Instruction::StoreDecimal { x: 6 }, 0).unwrap();
    assert_eq!(chip.ram(0xFFF), 1);
    assert_eq!(chip.ram(0x000), 2);
    assert_eq!(chip.ram(0x001), 3);
    assert_eq!(chip.ram(0x002), 0x90);
}

#[test]
fn store_registers_legacy_moves_i_past_the_block() {
    let mut chip = machine_with(Quirks::legacy(), &[(0, 10), (1, 11), (2, 12), (3, 13)]);
    chip.execute(Instruction::LoadAddress { addr: 0x500 }, 0).unwrap();
    chip.execute(Instruction::StoreRegisters { x: 2 }, 0).unwrap();
    let stored = [chip.ram(0x500), chip.ram(0x501), chip.ram(0x502), chip.ram(0x503)];
    assert_eq!(stored, [10, 11, 12, 0]);
    assert_eq!(chip.i(), 0x503);
}

#[test]
fn store_registers_modern_leaves_i() {
    let mut chip = machine_with(Quirks::modern(), &[(0, 10), (1, 11), (2, 12), (3, 13)]);
    chip.execute(Instruction::LoadAddress { addr: 0x500 }, 0).unwrap();
    chip.execute(Instruction::StoreRegisters { x: 2 }, 0).unwrap();
    let stored = [chip.ram(0x500), chip.ram(0x501), chip.ram(0x502), chip.ram(0x503)];
    assert_eq!(stored, [10, 11, 12, 0]);
    assert_eq!(chip.i(), 0x500);
}

#[test]
fn store_all_registers() {
    let mut chip = CHIP8::with_quirks(Quirks::legacy());
    for x in 0..16u8 {
        chip.execute(Instruction::Load { x, byte: 0xA0 + x }, 0).unwrap();
    }
    chip.execute(Instruction::LoadAddress { addr: 0x600 }, 0).unwrap();
    chip.execute(Instruction::StoreRegisters { x: 0xF }, 0).unwrap();
    for x in 0..16usize {
        assert_eq!(chip.ram(0x600 + x), 0xA0 + x as u8);
    }
    assert_eq!(chip.ram(0x610), 0);
    assert_eq!(chip.i(), 0x610);
}

#[test]
fn load_registers_reads_the_block() {
    let mut chip = machine_with(Quirks::legacy(), &[(0, 10), (1, 11), (2, 12), (3, 13)]);
    chip.execute(Instruction::LoadAddress { addr: 0x500 }, 0).unwrap();
    chip.execute(Instruction::StoreRegisters { x: 3 }, 0).unwrap();
    let mut other = machine_with(Quirks::legacy(), &[(3, 99)]);
    let memory: Vec<u8> = (0x200..0x504).map(|a| chip.ram(a)).collect();
    other.load_rom_data(&memory).unwrap();
    other.execute(Instruction::LoadAddress { addr: 0x500 }, 0).unwrap();
    other.execute(Instruction::LoadRegisters { x: 2 }, 0).unwrap();
    assert_eq!([other.v(0), other.v(1), other.v(2), other.v(3)], [10, 11, 12, 99]);
    assert_eq!(other.i(), 0x503);
}

#[test]
fn load_registers_modern_leaves_i() {
    let mut chip = CHIP8::with_quirks(Quirks::modern());
    chip.execute(Instruction::LoadAddress { addr: 0x000 }, 0).unwrap();
    chip.execute(Instruction::LoadRegisters { x: 4 }, 0).unwrap();
    let loaded = [chip.v(0), chip.v(1), chip.v(2), chip.v(3), chip.v(4)];
    assert_eq!(loaded, [0xF0, 0x90, 0x90, 0x90, 0xF0]);
    assert_eq!(chip.v(5), 0);
    assert_eq!(chip.i(), 0);
}

#[test]
fn block_transfers_go_round_the_end_of_memory() {
    let mut chip = machine_with(Quirks::modern(), &[(0, 1), (1, 2), (2, 3)]);
    chip.execute(Instruction::LoadAddress { addr: 0xFFE }, 0).unwrap();
    chip.execute(Instruction::StoreRegisters { x: 2 }, 0).unwrap();
    assert_eq!([chip.ram(0xFFE), chip.ram(0xFFF), chip.ram(0x000)], [1, 2, 3]);
    assert_eq!(chip.ram(0x001), 0x90);
    chip.execute(Instruction::Load { x: 0, byte: 0 }, 0).unwrap();
    chip.execute(Instruction::Load { x: 2, byte: 0 }, 0).unwrap();
    chip.execute(Instruction::LoadRegisters { x: 2 }, 0).unwrap();
    assert_eq!([chip.v(0), chip.v(1), chip.v(2)], [1, 2, 3]);
}

#[test]
fn unsupported_word_only_advances() {
    let mut chip = machine_with(Quirks::legacy(), &[(1, 9)]);
    let pc = chip.pc();
    assert_eq!(chip.execute(Instruction::Unsupported { word: 0x0123 }, 0), Ok(Flow::Unsupported));
    assert_eq!(chip.pc(), pc + 2);
    assert_eq!(chip.v(1), 9);
    assert_eq!(chip.run_instruction(&OpCode::new(0xF0FF)), Ok(Flow::Unsupported));
    assert_eq!(chip.pc(), pc + 4);
}

#[test]
fn program_counter_wraps_at_sixteen_bits() {
    let mut chip = machine_with(Quirks::legacy(), &[(0, 0xFF)]);
    chip.execute(Instruction::JumpWithOffset { addr: 0xFFF }, 0).unwrap();
    assert_eq!(chip.pc(), 0x10FE);
    let mut expected: u32 = 0x10FE;
    for _ in 0..0x8000 {
        chip.execute(Instruction::Load { x: 1, byte: 0 }, 0).unwrap();
        expected = (expected + 2) % 0x10000;
        assert_eq!(chip.pc() as u32, expected);
    }
}

#[test]
fn every_quirk_switch_acts_alone() {
    let only_shift = Quirks {
        clear_flags_on_logic: false,
        shift_reads_second_operand: true,
        advance_address_on_transfer: false,
        clip_sprites: false,
    };
    let mut chip = machine_with(only_shift, &[(1, 0b1100), (2, 0b1011), (0xF, 1)]);
    assert_eq!(chip.quirks(), only_shift);
    chip.execute(Instruction::Or { x: 1, y: 2 }, 0).unwrap();
    assert_eq!(chip.v(0xF), 1);
    chip.execute(Instruction::ShiftRight { x: 1, y: 2 }, 0).unwrap();
    assert_eq!(chip.v(1), 0b0101);
    assert_eq!(chip.v(0xF), 1);
    chip.execute(Instruction::LoadAddress { addr: 0x300 }, 0).unwrap();
    chip.execute(Instruction::StoreRegisters { x: 1 }, 0).unwrap();
    assert_eq!(chip.i(), 0x300);
}
