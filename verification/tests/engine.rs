use chip8::cpu::CHIP8;
use chip8::font::{FONT_SET, FONT_SIZE, SPRITE_LENGTH};
use chip8::machine::{
    Chip8Error, MEMORY, PROGRAM_START, STACK_SIZE, TICKS_PER_CYCLE, TICK_INTERVAL_NANOS,
    TOTAL_KEYS, VRAM_HEIGHT, VRAM_SIZE, VRAM_WIDTH, V_REGISTER_COUNT,
};
use chip8::op_code::OpCode;
use chip8::quirks::Quirks;

const DUE: u128 = 16_666_667;

#[test]
fn constants_have_the_sizes_of_the_machine() {
    assert_eq!(MEMORY, 4096);
    assert_eq!(PROGRAM_START, 0x200);
    assert_eq!(V_REGISTER_COUNT, 16);
    assert_eq!(STACK_SIZE, 16);
    assert_eq!(TOTAL_KEYS, 16);
    assert_eq!(VRAM_WIDTH * VRAM_HEIGHT, VRAM_SIZE);
    assert_eq!(FONT_SIZE, 16 * SPRITE_LENGTH as usize);
    assert_eq!(TICKS_PER_CYCLE, 8);
    assert_eq!(TICK_INTERVAL_NANOS, 1_000_000_000 / 60);
}

#[test]
fn new_machine_is_zeroed_but_for_font_and_program_counter() {
    let chip = CHIP8::new();
    assert_eq!(chip.pc(), 0x200);
    assert_eq!(chip.i(), 0);
    assert_eq!(chip.delay_timer(), 0);
    assert_eq!(chip.sound_timer(), 0);
    assert_eq!(chip.stack_pointer(), 0);
    for x in 0..16 {
        assert_eq!(chip.v(x), 0);
        assert!(!chip.is_key_pressed(x));
    }
    assert!(chip.vram().iter().all(|cell| *cell == 0));
    assert_eq!(chip.vram().len(), 2048);
    for address in 80..4096 {
        assert_eq!(chip.ram(address), 0);
    }
}

#[test]
fn new_machine_holds_the_font_at_the_bottom_of_memory() {
    let chip = CHIP8::new();
    for address in 0..80 {
        assert_eq!(chip.ram(address), FONT_SET[address]);
    }
    let zero: Vec<u8> = (0..5).map(|a| chip.ram(a)).collect();
    assert_eq!(zero, vec![0xF0, 0x90, 0x90, 0x90, 0xF0]);
    let one: Vec<u8> = (5..10).map(|a| chip.ram(a)).collect();
    assert_eq!(one, vec![0x20, 0x60, 0x20, 0x20, 0x70]);
    let f: Vec<u8> = (75..80).map(|a| chip.ram(a)).collect();
    assert_eq!(f, vec![0xF0, 0x80, 0xF0, 0x80, 0x80]);
}

#[test]
fn new_machine_has_the_legacy_profile() {
    assert_eq!(CHIP8::new().quirks(), Quirks::legacy());
    assert_eq!(CHIP8::with_quirks(Quirks::modern()).quirks(), Quirks::modern());
    assert!(Quirks::legacy().clear_flags_on_logic);
    assert!(Quirks::legacy().shift_reads_second_operand);
    assert!(Quirks::legacy().advance_address_on_transfer);
    assert!(Quirks::legacy().clip_sprites);
    assert!(!Quirks::modern().clear_flags_on_logic);
    assert!(!Quirks::modern().shift_reads_second_operand);
    assert!(!Quirks::modern().advance_address_on_transfer);
    assert!(!Quirks::modern().clip_sprites);
}

#[test]
fn load_rom_data_copies_from_the_program_start() {
    let mut chip = CHIP8::new();
    assert_eq!(chip.load_rom_data(&[0x60, 0x05, 0x70, 0x03]), Ok(()));
    assert_eq!(chip.ram(0x1FF), 0);
    assert_eq!(chip.ram(0x200), 0x60);
    assert_eq!(chip.ram(0x201), 0x05);
    assert_eq!(chip.ram(0x202), 0x70);
    assert_eq!(chip.ram(0x203), 0x03);
    assert_eq!(chip.ram(0x204), 0);
    assert_eq!(chip.ram(0), 0xF0);
    assert_eq!(chip.pc(), 0x200);
}

#[test]
fn load_rom_data_accepts_an_empty_program() {
    let mut chip = CHIP8::new();
    assert_eq!(chip.load_rom_data(&[]), Ok(()));
    assert_eq!(chip.ram(0x200), 0);
}

#[test]
fn load_rom_data_accepts_a_program_that_fills_memory() {
    let mut chip = CHIP8::new();
    let program: Vec<u8> = (0..3584u32).map(|k| (k % 251) as u8 + 1).collect();
    assert_eq!(chip.load_rom_data(&program), Ok(()));
    assert_eq!(chip.ram(0x200), 1);
    assert_eq!(chip.ram(0xFFF), (3583 % 251) as u8 + 1);
    for (k, byte) in program.iter().enumerate() {
        assert_eq!(chip.ram(0x200 + k), *byte);
    }
    assert_eq!(chip.ram(0x1FF), 0);
}

#[test]
fn load_rom_data_refuses_a_program_one_byte_too_long() {
    let mut chip = CHIP8::new();
    let program: Vec<u8> = vec![0xAA; 3585];
    assert_eq!(chip.load_rom_data(&program), Err(Chip8Error::RomTooLarge));
    for address in 0x200..0x1000 {
        assert_eq!(chip.ram(address), 0);
    }
    assert_eq!(chip.load_rom_data(&vec![0xAA; 100_000]), Err(Chip8Error::RomTooLarge));
    assert_eq!(chip.ram(0x200), 0);
}

#[test]
fn every_error_has_its_own_message() {
    let messages = [
        Chip8Error::RomTooLarge.message(),
        Chip8Error::StackOverflow.message(),
        Chip8Error::StackUnderflow.message(),
    ];
    assert!(messages[0].contains("ROM"));
    assert!(messages[1].contains("overflow"));
    assert!(messages[2].contains("underflow"));
    assert_ne!(messages[0], messages[1]);
    assert_ne!(messages[1], messages[2]);
}

#[test]
fn press_key_is_last_write_wins() {
    let mut chip = CHIP8::new();
    chip.press_key(0xA, true);
    assert!(chip.is_key_pressed(0xA));
    assert!(!chip.is_key_pressed(0x9));
    chip.press_key(0xA, true);
    assert!(chip.is_key_pressed(0xA));
    chip.press_key(0xA, false);
    assert!(!chip.is_key_pressed(0xA));
    chip.press_key(0, true);
    chip.press_key(15, true);
    assert!(chip.is_key_pressed(0) && chip.is_key_pressed(15));
}

#[test]
fn get_op_code_reads_the_high_byte_first() {
    let mut chip = CHIP8::new();
    chip.load_rom_data(&[0x12, 0x34]).unwrap();
    assert_eq!(chip.get_op_code(), 0x1234);
}

#[test]
fn get_op_code_goes_round_the_end_of_memory() {
    let mut chip = CHIP8::new();
    let mut program: Vec<u8> = vec![0; 3584];
    program[0] = 0x1F;
    program[1] = 0xFF;
    program[3583] = 0x61;
    chip.load_rom_data(&program).unwrap();
    assert_eq!(chip.cosmac_cycle_ticks(1), Ok(0));
    assert_eq!(chip.pc(), 0xFFF);
    assert_eq!(chip.get_op_code(), 0x61F0);
    assert_eq!(chip.cosmac_cycle_ticks(1), Ok(0));
    assert_eq!(chip.v(1), 0xF0);
    assert_eq!(chip.pc(), 0x1001);
    assert_eq!(chip.get_op_code(), 0x9090);
}

#[test]
fn scenario_load_five_then_add_three() {
    let mut chip = CHIP8::new();
    chip.load_rom_data(&[0x60, 0x05, 0x70, 0x03]).unwrap();
    for _ in 0..2 {
        let word = chip.get_op_code();
        chip.run_instruction(&OpCode::new(word)).unwrap();
    }
    assert_eq!(chip.v(0), 8);
    assert_eq!(chip.pc(), 0x204);
}

#[test]
fn scenario_load_five_then_add_three_as_a_batch() {
    let mut chip = CHIP8::with_quirks(Quirks::modern());
    chip.load_rom_data(&[0x60, 0x05, 0x70, 0x03]).unwrap();
    assert_eq!(chip.cosmac_cycle_ticks(2), Ok(0));
    assert_eq!(chip.v(0), 8);
    assert_eq!(chip.pc(), 0x200 + 4);
}

#[test]
fn scenario_single_jump() {
    let mut chip = CHIP8::new();
    assert_eq!(chip.pc(), 0x200);
    chip.load_rom_data(&[0x13, 0x00]).unwrap();
    assert_eq!(chip.cosmac_cycle_ticks(1), Ok(0));
    assert_eq!(chip.pc(), 0x300);
}

#[test]
fn scenario_sound_timer_runs_out_after_two_ticks() {
    let mut chip = CHIP8::new();
    chip.load_rom_data(&[0x60, 0x02, 0xF0, 0x18]).unwrap();
    assert_eq!(chip.cosmac_cycle_ticks(2), Ok(0));
    assert_eq!(chip.sound_timer(), 2);
    chip.timers_tick();
    assert_eq!(chip.sound_timer(), 1);
    chip.timers_tick();
    assert_eq!(chip.sound_timer(), 0);
    chip.timers_tick();
    assert_eq!(chip.sound_timer(), 0);
}

#[test]
fn scenario_sound_timer_runs_out_after_two_due_ticks() {
    let mut chip = CHIP8::new();
    chip.load_rom_data(&[0x60, 0x02, 0xF0, 0x18, 0x12, 0x04]).unwrap();
    assert_eq!(chip.tick(DUE), Ok(Some(0)));
    assert_eq!(chip.sound_timer(), 2);
    assert_eq!(chip.pc(), 0x204);
    assert_eq!(chip.tick(DUE), Ok(Some(0)));
    assert_eq!(chip.sound_timer(), 1);
    assert_eq!(chip.tick(DUE), Ok(Some(0)));
    assert_eq!(chip.sound_timer(), 0);
    assert_eq!(chip.tick(DUE), Ok(Some(0)));
    assert_eq!(chip.sound_timer(), 0);
}

#[test]
fn timers_tick_counts_both_timers_down_to_zero() {
    let mut chip = CHIP8::new();
    chip.load_rom_data(&[0x60, 0x03, 0x61, 0x01, 0xF0, 0x15, 0xF1, 0x18]).unwrap();
    assert_eq!(chip.cosmac_cycle_ticks(4), Ok(0));
    assert_eq!((chip.delay_timer(), chip.sound_timer()), (3, 1));
    chip.timers_tick();
    assert_eq!((chip.delay_timer(), chip.sound_timer()), (2, 0));
    chip.timers_tick();
    assert_eq!((chip.delay_timer(), chip.sound_timer()), (1, 0));
    chip.timers_tick();
    assert_eq!((chip.delay_timer(), chip.sound_timer()), (0, 0));
    chip.timers_tick();
    assert_eq!((chip.delay_timer(), chip.sound_timer()), (0, 0));
}

#[test]
fn timers_tick_counts_down_from_255() {
    let mut chip = CHIP8::new();
    chip.load_rom_data(&[0x60, 0xFF, 0xF0, 0x15]).unwrap();
    chip.cosmac_cycle_ticks(2).unwrap();
    for left in (0..255u8).rev() {
        chip.timers_tick();
        assert_eq!(chip.delay_timer(), left);
    }
}

#[test]
fn tick_is_not_due_within_a_sixtieth_of_a_second() {
    let mut chip = CHIP8::new();
    chip.load_rom_data(&[0x60, 0x05, 0xF0, 0x15]).unwrap();
    chip.cosmac_cycle_ticks(2).unwrap();
    let pc = chip.pc();
    for elapsed in [0u128, 1, 1_000_000, 16_000_000, 16_666_666] {
        assert_eq!(chip.tick(elapsed), Ok(None));
        assert_eq!(chip.pc(), pc);
        assert_eq!(chip.delay_timer(), 5);
    }
}

#[test]
fn tick_is_due_after_a_sixtieth_of_a_second() {
    let mut chip = CHIP8::new();
    let program: Vec<u8> = [0x70u8, 0x01].iter().cycle().take(40).cloned().collect();
    chip.load_rom_data(&program).unwrap();
    assert_eq!(chip.tick(16_666_667), Ok(Some(0)));
    assert_eq!(chip.v(0), 8);
    assert_eq!(chip.pc(), 0x210);
    assert_eq!(chip.tick(17_000_000), Ok(Some(0)));
    assert_eq!(chip.v(0), 16);
    assert_eq!(chip.pc(), 0x220);
}

#[test]
fn tick_does_not_catch_up_on_lost_time() {
    let mut chip = CHIP8::new();
    chip.load_rom_data(&[0x60, 0x0A, 0xF0, 0x15, 0x12, 0x04]).unwrap();
    assert_eq!(chip.tick(DUE), Ok(Some(0)));
    assert_eq!(chip.delay_timer(), 10);
    assert_eq!(chip.tick(10_000_000_000), Ok(Some(0)));
    assert_eq!(chip.delay_timer(), 9);
    assert_eq!(chip.tick(u128::MAX), Ok(Some(0)));
    assert_eq!(chip.delay_timer(), 8);
}

#[test]
fn tick_counts_the_unsupported_words_it_met() {
    let mut chip = CHIP8::new();
    assert_eq!(chip.tick(DUE), Ok(Some(8)));
    assert_eq!(chip.pc(), 0x210);
    let mut chip = CHIP8::new();
    chip.load_rom_data(&[0x60, 0x01, 0x01, 0x23, 0x60, 0x02, 0xFF, 0xFF, 0x12, 0x08]).unwrap();
    assert_eq!(chip.tick(DUE), Ok(Some(2)));
    assert_eq!(chip.v(0), 2);
    assert_eq!(chip.pc(), 0x208);
}

#[test]
fn batch_of_no_instructions_changes_nothing() {
    let mut chip = CHIP8::new();
    chip.load_rom_data(&[0x60, 0x05]).unwrap();
    assert_eq!(chip.cosmac_cycle_ticks(0), Ok(0));
    assert_eq!(chip.pc(), 0x200);
    assert_eq!(chip.v(0), 0);
}

#[test]
fn batch_stops_at_a_stack_overflow() {
    let mut chip = CHIP8::new();
    chip.load_rom_data(&[0x22, 0x00]).unwrap();
    assert_eq!(chip.cosmac_cycle_ticks(16), Ok(0));
    assert_eq!(chip.stack_pointer(), 16);
    assert_eq!(chip.cosmac_cycle_ticks(5), Err(Chip8Error::StackOverflow));
    assert_eq!(chip.stack_pointer(), 16);
    assert_eq!(chip.pc(), 0x200);
    assert_eq!(chip.tick(DUE), Err(Chip8Error::StackOverflow));
    assert_eq!(chip.pc(), 0x200);
}

#[test]
fn batch_keeps_what_ran_before_the_fault() {
    let mut chip = CHIP8::new();
    chip.load_rom_data(&[0x60, 0x07, 0x61, 0x09, 0x00, 0xEE, 0x62, 0x01]).unwrap();
    assert_eq!(chip.cosmac_cycle_ticks(8), Err(Chip8Error::StackUnderflow));
    assert_eq!(chip.v(0), 7);
    assert_eq!(chip.v(1), 9);
    assert_eq!(chip.v(2), 0);
    assert_eq!(chip.pc(), 0x204);
    assert_eq!(chip.cosmac_cycle_ticks(8), Err(Chip8Error::StackUnderflow));
    assert_eq!(chip.pc(), 0x204);
}

#[test]
fn tick_ticks_the_timers_even_when_the_batch_faults() {
    let mut chip = CHIP8::new();
    chip.load_rom_data(&[0x60, 0x05, 0xF0, 0x15, 0x00, 0xEE]).unwrap();
    assert_eq!(chip.tick(DUE), Err(Chip8Error::StackUnderflow));
    assert_eq!(chip.delay_timer(), 5);
    assert_eq!(chip.tick(DUE), Err(Chip8Error::StackUnderflow));
    assert_eq!(chip.delay_timer(), 4);
}

#[test]
fn call_then_return_resumes_after_the_call() {
    let mut chip = CHIP8::new();
    let mut program: Vec<u8> = vec![0; 0x102];
    program[0] = 0x23;
    program[1] = 0x00;
    program[0x100] = 0x00;
    program[0x101] = 0xEE;
    chip.load_rom_data(&program).unwrap();
    assert_eq!(chip.cosmac_cycle_ticks(1), Ok(0));
    assert_eq!(chip.pc(), 0x300);
    assert_eq!(chip.stack_pointer(), 1);
    assert_eq!(chip.cosmac_cycle_ticks(1), Ok(0));
    assert_eq!(chip.pc(), 0x202);
    assert_eq!(chip.stack_pointer(), 0);
}

#[test]
fn wait_for_key_returns_control_on_every_tick() {
    let mut chip = CHIP8::new();
    chip.load_rom_data(&[0xF3, 0x0A, 0x63, 0x63]).unwrap();
    for _ in 0..3 {
        assert_eq!(chip.tick(DUE), Ok(Some(0)));
        assert_eq!(chip.pc(), 0x200);
    }
    chip.press_key(9, true);
    assert_eq!(chip.cosmac_cycle_ticks(1), Ok(0));
    assert_eq!(chip.v(3), 9);
    assert_eq!(chip.pc(), 0x202);
}

#[test]
fn a_small_program_counts_to_ten() {
    // V0 = 0; loop: V0 += 1; skip if V0 == 10; jump loop; V1 = 0xAA; halt: jump halt
    let program: [u8; 12] =
        [0x60, 0x00, 0x70, 0x01, 0x30, 0x0A, 0x12, 0x02, 0x61, 0xAA, 0x12, 0x0A];
    let mut chip = CHIP8::new();
    chip.load_rom_data(&program).unwrap();
    for _ in 0..10 {
        assert_eq!(chip.tick(20_000_000), Ok(Some(0)));
    }
    assert_eq!(chip.v(0), 10);
    assert_eq!(chip.v(1), 0xAA);
    assert_eq!(chip.pc(), 0x20A);
}
