//! The interpreter engine.

use vstd::prelude::*;
use crate::font::{FONT_SET, FONT_SIZE, SPRITE_LENGTH};
use crate::instruction::{decoded, Instruction};
use crate::machine::{
    any_pressed, batch_report, initial_machine, initial_memory, is_lowest_pressed, lowest_pressed,
    tick_due, tick_report, wrap16, wrap8, Batch, Chip8Error, Flow, Machine, MEMORY,
    PROGRAM_START, STACK_SIZE, TICKS_PER_CYCLE, TICK_INTERVAL_NANOS, TOTAL_KEYS, VRAM_SIZE,
    V_REGISTER_COUNT,
};
use crate::op_code::OpCode;
use crate::quirks::{legacy_profile, Quirks};
use crate::random::random_byte;
use crate::display::{clear_cells, draw_sprite};

verus! {

/// CHIP-8 Interpreter
pub struct CHIP8 {
    ram: [u8; MEMORY],
    vram: [u8; VRAM_SIZE],
    v: [u8; V_REGISTER_COUNT],
    i: u16,
    delay_timer: u8,
    sound_timer: u8,
    pc: u16,
    stack_pointer: u8,
    stack: [u16; STACK_SIZE],
    keys: [bool; TOTAL_KEYS],
    quirks: Quirks,
}

impl View for CHIP8 {
    type V = Machine;

    closed spec fn view(&self) -> Machine {
        Machine {
            memory: self.ram@,
            registers: self.v@,
            address: self.i,
            pc: self.pc,
            stack: self.stack@.subrange(0, self.stack_pointer as int),
            delay_timer: self.delay_timer,
            sound_timer: self.sound_timer,
            keys: self.keys@,
            display: Seq::new(VRAM_SIZE as nat, |cell: int| self.vram@[cell] == 1),
            quirks: self.quirks,
        }
    }
}

impl CHIP8 {
    /// The representation invariant: the stack pointer is within the stack
    /// and every display cell holds 0 or 1.
    pub closed spec fn well_formed(&self) -> bool {
        &&& self.stack_pointer <= STACK_SIZE
        &&& forall|cell: int| 0 <= cell < VRAM_SIZE ==> self.vram@[cell] <= 1
    }

    /// A well-formed interpreter models a well-formed machine.
    pub proof fn view_is_well_formed(&self)
        requires
            self.well_formed(),
        ensures
            self@.well_formed(),
    {
    }

    /// An interpreter with the COSMAC VIP profile.
    pub fn new() -> (chip: CHIP8)
        ensures
            chip.well_formed(),
            chip@ == initial_machine(legacy_profile()),
    {
        CHIP8::with_quirks(Quirks::legacy())
    }

    /// An interpreter with the profile `quirks`: the font at the bottom of
    /// memory, the program counter at the program start, all else zero.
    pub fn with_quirks(quirks: Quirks) -> (chip: CHIP8)
        ensures
            chip.well_formed(),
            chip@ == initial_machine(quirks),
    {
        // Load font data to the interpreter area (0x000 to 0x1FF)
        let mut ram: [u8; MEMORY] = [0; MEMORY];
        let mut index: usize = 0;
        while index < FONT_SIZE
            invariant
                index <= FONT_SIZE,
                forall|a: int| 0 <= a < index ==> ram@[a] == FONT_SET@[a],
                forall|a: int| index <= a < MEMORY ==> ram@[a] == 0,
            decreases FONT_SIZE - index,
        {
            ram[index] = FONT_SET[index];
            index += 1;
        }
        let chip = CHIP8 {
            ram,
            vram: [0; VRAM_SIZE],
            v: [0; V_REGISTER_COUNT],
            i: 0,
            delay_timer: 0,
            sound_timer: 0,
            pc: PROGRAM_START as u16,
            stack_pointer: 0,
            stack: [0; STACK_SIZE],
            keys: [false; TOTAL_KEYS],
            quirks,
        };
        assert(chip@.memory =~= initial_memory());
        assert(chip@.registers =~= initial_machine(quirks).registers);
        assert(chip@.stack =~= initial_machine(quirks).stack);
        assert(chip@.keys =~= initial_machine(quirks).keys);
        assert(chip@.display =~= initial_machine(quirks).display);
        chip
    }

    /// Loads ROM data to the interpreter, from the program start on. A
    /// program that does not fit is refused and nothing is changed.
    pub fn load_rom_data(&mut self, data: &[u8]) -> (loaded: Result<(), Chip8Error>)
        requires
            old(self).well_formed(),
        ensures
            final(self).well_formed(),
            data@.len() > MEMORY - PROGRAM_START ==> loaded == Err::<(), Chip8Error>(
                Chip8Error::RomTooLarge,
            ) && final(self)@ == old(self)@,
            data@.len() <= MEMORY - PROGRAM_START ==> loaded == Ok::<(), Chip8Error>(())
                && final(self)@ == old(self)@.loaded(data@),
    {
        if data.len() > (MEMORY - PROGRAM_START) {
            return Err(Chip8Error::RomTooLarge);
        }
        copy_program(&mut self.ram, data);
        assert(self@.memory =~= old(self)@.loaded(data@).memory);
        Ok(())
    }

    /// Press or release a key on the 16-character keypad
    pub fn press_key(&mut self, key: usize, is_pressed: bool)
        requires
            old(self).well_formed(),
            key < TOTAL_KEYS,
        ensures
            final(self).well_formed(),
            final(self)@ == old(self)@.with_key(key as int, is_pressed),
    {
        self.keys[key] = is_pressed;
    }

    /// One 60 Hz tick of the timers: both count down by one and stop at zero.
    pub fn timers_tick(&mut self)
        requires
            old(self).well_formed(),
        ensures
            final(self).well_formed(),
            final(self)@ == old(self)@.timers_ticked(),
    {
        if self.delay_timer > 0 {
            self.delay_timer -= 1
        }
        if self.sound_timer > 0 {
            self.sound_timer -= 1;
        }
    }

    /// Get an operation code using the program counter
    pub fn get_op_code(&self) -> (word: u16)
        ensures
            word == self@.fetched(),
    {
        let addr: usize = self.pc as usize;
        let high: u8 = self.ram[addr % MEMORY];
        let low: u8 = self.ram[(addr + 1) % MEMORY];
        assert(((high as u16) << 8 | (low as u16)) == high * 256 + low) by (bit_vector);
        (high as u16) << 8 | (low as u16)
    }

    /// Increases the program counter by 2 to go to the next program instruction
    fn next_instruction(&mut self)
        ensures
            final(self)@ == old(self)@.advanced(),
            old(self).well_formed() ==> final(self).well_formed(),
    {
        self.pc = sum16(self.pc, 2);
    }

    /// Skip the next instruction in the program counter
    fn skip_instruction(&mut self)
        ensures
            final(self)@ == old(self)@.skipped_if(true),
            old(self).well_formed() ==> final(self).well_formed(),
    {
        self.pc = sum16(self.pc, 4);
    }

    /// Skip the next instruction if `condition` holds, else go to it
    fn skip_instruction_if(&mut self, condition: bool) -> (flow: Flow)
        ensures
            final(self)@ == old(self)@.skipped_if(condition),
            old(self).well_formed() ==> final(self).well_formed(),
            flow == crate::machine::skip_or_advance(condition),
    {
        if condition {
            self.skip_instruction();
            Flow::Skip
        } else {
            self.next_instruction();
            Flow::Advance
        }
    }

    /// Jump to an instruction in the program counter
    fn jump_to_instruction(&mut self, instruction: u16)
        ensures
            final(self)@ == old(self)@.with_pc(instruction),
            old(self).well_formed() ==> final(self).well_formed(),
    {
        self.pc = instruction;
    }

    /// Push to the CHIP-8 stack
    fn stack_push(&mut self, value: u16)
        requires
            old(self).well_formed(),
            old(self)@.stack.len() < STACK_SIZE,
        ensures
            final(self).well_formed(),
            final(self)@ == (Machine { stack: old(self)@.stack.push(value), ..old(self)@ }),
    {
        self.stack[self.stack_pointer as usize] = value;
        self.stack_pointer += 1;
        assert(self@.stack =~= old(self)@.stack.push(value));
    }

    /// Pop from the CHIP-8 stack
    fn stack_pop(&mut self) -> (value: u16)
        requires
            old(self).well_formed(),
            old(self)@.stack.len() > 0,
        ensures
            final(self).well_formed(),
            value == old(self)@.stack.last(),
            final(self)@ == (Machine { stack: old(self)@.stack.drop_last(), ..old(self)@ }),
    {
        self.stack_pointer -= 1;
        let value: u16 = self.stack[self.stack_pointer as usize];
        self.stack[self.stack_pointer as usize] = 0;
        assert(self@.stack =~= old(self)@.stack.drop_last());
        value
    }

    /// Moves I past the registers `V0..=Vx` that a block transfer used.
    /// The COSMAC VIP did this for the save and load opcodes Fx55 and Fx65.
    fn cosmac_increment_i(&mut self, x: u8)
        ensures
            final(self)@ == old(self)@.with_address(old(self)@.address_after_transfer(x)),
            old(self).well_formed() ==> final(self).well_formed(),
    {
        if self.quirks.advance_address_on_transfer {
            self.i = sum16(self.i, x as u16 + 1);
        }
    }

    /// Clears the VF flag
    /// The COSMAC VIP did this for the bitwise operand opcodes 8xy1, 8xy2 and 8xy3.
    fn cosmac_clear_vf(&mut self)
        ensures
            final(self)@ == if old(self)@.quirks.clear_flags_on_logic {
                old(self)@.with_flags(0)
            } else {
                old(self)@
            },
            old(self).well_formed() ==> final(self).well_formed(),
    {
        if self.quirks.clear_flags_on_logic {
            self.v[0xF] = 0;
        }
    }

    /// Sets the register VX to the value of VY
    /// The COSMAC VIP did this for the bitshift operand opcodes 8xy6 and 8xyE.
    fn cosmac_set_vx_to_vy(&mut self, x: usize, y: usize)
        requires
            x < V_REGISTER_COUNT,
            y < V_REGISTER_COUNT,
        ensures
            final(self)@ == old(self)@.with_register(
                x as u8,
                old(self)@.shift_operand(x as u8, y as u8),
            ),
            old(self).well_formed() ==> final(self).well_formed(),
    {
        if self.quirks.shift_reads_second_operand {
            self.v[x] = self.v[y];
        }
        assert(self@.registers =~= old(self)@.registers.update(
            x as int,
            old(self)@.shift_operand(x as u8, y as u8),
        ));
    }

    /// Stores `value` in `Vx` and goes to the next instruction.
    fn store(&mut self, x: u8, value: u8)
        requires
            x < V_REGISTER_COUNT,
        ensures
            final(self)@ == old(self)@.with_register(x, value).advanced(),
            old(self).well_formed() ==> final(self).well_formed(),
    {
        self.v[x as usize] = value;
        self.next_instruction();
    }

    /// Stores `value` in `Vx`, then `flag` in the flags register, and goes
    /// to the next instruction.
    fn store_with_flag(&mut self, x: u8, value: u8, flag: u8)
        requires
            x < V_REGISTER_COUNT,
        ensures
            final(self)@ == old(self)@.with_register(x, value).with_flags(flag).advanced(),
            old(self).well_formed() ==> final(self).well_formed(),
    {
        self.v[x as usize] = value;
        self.v[0xF] = flag;
        self.next_instruction();
    }

    /// Stores the result of a bitwise operation in `Vx` and goes to the next
    /// instruction.
    fn store_logic(&mut self, x: u8, value: u8)
        requires
            x < V_REGISTER_COUNT,
        ensures
            final(self)@ == old(self)@.after_logic(x, value),
            old(self).well_formed() ==> final(self).well_formed(),
    {
        self.v[x as usize] = value;
        // The COSMAC VIP cleared VF
        self.cosmac_clear_vf();
        self.next_instruction();
    }

    /// Sets I and goes to the next instruction.
    fn set_address(&mut self, address: u16)
        ensures
            final(self)@ == old(self)@.with_address(address).advanced(),
            old(self).well_formed() ==> final(self).well_formed(),
    {
        self.i = address;
        self.next_instruction();
    }

    /// 00E0 - CLS
    /// Clear the display
    fn clear_screen(&mut self)
        requires
            old(self).well_formed(),
        ensures
            final(self).well_formed(),
            final(self)@ == old(self)@.executed(Instruction::ClearScreen, 0),
    {
        clear_cells(&mut self.vram);
        assert(self@.display =~= Seq::new(VRAM_SIZE as nat, |cell: int| false));
        self.next_instruction();
    }

    /// 00EE - RET
    /// Return from a subroutine
    fn return_from_subroutine(&mut self) -> (outcome: Result<Flow, Chip8Error>)
        requires
            old(self).well_formed(),
        ensures
            final(self).well_formed(),
            final(self)@ == old(self)@.executed(Instruction::Return, 0),
            outcome == old(self)@.outcome(Instruction::Return),
    {
        if self.stack_pointer == 0 {
            return Err(Chip8Error::StackUnderflow);
        }
        let target: u16 = self.stack_pop();
        self.jump_to_instruction(target);
        self.next_instruction();
        Ok(Flow::Jump)
    }

    /// 2nnn - CALL addr
    /// Call subroutine at nnn
    fn call_subroutine(&mut self, addr: u16) -> (outcome: Result<Flow, Chip8Error>)
        requires
            old(self).well_formed(),
        ensures
            final(self).well_formed(),
            final(self)@ == old(self)@.executed(Instruction::Call { addr }, 0),
            outcome == old(self)@.outcome(Instruction::Call { addr }),
    {
        if self.stack_pointer as usize >= STACK_SIZE {
            return Err(Chip8Error::StackOverflow);
        }
        let origin: u16 = self.pc;
        self.stack_push(origin);
        self.jump_to_instruction(addr);
        Ok(Flow::Jump)
    }

    /// 8xy6 - SHR Vx {, Vy}
    /// Set Vx = Vx SHR 1.
    fn shift_right(&mut self, x: u8, y: u8)
        requires
            old(self).well_formed(),
            x < V_REGISTER_COUNT,
            y < V_REGISTER_COUNT,
        ensures
            final(self).well_formed(),
            final(self)@ == old(self)@.executed(Instruction::ShiftRight { x, y }, 0),
    {
        // The COSMAC VIP set VX to VY
        self.cosmac_set_vx_to_vy(x as usize, y as usize);
        let operand: u8 = self.v[x as usize];
        let shift: u8 = operand & 1;
        assert(operand & 1 == operand % 2 && operand >> 1 == operand / 2) by (bit_vector);
        self.v[x as usize] = operand >> 1;
        self.v[0xF] = shift;
        self.next_instruction();
        assert(self@.registers =~= old(self)@.executed(
            Instruction::ShiftRight { x, y },
            0,
        ).registers);
    }

    /// 8xyE - SHL Vx {, Vy}
    /// Set Vx = Vx SHL 1.
    fn shift_left(&mut self, x: u8, y: u8)
        requires
            old(self).well_formed(),
            x < V_REGISTER_COUNT,
            y < V_REGISTER_COUNT,
        ensures
            final(self).well_formed(),
            final(self)@ == old(self)@.executed(Instruction::ShiftLeft { x, y }, 0),
    {
        // The COSMAC VIP set VX to VY
        self.cosmac_set_vx_to_vy(x as usize, y as usize);
        let operand: u8 = self.v[x as usize];
        let shift: u8 = (operand >> 7) & 1;
        assert((operand >> 7) & 1 == operand / 128 && operand << 1 == (operand * 2) % 256)
            by (bit_vector);
        self.v[x as usize] = operand << 1;
        self.v[0xF] = shift;
        self.next_instruction();
        assert(self@.registers =~= old(self)@.executed(
            Instruction::ShiftLeft { x, y },
            0,
        ).registers);
    }

    /// Dxyn - DRW Vx, Vy, nibble
    /// Display n-byte sprite starting at memory location I at (Vx, Vy), set VF = collision.
    fn draw(&mut self, x: u8, y: u8, rows: u8)
        requires
            old(self).well_formed(),
            x < V_REGISTER_COUNT,
            y < V_REGISTER_COUNT,
            rows < 16,
        ensures
            final(self).well_formed(),
            final(self)@ == old(self)@.executed(Instruction::Draw { x, y, rows }, 0),
    {
        let vx: u8 = self.v[x as usize];
        let vy: u8 = self.v[y as usize];
        let clip: bool = self.quirks.clip_sprites;
        let collided: bool = draw_sprite(&mut self.vram, &self.ram, self.i, clip, vx, vy, rows);
        assert(self@.display =~= old(self)@.drawn_display(vx, vy, rows));
        assert(collided == old(self)@.sprite_collides(vx, vy, rows));
        self.v[0xF] = if collided { 1 } else { 0 };
        self.next_instruction();
    }

    /// Fx0A - LD Vx, K
    /// Wait for a key press, store the value of the key in Vx.
    fn wait_for_key(&mut self, x: u8) -> (flow: Flow)
        requires
            old(self).well_formed(),
            x < V_REGISTER_COUNT,
        ensures
            final(self).well_formed(),
            final(self)@ == old(self)@.executed(Instruction::WaitForKey { x }, 0),
            flow == old(self)@.flow(Instruction::WaitForKey { x }),
    {
        match first_pressed(&self.keys) {
            Some(key) => {
                self.store(x, key);
                Flow::Advance
            },
            None => Flow::Wait,
        }
    }

    /// Fx33 - LD B, Vx
    /// Store BCD representation of Vx in memory locations I, I+1, and I+2.
    fn store_decimal(&mut self, x: u8)
        requires
            old(self).well_formed(),
            x < V_REGISTER_COUNT,
        ensures
            final(self).well_formed(),
            final(self)@ == old(self)@.executed(Instruction::StoreDecimal { x }, 0),
    {
        let value: u8 = self.v[x as usize];
        let i: usize = self.i as usize;
        self.ram[i % MEMORY] = value / 100;
        self.ram[(i + 1) % MEMORY] = (value % 100) / 10;
        self.ram[(i + 2) % MEMORY] = value % 10;
        self.next_instruction();
    }

    /// Fx55 - LD [I], Vx
    /// Store registers V0 through Vx in memory starting at location I.
    fn store_block(&mut self, x: u8)
        requires
            old(self).well_formed(),
            x < V_REGISTER_COUNT,
        ensures
            final(self).well_formed(),
            final(self)@ == old(self)@.executed(Instruction::StoreRegisters { x }, 0),
    {
        store_registers(&mut self.ram, &self.v, self.i, x);
        assert(self@.memory =~= old(self)@.registers_stored(x));
        self.cosmac_increment_i(x);
        self.next_instruction();
    }

    /// Fx65 - LD Vx, [I]
    /// Read registers V0 through Vx from memory starting at location I.
    fn load_block(&mut self, x: u8)
        requires
            old(self).well_formed(),
            x < V_REGISTER_COUNT,
        ensures
            final(self).well_formed(),
            final(self)@ == old(self)@.executed(Instruction::LoadRegisters { x }, 0),
    {
        load_registers(&mut self.v, &self.ram, self.i, x);
        assert(self@.registers =~= old(self)@.registers_loaded(x));
        self.cosmac_increment_i(x);
        self.next_instruction();
    }

    /// 1nnn - JP addr
    /// Jump to location nnn
    fn jump(&mut self, addr: u16)
        requires
            old(self).well_formed(),
        ensures
            final(self).well_formed(),
            final(self)@ == old(self)@.executed(Instruction::Jump { addr }, 0),
    {
        self.jump_to_instruction(addr);
    }

    /// 3xkk - SE Vx, byte
    /// Skip next instruction if Vx = kk
    fn skip_if_equal(&mut self, x: u8, byte: u8) -> (flow: Flow)
        requires
            old(self).well_formed(),
            x < V_REGISTER_COUNT,
        ensures
            final(self).well_formed(),
            final(self)@ == old(self)@.executed(Instruction::SkipIfEqual { x, byte }, 0),
            flow == old(self)@.flow(Instruction::SkipIfEqual { x, byte }),
    {
        let equal: bool = self.v[x as usize] == byte;
        self.skip_instruction_if(equal)
    }

    /// 4xkk - SNE Vx, byte
    /// Skip next instruction if Vx != kk
    fn skip_if_not_equal(&mut self, x: u8, byte: u8) -> (flow: Flow)
        requires
            old(self).well_formed(),
            x < V_REGISTER_COUNT,
        ensures
            final(self).well_formed(),
            final(self)@ == old(self)@.executed(Instruction::SkipIfNotEqual { x, byte }, 0),
            flow == old(self)@.flow(Instruction::SkipIfNotEqual { x, byte }),
    {
        let differ: bool = self.v[x as usize] != byte;
        self.skip_instruction_if(differ)
    }

    /// 5xy0 - SE Vx, Vy
    /// Skip next instruction if Vx = Vy.
    fn skip_if_registers_equal(&mut self, x: u8, y: u8) -> (flow: Flow)
        requires
            old(self).well_formed(),
            x < V_REGISTER_COUNT,
            y < V_REGISTER_COUNT,
        ensures
            final(self).well_formed(),
            final(self)@ == old(self)@.executed(Instruction::SkipIfRegistersEqual { x, y }, 0),
            flow == old(self)@.flow(Instruction::SkipIfRegistersEqual { x, y }),
    {
        let equal: bool = self.v[x as usize] == self.v[y as usize];
        self.skip_instruction_if(equal)
    }

    /// 6xkk - LD Vx, byte
    /// Set Vx = kk
    fn load(&mut self, x: u8, byte: u8)
        requires
            old(self).well_formed(),
            x < V_REGISTER_COUNT,
        ensures
            final(self).well_formed(),
            final(self)@ == old(self)@.executed(Instruction::Load { x, byte }, 0),
    {
        self.store(x, byte);
    }

    /// 7xkk - ADD Vx, byte
    /// Set Vx = Vx + kk
    fn add_immediate(&mut self, x: u8, byte: u8)
        requires
            old(self).well_formed(),
            x < V_REGISTER_COUNT,
        ensures
            final(self).well_formed(),
            final(self)@ == old(self)@.executed(Instruction::AddImmediate { x, byte }, 0),
    {
        let sum: u8 = sum8(self.v[x as usize], byte).0;
        self.store(x, sum);
    }

    /// 8xy0 - LD Vx, Vy
    /// Set Vx = Vy
    fn copy(&mut self, x: u8, y: u8)
        requires
            old(self).well_formed(),
            x < V_REGISTER_COUNT,
            y < V_REGISTER_COUNT,
        ensures
            final(self).well_formed(),
            final(self)@ == old(self)@.executed(Instruction::Copy { x, y }, 0),
    {
        let value: u8 = self.v[y as usize];
        self.store(x, value);
    }

    /// 8xy1 - OR Vx, Vy
    /// Set Vx = Vx OR Vy.
    fn or(&mut self, x: u8, y: u8)
        requires
            old(self).well_formed(),
            x < V_REGISTER_COUNT,
            y < V_REGISTER_COUNT,
        ensures
            final(self).well_formed(),
            final(self)@ == old(self)@.executed(Instruction::Or { x, y }, 0),
    {
        let value: u8 = self.v[x as usize] | self.v[y as usize];
        self.store_logic(x, value);
    }

    /// 8xy2 - AND Vx, Vy
    /// Set Vx = Vx AND Vy.
    fn and(&mut self, x: u8, y: u8)
        requires
            old(self).well_formed(),
            x < V_REGISTER_COUNT,
            y < V_REGISTER_COUNT,
        ensures
            final(self).well_formed(),
            final(self)@ == old(self)@.executed(Instruction::And { x, y }, 0),
    {
        let value: u8 = self.v[x as usize] & self.v[y as usize];
        self.store_logic(x, value);
    }

    /// 8xy3 - XOR Vx, Vy
    /// Set Vx = Vx XOR Vy.
    fn xor(&mut self, x: u8, y: u8)
        requires
            old(self).well_formed(),
            x < V_REGISTER_COUNT,
            y < V_REGISTER_COUNT,
        ensures
            final(self).well_formed(),
            final(self)@ == old(self)@.executed(Instruction::Xor { x, y }, 0),
    {
        let value: u8 = self.v[x as usize] ^ self.v[y as usize];
        self.store_logic(x, value);
    }

    /// 8xy4 - ADD Vx, Vy
    /// Set Vx = Vx + Vy, set VF = carry
    fn add_with_carry(&mut self, x: u8, y: u8)
        requires
            old(self).well_formed(),
            x < V_REGISTER_COUNT,
            y < V_REGISTER_COUNT,
        ensures
            final(self).well_formed(),
            final(self)@ == old(self)@.executed(Instruction::AddWithCarry { x, y }, 0),
    {
        let (sum, carry): (u8, u8) = sum8(self.v[x as usize], self.v[y as usize]);
        self.store_with_flag(x, sum, carry);
    }

    /// 8xy5 - SUB Vx, Vy
    /// Set Vx = Vx - Vy, set VF = NOT borrow
    fn subtract(&mut self, x: u8, y: u8)
        requires
            old(self).well_formed(),
            x < V_REGISTER_COUNT,
            y < V_REGISTER_COUNT,
        ensures
            final(self).well_formed(),
            final(self)@ == old(self)@.executed(Instruction::Subtract { x, y }, 0),
    {
        let (difference, no_borrow): (u8, u8) = difference8(
            self.v[x as usize],
            self.v[y as usize],
        );
        self.store_with_flag(x, difference, no_borrow);
    }

    /// 8xy7 - SUBN Vx, Vy
    /// Set Vx = Vy - Vx, set VF = NOT borrow.
    fn subtract_reversed(&mut self, x: u8, y: u8)
        requires
            old(self).well_formed(),
            x < V_REGISTER_COUNT,
            y < V_REGISTER_COUNT,
        ensures
            final(self).well_formed(),
            final(self)@ == old(self)@.executed(Instruction::SubtractReversed { x, y }, 0),
    {
        let (difference, no_borrow): (u8, u8) = difference8(
            self.v[y as usize],
            self.v[x as usize],
        );
        self.store_with_flag(x, difference, no_borrow);
    }

    /// 9xy0 - SNE Vx, Vy
    /// Skip next instruction if Vx != Vy.
    fn skip_if_registers_not_equal(&mut self, x: u8, y: u8) -> (flow: Flow)
        requires
            old(self).well_formed(),
            x < V_REGISTER_COUNT,
            y < V_REGISTER_COUNT,
        ensures
            final(self).well_formed(),
            final(self)@ == old(self)@.executed(Instruction::SkipIfRegistersNotEqual { x, y }, 0),
            flow == old(self)@.flow(Instruction::SkipIfRegistersNotEqual { x, y }),
    {
        let differ: bool = self.v[x as usize] != self.v[y as usize];
        self.skip_instruction_if(differ)
    }

    /// Annn - LD I, addr
    /// Set I = nnn
    fn load_address(&mut self, addr: u16)
        requires
            old(self).well_formed(),
        ensures
            final(self).well_formed(),
            final(self)@ == old(self)@.executed(Instruction::LoadAddress { addr }, 0),
    {
        self.set_address(addr);
    }

    /// Bnnn - JP V0, addr
    /// Jump to location nnn + V0.
    fn jump_with_offset(&mut self, addr: u16)
        requires
            old(self).well_formed(),
        ensures
            final(self).well_formed(),
            final(self)@ == old(self)@.executed(Instruction::JumpWithOffset { addr }, 0),
    {
        let target: u16 = sum16(addr, self.v[0] as u16);
        self.jump_to_instruction(target);
    }

    /// Cxkk - RND Vx, byte
    /// Set Vx = random byte AND kk
    fn random_masked(&mut self, x: u8, byte: u8, random: u8)
        requires
            old(self).well_formed(),
            x < V_REGISTER_COUNT,
        ensures
            final(self).well_formed(),
            final(self)@ == old(self)@.executed(Instruction::Random { x, byte }, random),
    {
        self.store(x, random & byte);
    }

    /// Ex9E - SKP Vx
    /// Skip next instruction if key with the value of Vx is pressed
    fn skip_if_key_pressed(&mut self, x: u8) -> (flow: Flow)
        requires
            old(self).well_formed(),
            x < V_REGISTER_COUNT,
        ensures
            final(self).well_formed(),
            final(self)@ == old(self)@.executed(Instruction::SkipIfKeyPressed { x }, 0),
            flow == old(self)@.flow(Instruction::SkipIfKeyPressed { x }),
    {
        let pressed: bool = self.keys[(self.v[x as usize] % 16) as usize];
        self.skip_instruction_if(pressed)
    }

    /// ExA1 - SKNP Vx
    /// Skip next instruction if key with the value of Vx is not pressed
    fn skip_if_key_not_pressed(&mut self, x: u8) -> (flow: Flow)
        requires
            old(self).well_formed(),
            x < V_REGISTER_COUNT,
        ensures
            final(self).well_formed(),
            final(self)@ == old(self)@.executed(Instruction::SkipIfKeyNotPressed { x }, 0),
            flow == old(self)@.flow(Instruction::SkipIfKeyNotPressed { x }),
    {
        let pressed: bool = self.keys[(self.v[x as usize] % 16) as usize];
        self.skip_instruction_if(!pressed)
    }

    /// Fx07 - LD Vx, DT
    /// Set Vx = delay timer value
    fn read_delay_timer(&mut self, x: u8)
        requires
            old(self).well_formed(),
            x < V_REGISTER_COUNT,
        ensures
            final(self).well_formed(),
            final(self)@ == old(self)@.executed(Instruction::ReadDelayTimer { x }, 0),
    {
        let value: u8 = self.delay_timer;
        self.store(x, value);
    }

    /// Fx15 - LD DT, Vx
    /// Set delay timer = Vx
    fn set_delay_timer(&mut self, x: u8)
        requires
            old(self).well_formed(),
            x < V_REGISTER_COUNT,
        ensures
            final(self).well_formed(),
            final(self)@ == old(self)@.executed(Instruction::SetDelayTimer { x }, 0),
    {
        self.delay_timer = self.v[x as usize];
        self.next_instruction();
    }

    /// Fx18 - LD ST, Vx
    /// Set sound timer = Vx.
    fn set_sound_timer(&mut self, x: u8)
        requires
            old(self).well_formed(),
            x < V_REGISTER_COUNT,
        ensures
            final(self).well_formed(),
            final(self)@ == old(self)@.executed(Instruction::SetSoundTimer { x }, 0),
    {
        self.sound_timer = self.v[x as usize];
        self.next_instruction();
    }

    /// Fx1E - ADD I, Vx
    /// Set I = I + Vx
    fn add_to_address(&mut self, x: u8)
        requires
            old(self).well_formed(),
            x < V_REGISTER_COUNT,
        ensures
            final(self).well_formed(),
            final(self)@ == old(self)@.executed(Instruction::AddToAddress { x }, 0),
    {
        let address: u16 = sum16(self.i, self.v[x as usize] as u16);
        self.set_address(address);
    }

    /// Fx29 - LD F, Vx
    /// Set I = location of sprite for digit Vx.
    fn load_glyph_address(&mut self, x: u8)
        requires
            old(self).well_formed(),
            x < V_REGISTER_COUNT,
        ensures
            final(self).well_formed(),
            final(self)@ == old(self)@.executed(Instruction::LoadGlyphAddress { x }, 0),
    {
        let address: u16 = glyph_offset(self.v[x as usize]);
        self.set_address(address);
    }

    /// A word outside the instruction table: nothing happens but the step
    /// to the next instruction.
    fn unsupported(&mut self, word: u16)
        requires
            old(self).well_formed(),
        ensures
            final(self).well_formed(),
            final(self)@ == old(self)@.executed(Instruction::Unsupported { word }, 0),
    {
        self.next_instruction();
    }

    /// Executes one decoded instruction. `random` is the byte that the
    /// random-number instruction uses. A call on a full stack and a return
    /// on an empty one are reported and change nothing.
    pub fn execute(&mut self, instruction: Instruction, random: u8) -> (outcome: Result<
        Flow,
        Chip8Error,
    >)
        requires
            old(self).well_formed(),
            instruction.well_formed(),
        ensures
            final(self).well_formed(),
            final(self)@ == old(self)@.executed(instruction, random),
            outcome == old(self)@.outcome(instruction),
    {
        proof {
            if !(instruction is Random) {
                self@.only_random_reads_the_byte(instruction, 0, random);
            }
        }
        match instruction {
            Instruction::ClearScreen => {
                self.clear_screen();
                Ok(Flow::Advance)
            },
            Instruction::Return => self.return_from_subroutine(),
            Instruction::Jump { addr } => {
                self.jump(addr);
                Ok(Flow::Jump)
            },
            Instruction::Call { addr } => self.call_subroutine(addr),
            Instruction::SkipIfEqual { x, byte } => Ok(self.skip_if_equal(x, byte)),
            Instruction::SkipIfNotEqual { x, byte } => Ok(self.skip_if_not_equal(x, byte)),
            Instruction::SkipIfRegistersEqual { x, y } => Ok(self.skip_if_registers_equal(x, y)),
            Instruction::Load { x, byte } => {
                self.load(x, byte);
                Ok(Flow::Advance)
            },
            Instruction::AddImmediate { x, byte } => {
                self.add_immediate(x, byte);
                Ok(Flow::Advance)
            },
            Instruction::Copy { x, y } => {
                self.copy(x, y);
                Ok(Flow::Advance)
            },
            Instruction::Or { x, y } => {
                self.or(x, y);
                Ok(Flow::Advance)
            },
            Instruction::And { x, y } => {
                self.and(x, y);
                Ok(Flow::Advance)
            },
            Instruction::Xor { x, y } => {
                self.xor(x, y);
                Ok(Flow::Advance)
            },
            Instruction::AddWithCarry { x, y } => {
                self.add_with_carry(x, y);
                Ok(Flow::Advance)
            },
            Instruction::Subtract { x, y } => {
                self.subtract(x, y);
                Ok(Flow::Advance)
            },
            Instruction::ShiftRight { x, y } => {
                self.shift_right(x, y);
                Ok(Flow::Advance)
            },
            Instruction::SubtractReversed { x, y } => {
                self.subtract_reversed(x, y);
                Ok(Flow::Advance)
            },
            Instruction::ShiftLeft { x, y } => {
                self.shift_left(x, y);
                Ok(Flow::Advance)
            },
            Instruction::SkipIfRegistersNotEqual { x, y } => Ok(
                self.skip_if_registers_not_equal(x, y),
            ),
            Instruction::LoadAddress { addr } => {
                self.load_address(addr);
                Ok(Flow::Advance)
            },
            Instruction::JumpWithOffset { addr } => {
                self.jump_with_offset(addr);
                Ok(Flow::Jump)
            },
            Instruction::Random { x, byte } => {
                self.random_masked(x, byte, random);
                Ok(Flow::Advance)
            },
            Instruction::Draw { x, y, rows } => {
                self.draw(x, y, rows);
                Ok(Flow::Advance)
            },
            Instruction::SkipIfKeyPressed { x } => Ok(self.skip_if_key_pressed(x)),
            Instruction::SkipIfKeyNotPressed { x } => Ok(self.skip_if_key_not_pressed(x)),
            Instruction::ReadDelayTimer { x } => {
                self.read_delay_timer(x);
                Ok(Flow::Advance)
            },
            Instruction::WaitForKey { x } => Ok(self.wait_for_key(x)),
            Instruction::SetDelayTimer { x } => {
                self.set_delay_timer(x);
                Ok(Flow::Advance)
            },
            Instruction::SetSoundTimer { x } => {
                self.set_sound_timer(x);
                Ok(Flow::Advance)
            },
            Instruction::AddToAddress { x } => {
                self.add_to_address(x);
                Ok(Flow::Advance)
            },
            Instruction::LoadGlyphAddress { x } => {
                self.load_glyph_address(x);
                Ok(Flow::Advance)
            },
            Instruction::StoreDecimal { x } => {
                self.store_decimal(x);
                Ok(Flow::Advance)
            },
            Instruction::StoreRegisters { x } => {
                self.store_block(x);
                Ok(Flow::Advance)
            },
            Instruction::LoadRegisters { x } => {
                self.load_block(x);
                Ok(Flow::Advance)
            },
            Instruction::Unsupported { word } => {
                self.unsupported(word);
                Ok(Flow::Unsupported)
            },
        }
    }

    /// Decodes and executes the instruction `op_code`. The random-number
    /// instruction draws its byte from the random source; whatever byte
    /// came, the state is the one that `execute` gives for it.
    pub fn run_instruction(&mut self, op_code: &OpCode) -> (outcome: Result<Flow, Chip8Error>)
        requires
            old(self).well_formed(),
        ensures
            final(self).well_formed(),
            outcome == old(self)@.outcome(decoded(op_code@)),
            exists|random: u8|
                random < 255 && final(self)@ == #[trigger] old(self)@.executed(
                    decoded(op_code@),
                    random,
                ),
    {
        let instruction: Instruction = op_code.decode();
        let random: u8 = match instruction {
            Instruction::Random { .. } => random_byte(),
            _ => 0,
        };
        self.execute(instruction, random)
    }

    /// Perform a certain amount of ticks per CPU cycle: fetches and runs
    /// `frame_limit` instructions, or fewer if one faults, and counts the
    /// words among them that encode no instruction.
    /// The COSMAC VIP sets the frame limit to 8 ticks per cycle at 60 Hz
    pub fn cosmac_cycle_ticks(&mut self, frame_limit: u16) -> (report: Result<u16, Chip8Error>)
        requires
            old(self).well_formed(),
        ensures
            final(self).well_formed(),
            exists|randoms: Seq<u8>| #[trigger]
                old(self)@.batch_of(randoms, frame_limit as int, final(self)@) && report
                    == batch_report(old(self)@.ran(randoms)),
    {
        let mut unsupported: u16 = 0;
        let mut count: u16 = 0;
        let ghost mut randoms: Seq<u8> = Seq::empty();
        while count < frame_limit
            invariant
                self.well_formed(),
                unsupported <= count <= frame_limit,
                randoms.len() == count,
                forall|k: int| 0 <= k < randoms.len() ==> randoms[k] < 255,
                old(self)@.ran(randoms) == (Batch {
                    machine: self@,
                    unsupported: unsupported as nat,
                    fault: None,
                }),
            decreases frame_limit - count,
        {
            let ghost before: Machine = self@;
            let op_code_value: u16 = self.get_op_code();
            let op_code: OpCode = OpCode::new(op_code_value);
            let outcome: Result<Flow, Chip8Error> = self.run_instruction(&op_code);
            proof {
                let instruction = decoded(op_code@);
                let random = choose|random: u8|
                    random < 255 && self@ == #[trigger] before.executed(instruction, random);
                let longer = randoms.push(random);
                assert(longer.drop_last() =~= randoms);
                assert(longer.last() == random);
                randoms = longer;
            }
            match outcome {
                Err(error) => {
                    assert(old(self)@.batch_of(randoms, frame_limit as int, self@));
                    return Err(error);
                },
                Ok(flow) => {
                    if let Flow::Unsupported = flow {
                        unsupported += 1;
                    }
                },
            }
            count += 1;
        }
        assert(old(self)@.batch_of(randoms, frame_limit as int, self@));
        Ok(unsupported)
    }

    /// One turn of the caller's loop. `elapsed_nanos` is the time since the
    /// last due tick. When more than a sixtieth of a second has passed, the
    /// timers count down once, however long it has been, and a batch of
    /// instructions runs; the report is the number of unsupported words met.
    /// Otherwise nothing happens and the report is `None`.
    pub fn tick(&mut self, elapsed_nanos: u128) -> (report: Result<Option<u16>, Chip8Error>)
        requires
            old(self).well_formed(),
        ensures
            final(self).well_formed(),
            !tick_due(elapsed_nanos) ==> final(self)@ == old(self)@ && report == Ok::<
                Option<u16>,
                Chip8Error,
            >(None),
            tick_due(elapsed_nanos) ==> exists|randoms: Seq<u8>| #[trigger]
                old(self)@.timers_ticked().batch_of(
                    randoms,
                    TICKS_PER_CYCLE as int,
                    final(self)@,
                ) && report == tick_report(old(self)@.timers_ticked().ran(randoms)),
    {
        if elapsed_nanos > TICK_INTERVAL_NANOS {
            self.timers_tick();
            // The COSMAC VIP ran 8 instructions with each 60 Hz tick
            match self.cosmac_cycle_ticks(TICKS_PER_CYCLE) {
                Ok(unsupported) => Ok(Some(unsupported)),
                Err(error) => Err(error),
            }
        } else {
            Ok(None)
        }
    }

    /// The program counter.
    pub fn pc(&self) -> (pc: u16)
        ensures
            pc == self@.pc,
    {
        self.pc
    }

    /// The address register I.
    pub fn i(&self) -> (address: u16)
        ensures
            address == self@.address,
    {
        self.i
    }

    /// The value of register `Vx`.
    pub fn v(&self, x: usize) -> (value: u8)
        requires
            x < V_REGISTER_COUNT,
        ensures
            value == self@.registers[x as int],
    {
        self.v[x]
    }

    /// The byte of memory at `address`.
    pub fn ram(&self, address: usize) -> (byte: u8)
        requires
            address < MEMORY,
        ensures
            byte == self@.memory[address as int],
    {
        self.ram[address]
    }

    /// The display cells, row by row: 1 for a lit cell, 0 for a dark one.
    pub fn vram(&self) -> (cells: &[u8; VRAM_SIZE])
        requires
            self.well_formed(),
        ensures
            forall|cell: int|
                0 <= cell < VRAM_SIZE ==> cells@[cell] == if self@.display[cell] {
                    1u8
                } else {
                    0u8
                },
    {
        &self.vram
    }

    /// The delay timer.
    pub fn delay_timer(&self) -> (value: u8)
        ensures
            value == self@.delay_timer,
    {
        self.delay_timer
    }

    /// The sound timer; the tone sounds while it is above zero.
    pub fn sound_timer(&self) -> (value: u8)
        ensures
            value == self@.sound_timer,
    {
        self.sound_timer
    }

    /// The number of return addresses on the stack.
    pub fn stack_pointer(&self) -> (depth: u8)
        requires
            self.well_formed(),
        ensures
            depth == self@.stack.len(),
    {
        self.stack_pointer
    }

    /// Whether the key `key` is held down.
    pub fn is_key_pressed(&self, key: usize) -> (pressed: bool)
        requires
            key < TOTAL_KEYS,
        ensures
            pressed == self@.keys[key as int],
    {
        self.keys[key]
    }

    /// The compatibility profile this interpreter was built with.
    pub fn quirks(&self) -> (quirks: Quirks)
        ensures
            quirks == self@.quirks,
    {
        self.quirks
    }
}

/// The 8-bit sum of `a` and `b`, and the carry out of it.
fn sum8(a: u8, b: u8) -> (result: (u8, u8))
    ensures
        result.0 == wrap8(a + b),
        result.1 == if a + b > 255 { 1int } else { 0int },
{
    let total: u16 = a as u16 + b as u16;
    (a.wrapping_add(b), if total > 0xFF { 1 } else { 0 })
}

/// The 8-bit difference of `a` and `b`, and 1 if nothing was borrowed, else 0.
fn difference8(a: u8, b: u8) -> (result: (u8, u8))
    ensures
        result.0 == wrap8(a - b),
        result.1 == if a >= b { 1int } else { 0int },
{
    (a.wrapping_sub(b), if a >= b { 1 } else { 0 })
}

/// The 16-bit sum of `a` and `b`.
fn sum16(a: u16, b: u16) -> (sum: u16)
    ensures
        sum == wrap16(a + b),
{
    a.wrapping_add(b)
}

/// The offset of the glyph for `digit` in the font, in 8-bit arithmetic.
fn glyph_offset(digit: u8) -> (offset: u16)
    ensures
        offset == wrap8(digit * 5),
{
    digit.wrapping_mul(SPRITE_LENGTH) as u16
}

/// The lowest-numbered key that is held down, if any is.
fn first_pressed(keys: &[bool; TOTAL_KEYS]) -> (found: Option<u8>)
    ensures
        match found {
            Some(key) => is_lowest_pressed(keys@, key as int) && key as int == lowest_pressed(
                keys@,
            ) && any_pressed(keys@),
            None => !any_pressed(keys@),
        },
{
    let mut index: usize = 0;
    while index < TOTAL_KEYS
        invariant
            index <= TOTAL_KEYS,
            forall|other: int| 0 <= other < index ==> !keys@[other],
        decreases TOTAL_KEYS - index,
    {
        if keys[index] {
            assert(is_lowest_pressed(keys@, index as int));
            return Some(index as u8);
        }
        index += 1;
    }
    None
}

/// Stores `v[0..=x]` into `ram` from `address` on, going round the memory.
fn store_registers(ram: &mut [u8; MEMORY], v: &[u8; V_REGISTER_COUNT], address: u16, x: u8)
    requires
        x < V_REGISTER_COUNT,
    ensures
        forall|a: int|
            0 <= a < MEMORY ==> final(ram)@[a] == if (a - address) % 4096 <= x {
                v@[(a - address) % 4096]
            } else {
                old(ram)@[a]
            },
{
    let mut index: usize = 0;
    while index <= x as usize
        invariant
            index <= x + 1,
            x < V_REGISTER_COUNT,
            forall|a: int|
                0 <= a < MEMORY ==> ram@[a] == if (a - address) % 4096 < index {
                    v@[(a - address) % 4096]
                } else {
                    old(ram)@[a]
                },
        decreases x + 1 - index,
    {
        ram[(address as usize + index) % MEMORY] = v[index];
        index += 1;
    }
}

/// Loads `v[0..=x]` from `ram` from `address` on, going round the memory.
fn load_registers(v: &mut [u8; V_REGISTER_COUNT], ram: &[u8; MEMORY], address: u16, x: u8)
    requires
        x < V_REGISTER_COUNT,
    ensures
        forall|k: int|
            0 <= k < V_REGISTER_COUNT ==> final(v)@[k] == if k <= x {
                ram@[(address + k) % 4096]
            } else {
                old(v)@[k]
            },
{
    let mut index: usize = 0;
    while index <= x as usize
        invariant
            index <= x + 1,
            x < V_REGISTER_COUNT,
            forall|k: int|
                0 <= k < V_REGISTER_COUNT ==> v@[k] == if k < index {
                    ram@[(address + k) % 4096]
                } else {
                    old(v)@[k]
                },
        decreases x + 1 - index,
    {
        v[index] = ram[(address as usize + index) % MEMORY];
        index += 1;
    }
}

/// Copies `data` into `ram` from the program start on.
fn copy_program(ram: &mut [u8; MEMORY], data: &[u8])
    requires
        data@.len() <= MEMORY - PROGRAM_START,
    ensures
        forall|a: int|
            0 <= a < MEMORY ==> final(ram)@[a] == if PROGRAM_START <= a < PROGRAM_START
                + data@.len() {
                data@[a - PROGRAM_START]
            } else {
                old(ram)@[a]
            },
{
    let mut index: usize = 0;
    while index < data.len()
        invariant
            index <= data@.len() <= MEMORY - PROGRAM_START,
            forall|a: int|
                0 <= a < MEMORY ==> ram@[a] == if PROGRAM_START <= a < PROGRAM_START + index {
                    data@[a - PROGRAM_START]
                } else {
                    old(ram)@[a]
                },
        decreases data@.len() - index,
    {
        ram[PROGRAM_START + index] = data[index];
        index += 1;
    }
}

} // verus!
