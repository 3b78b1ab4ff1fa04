//! The mathematical model of the machine: its state as plain sequences and
//! integers, and the meaning of every instruction as a function on states.

use vstd::prelude::*;
use crate::font::FONT_SET;
use crate::instruction::{decoded, Instruction};
use crate::quirks::Quirks;

verus! {

/// Number of addressable bytes.
pub const MEMORY: usize = 4096;

/// Address at which a loaded program starts.
pub const PROGRAM_START: usize = 0x200;

/// Number of general-purpose registers.
pub const V_REGISTER_COUNT: usize = 16;

/// Depth of the call stack.
pub const STACK_SIZE: usize = 16;

/// Pixels per display row.
pub const VRAM_WIDTH: usize = 64;

/// Number of display rows.
pub const VRAM_HEIGHT: usize = 32;

/// Number of display cells.
pub const VRAM_SIZE: usize = 2048;

/// Number of keys on the keypad.
pub const TOTAL_KEYS: usize = 16;

/// Columns in a sprite row.
pub const SPRITE_WIDTH: u8 = 8;

/// Instructions executed with each timer tick.
pub const TICKS_PER_CYCLE: u16 = 8;

/// The conditions that stop the machine.
#[derive(Clone, Copy, Debug, PartialEq, Eq, Structural)]
pub enum Chip8Error {
    /// The program does not fit between the program start and the end of memory.
    RomTooLarge,
    /// A call was made with sixteen return addresses already on the stack.
    StackOverflow,
    /// A return was made with no return address on the stack.
    StackUnderflow,
}

impl Chip8Error {
    /// The description of the condition, as `message` gives it.
    pub open spec fn text(self) -> Seq<char> {
        match self {
            Chip8Error::RomTooLarge => "ROM data exceeds the 3584 bytes of program memory"@,
            Chip8Error::StackOverflow => "stack overflow: call on a full stack"@,
            Chip8Error::StackUnderflow => "stack underflow: return on an empty stack"@,
        }
    }

    /// A description of the condition for the caller to report.
    pub fn message(&self) -> (text: &'static str)
        ensures
            text@ == self.text(),
    {
        match self {
            Chip8Error::RomTooLarge => "ROM data exceeds the 3584 bytes of program memory",
            Chip8Error::StackOverflow => "stack overflow: call on a full stack",
            Chip8Error::StackUnderflow => "stack underflow: return on an empty stack",
        }
    }
}

/// What an executed instruction did to the flow of control.
#[derive(Clone, Copy, Debug, PartialEq, Eq, Structural)]
pub enum Flow {
    /// The program counter moved to the next instruction.
    Advance,
    /// The program counter moved past the next instruction.
    Skip,
    /// The program counter was set to a target.
    Jump,
    /// The program counter stayed: the instruction waits for a key.
    Wait,
    /// The word encodes no instruction; the program counter moved to the next.
    Unsupported,
}

/// The state of a machine.
pub struct Machine {
    /// The 4096 bytes of memory.
    pub memory: Seq<u8>,
    /// The registers `V0..=VF`; `VF` is the flags register.
    pub registers: Seq<u8>,
    /// The address register `I`.
    pub address: u16,
    /// The program counter.
    pub pc: u16,
    /// The return addresses, oldest first.
    pub stack: Seq<u16>,
    /// The delay timer.
    pub delay_timer: u8,
    /// The sound timer.
    pub sound_timer: u8,
    /// For each key of the keypad, whether it is held down.
    pub keys: Seq<bool>,
    /// For each display cell, row by row, whether it is lit.
    pub display: Seq<bool>,
    /// The compatibility profile.
    pub quirks: Quirks,
}

/// `value` reduced to eight bits.
pub open spec fn wrap8(value: int) -> u8 {
    (value % 0x100) as u8
}

/// `value` reduced to sixteen bits.
pub open spec fn wrap16(value: int) -> u16 {
    (value % 0x10000) as u16
}

/// Whether the sprite row `byte` has its pixel at `column` set; column 0 is
/// the most significant bit.
pub open spec fn sprite_pixel(byte: u8, column: u8) -> bool {
    byte & (0x80u8 >> column) != 0
}

/// How far to the right of the column `left` the cell `cell` lies, going
/// round the display.
pub open spec fn column_offset(left: int, cell: int) -> int {
    (cell % 64 - left) % 64
}

/// How far below the row `top` the cell `cell` lies, going round the display.
pub open spec fn row_offset(top: int, cell: int) -> int {
    (cell / 64 - top) % 32
}

/// Whether a sprite of `rows` rows, read from `memory` at `address` on and
/// drawn with its top left corner at `(vx, vy)`, has a set pixel on the
/// display cell `cell`.
///
/// The corner itself always wraps onto the display. A sprite pixel lies
/// `column` cells to the right of it and `row` cells below it; with `clip`
/// the pixels that would leave the display on the right or at the bottom are
/// dropped, otherwise they wrap around.
pub open spec fn sprite_covers(
    memory: Seq<u8>,
    address: u16,
    clip: bool,
    vx: u8,
    vy: u8,
    rows: u8,
    cell: int,
) -> bool {
    let left = vx as int % 64;
    let top = vy as int % 32;
    let column = column_offset(left, cell);
    let row = row_offset(top, cell);
    &&& column < 8
    &&& row < rows
    &&& clip ==> left + column < 64 && top + row < 32
    &&& sprite_pixel(memory[(address + row) % 4096], column as u8)
}

/// Whether `key` is the lowest-numbered key held down.
pub open spec fn is_lowest_pressed(keys: Seq<bool>, key: int) -> bool {
    &&& 0 <= key < keys.len()
    &&& keys[key]
    &&& forall|other: int| 0 <= other < key ==> !keys[other]
}

/// Whether any key is held down.
pub open spec fn any_pressed(keys: Seq<bool>) -> bool {
    exists|key: int| 0 <= key < keys.len() && keys[key]
}

/// The lowest-numbered key held down, when there is one.
pub open spec fn lowest_pressed(keys: Seq<bool>) -> int {
    choose|key: int| is_lowest_pressed(keys, key)
}

impl Machine {
    /// Every component has its fixed size and the stack is within its depth.
    pub open spec fn well_formed(self) -> bool {
        &&& self.memory.len() == MEMORY
        &&& self.registers.len() == V_REGISTER_COUNT
        &&& self.stack.len() <= STACK_SIZE
        &&& self.keys.len() == TOTAL_KEYS
        &&& self.display.len() == VRAM_SIZE
    }

    /// The value of register `x`.
    pub open spec fn register(self, x: u8) -> u8 {
        self.registers[x as int]
    }

    /// The flags register.
    pub open spec fn flags(self) -> u8 {
        self.registers[0xF]
    }

    /// The byte at `address`; addresses are taken modulo the memory size.
    pub open spec fn byte_at(self, address: int) -> u8 {
        self.memory[address % 4096]
    }

    /// Whether the key that `value` names is held down; only the low four
    /// bits of `value` name a key.
    pub open spec fn key_down(self, value: u8) -> bool {
        self.keys[value as int % 16]
    }

    /// The instruction word at the program counter, high byte first.
    pub open spec fn fetched(self) -> u16 {
        (self.byte_at(self.pc as int) * 256 + self.byte_at(self.pc + 1)) as u16
    }

    /// The state with `value` in register `x`.
    pub open spec fn with_register(self, x: u8, value: u8) -> Machine {
        Machine { registers: self.registers.update(x as int, value), ..self }
    }

    /// The state with `value` in the flags register.
    pub open spec fn with_flags(self, value: u8) -> Machine {
        self.with_register(0xF, value)
    }

    /// The state with `value` in memory at `address`, taken modulo the memory
    /// size.
    pub open spec fn with_byte(self, address: int, value: u8) -> Machine {
        Machine { memory: self.memory.update(address % 4096, value), ..self }
    }

    /// The state with `address` in the address register.
    pub open spec fn with_address(self, address: u16) -> Machine {
        Machine { address, ..self }
    }

    /// The state with the program counter at `pc`.
    pub open spec fn with_pc(self, pc: u16) -> Machine {
        Machine { pc, ..self }
    }

    /// The program counter moved to the next instruction.
    pub open spec fn advanced(self) -> Machine {
        self.with_pc(wrap16(self.pc + 2))
    }

    /// The program counter moved past the next instruction if `condition`
    /// holds, else to the next instruction.
    pub open spec fn skipped_if(self, condition: bool) -> Machine {
        self.with_pc(wrap16(self.pc + if condition { 4int } else { 2int }))
    }

    /// The state with key `key` held down or released.
    pub open spec fn with_key(self, key: int, pressed: bool) -> Machine {
        Machine { keys: self.keys.update(key, pressed), ..self }
    }

    /// The state with `program` copied into memory from the program start on.
    pub open spec fn loaded(self, program: Seq<u8>) -> Machine {
        Machine {
            memory: Seq::new(
                MEMORY as nat,
                |a: int|
                    if PROGRAM_START <= a < PROGRAM_START + program.len() {
                        program[a - PROGRAM_START]
                    } else {
                        self.memory[a]
                    },
            ),
            ..self
        }
    }

    /// Both timers counted down by one, stopping at zero.
    pub open spec fn timers_ticked(self) -> Machine {
        Machine {
            delay_timer: if self.delay_timer > 0 { (self.delay_timer - 1) as u8 } else { 0 },
            sound_timer: if self.sound_timer > 0 { (self.sound_timer - 1) as u8 } else { 0 },
            ..self
        }
    }

    /// Whether drawing a sprite of `rows` rows with its top left corner at
    /// `(vx, vy)` flips the display cell `cell`.
    pub open spec fn sprite_flips(self, vx: u8, vy: u8, rows: u8, cell: int) -> bool {
        sprite_covers(self.memory, self.address, self.quirks.clip_sprites, vx, vy, rows, cell)
    }

    /// The display after drawing: each cell that the sprite flips is inverted.
    pub open spec fn drawn_display(self, vx: u8, vy: u8, rows: u8) -> Seq<bool> {
        Seq::new(
            VRAM_SIZE as nat,
            |cell: int| self.display[cell] != self.sprite_flips(vx, vy, rows, cell),
        )
    }

    /// Whether drawing turns off a cell that was lit.
    pub open spec fn sprite_collides(self, vx: u8, vy: u8, rows: u8) -> bool {
        exists|cell: int|
            0 <= cell < VRAM_SIZE && self.display[cell] && #[trigger] sprite_covers(
                self.memory,
                self.address,
                self.quirks.clip_sprites,
                vx,
                vy,
                rows,
                cell,
            )
    }

    /// The address register after a block transfer of registers `V0..=Vx`.
    pub open spec fn address_after_transfer(self, x: u8) -> u16 {
        if self.quirks.advance_address_on_transfer {
            wrap16(self.address + x + 1)
        } else {
            self.address
        }
    }

    /// Memory after storing `V0..=Vx` from the address register on.
    pub open spec fn registers_stored(self, x: u8) -> Seq<u8> {
        Seq::new(
            MEMORY as nat,
            |a: int|
                {
                    let offset = (a - self.address) % 4096;
                    if offset <= x {
                        self.registers[offset]
                    } else {
                        self.memory[a]
                    }
                },
        )
    }

    /// Registers after loading `V0..=Vx` from the address register on.
    pub open spec fn registers_loaded(self, x: u8) -> Seq<u8> {
        Seq::new(
            V_REGISTER_COUNT as nat,
            |k: int|
                if k <= x {
                    self.byte_at(self.address + k)
                } else {
                    self.registers[k]
                },
        )
    }

    /// The operand of a shift: the second register under the legacy quirk,
    /// the first otherwise.
    pub open spec fn shift_operand(self, x: u8, y: u8) -> u8 {
        if self.quirks.shift_reads_second_operand {
            self.register(y)
        } else {
            self.register(x)
        }
    }

    /// The state after a bitwise operation stored `value` in `Vx`.
    pub open spec fn after_logic(self, x: u8, value: u8) -> Machine {
        let stored = self.with_register(x, value);
        if self.quirks.clear_flags_on_logic {
            stored.with_flags(0).advanced()
        } else {
            stored.advanced()
        }
    }

    /// Whether `instruction` cannot be executed in this state.
    pub open spec fn fault(self, instruction: Instruction) -> Option<Chip8Error> {
        match instruction {
            Instruction::Call { addr } => if self.stack.len() >= STACK_SIZE {
                Some(Chip8Error::StackOverflow)
            } else {
                None
            },
            Instruction::Return => if self.stack.len() == 0 {
                Some(Chip8Error::StackUnderflow)
            } else {
                None
            },
            _ => None,
        }
    }

    /// The control-flow class that executing `instruction` in this state
    /// falls under, when it does not fault.
    pub open spec fn flow(self, instruction: Instruction) -> Flow {
        match instruction {
            Instruction::Return
            | Instruction::Jump { .. }
            | Instruction::Call { .. }
            | Instruction::JumpWithOffset { .. } => Flow::Jump,
            Instruction::SkipIfEqual { x, byte } => skip_or_advance(self.register(x) == byte),
            Instruction::SkipIfNotEqual { x, byte } => skip_or_advance(self.register(x) != byte),
            Instruction::SkipIfRegistersEqual { x, y } => skip_or_advance(
                self.register(x) == self.register(y),
            ),
            Instruction::SkipIfRegistersNotEqual { x, y } => skip_or_advance(
                self.register(x) != self.register(y),
            ),
            Instruction::SkipIfKeyPressed { x } => skip_or_advance(self.key_down(self.register(x))),
            Instruction::SkipIfKeyNotPressed { x } => skip_or_advance(
                !self.key_down(self.register(x)),
            ),
            Instruction::WaitForKey { x } => if any_pressed(self.keys) {
                Flow::Advance
            } else {
                Flow::Wait
            },
            Instruction::Unsupported { .. } => Flow::Unsupported,
            _ => Flow::Advance,
        }
    }

    /// What executing `instruction` in this state reports: the fault, or the
    /// control-flow class.
    pub open spec fn outcome(self, instruction: Instruction) -> Result<Flow, Chip8Error> {
        match self.fault(instruction) {
            Some(error) => Err(error),
            None => Ok(self.flow(instruction)),
        }
    }

    /// The state after executing `instruction`. `random` is the byte that a
    /// random-number instruction takes; no other instruction reads it. An
    /// instruction that faults leaves the state as it is.
    pub open spec fn executed(self, instruction: Instruction, random: u8) -> Machine {
        match instruction {
            Instruction::ClearScreen => Machine {
                display: Seq::new(VRAM_SIZE as nat, |cell: int| false),
                ..self
            }.advanced(),
            Instruction::Return => if self.stack.len() == 0 {
                self
            } else {
                Machine { stack: self.stack.drop_last(), ..self }.with_pc(
                    wrap16(self.stack.last() + 2),
                )
            },
            Instruction::Jump { addr } => self.with_pc(addr),
            Instruction::Call { addr } => if self.stack.len() >= STACK_SIZE {
                self
            } else {
                Machine { stack: self.stack.push(self.pc), ..self }.with_pc(addr)
            },
            Instruction::SkipIfEqual { x, byte } => self.skipped_if(self.register(x) == byte),
            Instruction::SkipIfNotEqual { x, byte } => self.skipped_if(self.register(x) != byte),
            Instruction::SkipIfRegistersEqual { x, y } => self.skipped_if(
                self.register(x) == self.register(y),
            ),
            Instruction::Load { x, byte } => self.with_register(x, byte).advanced(),
            Instruction::AddImmediate { x, byte } => self.with_register(
                x,
                wrap8(self.register(x) + byte),
            ).advanced(),
            Instruction::Copy { x, y } => self.with_register(x, self.register(y)).advanced(),
            Instruction::Or { x, y } => self.after_logic(x, self.register(x) | self.register(y)),
            Instruction::And { x, y } => self.after_logic(x, self.register(x) & self.register(y)),
            Instruction::Xor { x, y } => self.after_logic(x, self.register(x) ^ self.register(y)),
            Instruction::AddWithCarry { x, y } => {
                let sum = self.register(x) + self.register(y);
                self.with_register(x, wrap8(sum)).with_flags(
                    if sum > 255 {
                        1
                    } else {
                        0
                    },
                ).advanced()
            },
            Instruction::Subtract { x, y } => {
                let minuend = self.register(x);
                let subtrahend = self.register(y);
                self.with_register(x, wrap8(minuend - subtrahend)).with_flags(
                    if minuend >= subtrahend {
                        1
                    } else {
                        0
                    },
                ).advanced()
            },
            Instruction::SubtractReversed { x, y } => {
                let minuend = self.register(y);
                let subtrahend = self.register(x);
                self.with_register(x, wrap8(minuend - subtrahend)).with_flags(
                    if minuend >= subtrahend {
                        1
                    } else {
                        0
                    },
                ).advanced()
            },
            Instruction::ShiftRight { x, y } => {
                let operand = self.shift_operand(x, y);
                self.with_register(x, operand / 2).with_flags(operand % 2).advanced()
            },
            Instruction::ShiftLeft { x, y } => {
                let operand = self.shift_operand(x, y);
                self.with_register(x, wrap8(operand * 2)).with_flags(operand / 128).advanced()
            },
            Instruction::SkipIfRegistersNotEqual { x, y } => self.skipped_if(
                self.register(x) != self.register(y),
            ),
            Instruction::LoadAddress { addr } => self.with_address(addr).advanced(),
            Instruction::JumpWithOffset { addr } => self.with_pc(wrap16(addr + self.register(0))),
            Instruction::Random { x, byte } => self.with_register(x, random & byte).advanced(),
            Instruction::Draw { x, y, rows } => {
                let vx = self.register(x);
                let vy = self.register(y);
                Machine { display: self.drawn_display(vx, vy, rows), ..self }.with_flags(
                    if self.sprite_collides(vx, vy, rows) {
                        1
                    } else {
                        0
                    },
                ).advanced()
            },
            Instruction::SkipIfKeyPressed { x } => self.skipped_if(self.key_down(self.register(x))),
            Instruction::SkipIfKeyNotPressed { x } => self.skipped_if(
                !self.key_down(self.register(x)),
            ),
            Instruction::ReadDelayTimer { x } => self.with_register(x, self.delay_timer).advanced(),
            Instruction::WaitForKey { x } => if any_pressed(self.keys) {
                self.with_register(x, lowest_pressed(self.keys) as u8).advanced()
            } else {
                self
            },
            Instruction::SetDelayTimer { x } => Machine {
                delay_timer: self.register(x),
                ..self
            }.advanced(),
            Instruction::SetSoundTimer { x } => Machine {
                sound_timer: self.register(x),
                ..self
            }.advanced(),
            Instruction::AddToAddress { x } => self.with_address(
                wrap16(self.address + self.register(x)),
            ).advanced(),
            Instruction::LoadGlyphAddress { x } => self.with_address(
                wrap8(self.register(x) * 5) as u16,
            ).advanced(),
            Instruction::StoreDecimal { x } => {
                let value = self.register(x);
                self.with_byte(self.address as int, value / 100).with_byte(
                    self.address + 1,
                    (value / 10) % 10,
                ).with_byte(self.address + 2, value % 10).advanced()
            },
            Instruction::StoreRegisters { x } => Machine {
                memory: self.registers_stored(x),
                address: self.address_after_transfer(x),
                ..self
            }.advanced(),
            Instruction::LoadRegisters { x } => Machine {
                registers: self.registers_loaded(x),
                address: self.address_after_transfer(x),
                ..self
            }.advanced(),
            Instruction::Unsupported { .. } => self.advanced(),
        }
    }

    /// The random byte matters to the random-number instruction alone.
    pub proof fn only_random_reads_the_byte(self, instruction: Instruction, first: u8, second: u8)
        requires
            !(instruction is Random),
        ensures
            self.executed(instruction, first) == self.executed(instruction, second),
    {
    }

    /// The state after fetching, decoding and executing one instruction.
    pub open spec fn stepped(self, random: u8) -> Machine {
        self.executed(decoded(self.fetched()), random)
    }
}

/// What a batch of instructions came to.
pub struct Batch {
    /// The state it left.
    pub machine: Machine,
    /// How many of the executed words encoded no instruction.
    pub unsupported: nat,
    /// The fault that ended it early, if one did.
    pub fault: Option<Chip8Error>,
}

impl Machine {
    /// Runs one instruction for each byte of `randoms`, in order; the byte is
    /// the one that the instruction may take as its random number. The batch
    /// ends at the first fault.
    pub open spec fn ran(self, randoms: Seq<u8>) -> Batch
        decreases randoms.len(),
    {
        if randoms.len() == 0 {
            Batch { machine: self, unsupported: 0, fault: None }
        } else {
            let earlier = self.ran(randoms.drop_last());
            if earlier.fault is Some {
                earlier
            } else {
                let instruction = decoded(earlier.machine.fetched());
                Batch {
                    machine: earlier.machine.stepped(randoms.last()),
                    unsupported: if instruction is Unsupported {
                        earlier.unsupported + 1
                    } else {
                        earlier.unsupported
                    },
                    fault: earlier.machine.fault(instruction),
                }
            }
        }
    }

    /// `end` is what a batch of at most `frame_limit` instructions makes of
    /// this state with the random bytes `randoms`, each of which the random
    /// source can give. The batch is cut short only by a fault.
    pub open spec fn batch_of(self, randoms: Seq<u8>, frame_limit: int, end: Machine) -> bool {
        &&& forall|k: int| 0 <= k < randoms.len() ==> randoms[k] < 255
        &&& randoms.len() <= frame_limit
        &&& self.ran(randoms).fault is None ==> randoms.len() == frame_limit
        &&& end == self.ran(randoms).machine
    }
}

/// What a batch reports: its fault, or the number of unsupported words.
pub open spec fn batch_report(batch: Batch) -> Result<u16, Chip8Error> {
    match batch.fault {
        Some(error) => Err(error),
        None => Ok(batch.unsupported as u16),
    }
}

/// What a due tick reports of its batch.
pub open spec fn tick_report(batch: Batch) -> Result<Option<u16>, Chip8Error> {
    match batch.fault {
        Some(error) => Err(error),
        None => Ok(Some(batch.unsupported as u16)),
    }
}

/// Whether a tick is due `elapsed_nanos` nanoseconds after the last one:
/// when more than a sixtieth of a second has passed.
pub open spec fn tick_due(elapsed_nanos: u128) -> bool {
    elapsed_nanos * 60 > 1_000_000_000
}

/// The longest time, in nanoseconds, after which no tick is due yet.
pub const TICK_INTERVAL_NANOS: u128 = 16_666_666;

/// The class of a conditional skip.
pub open spec fn skip_or_advance(condition: bool) -> Flow {
    if condition {
        Flow::Skip
    } else {
        Flow::Advance
    }
}

/// Memory as a new machine has it: the font at the bottom, zero elsewhere.
pub open spec fn initial_memory() -> Seq<u8> {
    Seq::new(
        MEMORY as nat,
        |a: int|
            if a < 80 {
                FONT_SET@[a]
            } else {
                0u8
            },
    )
}

/// The state of a machine that was just built with the profile `quirks`.
pub open spec fn initial_machine(quirks: Quirks) -> Machine {
    Machine {
        memory: initial_memory(),
        registers: Seq::new(V_REGISTER_COUNT as nat, |x: int| 0u8),
        address: 0,
        pc: 0x200,
        stack: Seq::empty(),
        delay_timer: 0,
        sound_timer: 0,
        keys: Seq::new(TOTAL_KEYS as nat, |key: int| false),
        display: Seq::new(VRAM_SIZE as nat, |cell: int| false),
        quirks,
    }
}

} // verus!
