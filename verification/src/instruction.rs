//! The instruction set as a tagged variant, and the decoding table.

use vstd::prelude::*;
use crate::op_code::OpCode;
use crate::op_code_variable_util::{address_of, byte_of, digit_of};

verus! {

/// One decoded instruction. `x` and `y` name general-purpose registers,
/// `byte` is an 8-bit immediate, `addr` a 12-bit address and `rows` a sprite
/// height.
#[derive(Clone, Copy, Debug, PartialEq, Eq, Structural)]
pub enum Instruction {
    /// `00E0`: clear the display.
    ClearScreen,
    /// `00EE`: return from a subroutine.
    Return,
    /// `1nnn`: jump to `addr`.
    Jump { addr: u16 },
    /// `2nnn`: call the subroutine at `addr`.
    Call { addr: u16 },
    /// `3xkk`: skip the next instruction if `Vx == byte`.
    SkipIfEqual { x: u8, byte: u8 },
    /// `4xkk`: skip the next instruction if `Vx != byte`.
    SkipIfNotEqual { x: u8, byte: u8 },
    /// `5xy0`: skip the next instruction if `Vx == Vy`.
    SkipIfRegistersEqual { x: u8, y: u8 },
    /// `6xkk`: set `Vx` to `byte`.
    Load { x: u8, byte: u8 },
    /// `7xkk`: add `byte` to `Vx`, wrapping, without touching the flags.
    AddImmediate { x: u8, byte: u8 },
    /// `8xy0`: copy `Vy` into `Vx`.
    Copy { x: u8, y: u8 },
    /// `8xy1`: `Vx = Vx | Vy`.
    Or { x: u8, y: u8 },
    /// `8xy2`: `Vx = Vx & Vy`.
    And { x: u8, y: u8 },
    /// `8xy3`: `Vx = Vx ^ Vy`.
    Xor { x: u8, y: u8 },
    /// `8xy4`: `Vx = Vx + Vy`, flags register receives the carry.
    AddWithCarry { x: u8, y: u8 },
    /// `8xy5`: `Vx = Vx - Vy`, flags register is 1 when nothing was borrowed.
    Subtract { x: u8, y: u8 },
    /// `8xy6`: shift right by one, flags register receives the bit shifted out.
    ShiftRight { x: u8, y: u8 },
    /// `8xy7`: `Vx = Vy - Vx`, flags register is 1 when nothing was borrowed.
    SubtractReversed { x: u8, y: u8 },
    /// `8xyE`: shift left by one, flags register receives the bit shifted out.
    ShiftLeft { x: u8, y: u8 },
    /// `9xy0`: skip the next instruction if `Vx != Vy`.
    SkipIfRegistersNotEqual { x: u8, y: u8 },
    /// `Annn`: set the address register to `addr`.
    LoadAddress { addr: u16 },
    /// `Bnnn`: jump to `addr + V0`.
    JumpWithOffset { addr: u16 },
    /// `Cxkk`: set `Vx` to a random byte masked with `byte`.
    Random { x: u8, byte: u8 },
    /// `Dxyn`: draw a sprite of `rows` rows at `(Vx, Vy)`.
    Draw { x: u8, y: u8, rows: u8 },
    /// `Ex9E`: skip the next instruction if the key named by `Vx` is down.
    SkipIfKeyPressed { x: u8 },
    /// `ExA1`: skip the next instruction if the key named by `Vx` is up.
    SkipIfKeyNotPressed { x: u8 },
    /// `Fx07`: set `Vx` to the delay timer.
    ReadDelayTimer { x: u8 },
    /// `Fx0A`: wait for a key and store its index in `Vx`.
    WaitForKey { x: u8 },
    /// `Fx15`: set the delay timer to `Vx`.
    SetDelayTimer { x: u8 },
    /// `Fx18`: set the sound timer to `Vx`.
    SetSoundTimer { x: u8 },
    /// `Fx1E`: add `Vx` to the address register.
    AddToAddress { x: u8 },
    /// `Fx29`: point the address register at the glyph for the digit in `Vx`.
    LoadGlyphAddress { x: u8 },
    /// `Fx33`: store the three decimal digits of `Vx` at the address register.
    StoreDecimal { x: u8 },
    /// `Fx55`: store `V0..=Vx` at the address register.
    StoreRegisters { x: u8 },
    /// `Fx65`: load `V0..=Vx` from the address register.
    LoadRegisters { x: u8 },
    /// Any word outside the table; it carries the word for diagnostics.
    Unsupported { word: u16 },
}

impl Instruction {
    /// Every operand is within the range its field can encode: register
    /// names and sprite heights below 16, addresses below 4096.
    pub open spec fn well_formed(self) -> bool {
        match self {
            Instruction::ClearScreen | Instruction::Return => true,
            Instruction::Jump { addr }
            | Instruction::Call { addr }
            | Instruction::LoadAddress { addr }
            | Instruction::JumpWithOffset { addr } => addr < 4096,
            Instruction::SkipIfEqual { x, byte }
            | Instruction::SkipIfNotEqual { x, byte }
            | Instruction::Load { x, byte }
            | Instruction::AddImmediate { x, byte }
            | Instruction::Random { x, byte } => x < 16,
            Instruction::SkipIfRegistersEqual { x, y }
            | Instruction::Copy { x, y }
            | Instruction::Or { x, y }
            | Instruction::And { x, y }
            | Instruction::Xor { x, y }
            | Instruction::AddWithCarry { x, y }
            | Instruction::Subtract { x, y }
            | Instruction::ShiftRight { x, y }
            | Instruction::SubtractReversed { x, y }
            | Instruction::ShiftLeft { x, y }
            | Instruction::SkipIfRegistersNotEqual { x, y } => x < 16 && y < 16,
            Instruction::Draw { x, y, rows } => x < 16 && y < 16 && rows < 16,
            Instruction::SkipIfKeyPressed { x }
            | Instruction::SkipIfKeyNotPressed { x }
            | Instruction::ReadDelayTimer { x }
            | Instruction::WaitForKey { x }
            | Instruction::SetDelayTimer { x }
            | Instruction::SetSoundTimer { x }
            | Instruction::AddToAddress { x }
            | Instruction::LoadGlyphAddress { x }
            | Instruction::StoreDecimal { x }
            | Instruction::StoreRegisters { x }
            | Instruction::LoadRegisters { x } => x < 16,
            Instruction::Unsupported { word } => true,
        }
    }
}

/// The arithmetic family `8xy_`, selected by the last digit.
pub open spec fn decoded_arithmetic(word: u16) -> Instruction {
    let x = digit_of(word, 2);
    let y = digit_of(word, 1);
    let last = digit_of(word, 0);
    if last == 0x0 {
        Instruction::Copy { x, y }
    } else if last == 0x1 {
        Instruction::Or { x, y }
    } else if last == 0x2 {
        Instruction::And { x, y }
    } else if last == 0x3 {
        Instruction::Xor { x, y }
    } else if last == 0x4 {
        Instruction::AddWithCarry { x, y }
    } else if last == 0x5 {
        Instruction::Subtract { x, y }
    } else if last == 0x6 {
        Instruction::ShiftRight { x, y }
    } else if last == 0x7 {
        Instruction::SubtractReversed { x, y }
    } else if last == 0xE {
        Instruction::ShiftLeft { x, y }
    } else {
        Instruction::Unsupported { word }
    }
}

/// The timer, keypad and memory family `Fx__`, selected by the low byte.
pub open spec fn decoded_system(word: u16) -> Instruction {
    let x = digit_of(word, 2);
    let low = byte_of(word);
    if low == 0x07 {
        Instruction::ReadDelayTimer { x }
    } else if low == 0x0A {
        Instruction::WaitForKey { x }
    } else if low == 0x15 {
        Instruction::SetDelayTimer { x }
    } else if low == 0x18 {
        Instruction::SetSoundTimer { x }
    } else if low == 0x1E {
        Instruction::AddToAddress { x }
    } else if low == 0x29 {
        Instruction::LoadGlyphAddress { x }
    } else if low == 0x33 {
        Instruction::StoreDecimal { x }
    } else if low == 0x55 {
        Instruction::StoreRegisters { x }
    } else if low == 0x65 {
        Instruction::LoadRegisters { x }
    } else {
        Instruction::Unsupported { word }
    }
}

/// The instruction that a 16-bit word encodes. The first digit selects the
/// family; a word that fits no row of the table is `Unsupported`.
pub open spec fn decoded(word: u16) -> Instruction {
    let family = digit_of(word, 3);
    let x = digit_of(word, 2);
    let y = digit_of(word, 1);
    let last = digit_of(word, 0);
    let byte = byte_of(word) as u8;
    let addr = address_of(word);
    if word == 0x00E0 {
        Instruction::ClearScreen
    } else if word == 0x00EE {
        Instruction::Return
    } else if family == 0x1 {
        Instruction::Jump { addr }
    } else if family == 0x2 {
        Instruction::Call { addr }
    } else if family == 0x3 {
        Instruction::SkipIfEqual { x, byte }
    } else if family == 0x4 {
        Instruction::SkipIfNotEqual { x, byte }
    } else if family == 0x5 && last == 0 {
        Instruction::SkipIfRegistersEqual { x, y }
    } else if family == 0x6 {
        Instruction::Load { x, byte }
    } else if family == 0x7 {
        Instruction::AddImmediate { x, byte }
    } else if family == 0x8 {
        decoded_arithmetic(word)
    } else if family == 0x9 && last == 0 {
        Instruction::SkipIfRegistersNotEqual { x, y }
    } else if family == 0xA {
        Instruction::LoadAddress { addr }
    } else if family == 0xB {
        Instruction::JumpWithOffset { addr }
    } else if family == 0xC {
        Instruction::Random { x, byte }
    } else if family == 0xD {
        Instruction::Draw { x, y, rows: last }
    } else if family == 0xE && byte == 0x9E {
        Instruction::SkipIfKeyPressed { x }
    } else if family == 0xE && byte == 0xA1 {
        Instruction::SkipIfKeyNotPressed { x }
    } else if family == 0xF {
        decoded_system(word)
    } else {
        Instruction::Unsupported { word }
    }
}

/// A word with the four hexadecimal digits given, most significant first.
pub open spec fn word_of(family: int, x: int, y: int, last: int) -> u16 {
    (4096 * family + 256 * x + 16 * y + last) as u16
}

/// The word that encodes `instruction`; for `Unsupported`, the word it carries.
pub open spec fn encoded(instruction: Instruction) -> u16 {
    match instruction {
        Instruction::ClearScreen => 0x00E0,
        Instruction::Return => 0x00EE,
        Instruction::Jump { addr } => (0x1000 + addr) as u16,
        Instruction::Call { addr } => (0x2000 + addr) as u16,
        Instruction::SkipIfEqual { x, byte } => (0x3000 + 256 * x + byte) as u16,
        Instruction::SkipIfNotEqual { x, byte } => (0x4000 + 256 * x + byte) as u16,
        Instruction::SkipIfRegistersEqual { x, y } => word_of(0x5, x as int, y as int, 0x0),
        Instruction::Load { x, byte } => (0x6000 + 256 * x + byte) as u16,
        Instruction::AddImmediate { x, byte } => (0x7000 + 256 * x + byte) as u16,
        Instruction::Copy { x, y } => word_of(0x8, x as int, y as int, 0x0),
        Instruction::Or { x, y } => word_of(0x8, x as int, y as int, 0x1),
        Instruction::And { x, y } => word_of(0x8, x as int, y as int, 0x2),
        Instruction::Xor { x, y } => word_of(0x8, x as int, y as int, 0x3),
        Instruction::AddWithCarry { x, y } => word_of(0x8, x as int, y as int, 0x4),
        Instruction::Subtract { x, y } => word_of(0x8, x as int, y as int, 0x5),
        Instruction::ShiftRight { x, y } => word_of(0x8, x as int, y as int, 0x6),
        Instruction::SubtractReversed { x, y } => word_of(0x8, x as int, y as int, 0x7),
        Instruction::ShiftLeft { x, y } => word_of(0x8, x as int, y as int, 0xE),
        Instruction::SkipIfRegistersNotEqual { x, y } => word_of(0x9, x as int, y as int, 0x0),
        Instruction::LoadAddress { addr } => (0xA000 + addr) as u16,
        Instruction::JumpWithOffset { addr } => (0xB000 + addr) as u16,
        Instruction::Random { x, byte } => (0xC000 + 256 * x + byte) as u16,
        Instruction::Draw { x, y, rows } => word_of(0xD, x as int, y as int, rows as int),
        Instruction::SkipIfKeyPressed { x } => word_of(0xE, x as int, 0x9, 0xE),
        Instruction::SkipIfKeyNotPressed { x } => word_of(0xE, x as int, 0xA, 0x1),
        Instruction::ReadDelayTimer { x } => word_of(0xF, x as int, 0x0, 0x7),
        Instruction::WaitForKey { x } => word_of(0xF, x as int, 0x0, 0xA),
        Instruction::SetDelayTimer { x } => word_of(0xF, x as int, 0x1, 0x5),
        Instruction::SetSoundTimer { x } => word_of(0xF, x as int, 0x1, 0x8),
        Instruction::AddToAddress { x } => word_of(0xF, x as int, 0x1, 0xE),
        Instruction::LoadGlyphAddress { x } => word_of(0xF, x as int, 0x2, 0x9),
        Instruction::StoreDecimal { x } => word_of(0xF, x as int, 0x3, 0x3),
        Instruction::StoreRegisters { x } => word_of(0xF, x as int, 0x5, 0x5),
        Instruction::LoadRegisters { x } => word_of(0xF, x as int, 0x6, 0x5),
        Instruction::Unsupported { word } => word,
    }
}

/// A word is the sum of its digits, each at its place.
proof fn lemma_word_is_its_digits(word: u16)
    ensures
        word == word_of(
            digit_of(word, 3) as int,
            digit_of(word, 2) as int,
            digit_of(word, 1) as int,
            digit_of(word, 0) as int,
        ),
        digit_of(word, 3) < 16,
        digit_of(word, 2) < 16,
        digit_of(word, 1) < 16,
        digit_of(word, 0) < 16,
        byte_of(word) == 16 * digit_of(word, 1) + digit_of(word, 0),
        address_of(word) == 256 * digit_of(word, 2) + 16 * digit_of(word, 1) + digit_of(word, 0),
{
}

/// The digits of a word put together from four digits are those digits.
proof fn lemma_digits_of_word(family: int, x: int, y: int, last: int)
    requires
        0 <= family < 16,
        0 <= x < 16,
        0 <= y < 16,
        0 <= last < 16,
    ensures
        digit_of(word_of(family, x, y, last), 3) == family,
        digit_of(word_of(family, x, y, last), 2) == x,
        digit_of(word_of(family, x, y, last), 1) == y,
        digit_of(word_of(family, x, y, last), 0) == last,
        byte_of(word_of(family, x, y, last)) == 16 * y + last,
        address_of(word_of(family, x, y, last)) == 256 * x + 16 * y + last,
{
    let value: int = 4096 * family + 256 * x + 16 * y + last;
    let word: u16 = word_of(family, x, y, last);
    assert(word == value);
    assert(value == 16 * (256 * family + 16 * x + y) + last);
    assert(value % 16 == last && value / 16 == 256 * family + 16 * x + y);
    assert(value == 256 * (16 * family + x) + (16 * y + last));
    assert(value % 256 == 16 * y + last && value / 256 == 16 * family + x);
    assert(value == 4096 * family + (256 * x + 16 * y + last));
    assert(value % 4096 == 256 * x + 16 * y + last && value / 4096 == family);
    assert((256 * family + 16 * x + y) % 16 == y);
    assert((16 * family + x) % 16 == x);
}

proof fn lemma_round_trip_of_jumps(instruction: Instruction)
    requires
        instruction.well_formed(),
        instruction is ClearScreen || instruction is Return || instruction is Jump
            || instruction is Call || instruction is LoadAddress || instruction is JumpWithOffset,
    ensures
        decoded(encoded(instruction)) == instruction,
{
    lemma_word_is_its_digits(encoded(instruction));
}

proof fn lemma_round_trip_of_immediates(instruction: Instruction)
    requires
        instruction.well_formed(),
        instruction is SkipIfEqual || instruction is SkipIfNotEqual || instruction is Load
            || instruction is AddImmediate || instruction is Random,
    ensures
        decoded(encoded(instruction)) == instruction,
{
    lemma_word_is_its_digits(encoded(instruction));
}

proof fn lemma_round_trip_of_arithmetic(instruction: Instruction)
    requires
        instruction.well_formed(),
        instruction is Copy || instruction is Or || instruction is And || instruction is Xor
            || instruction is AddWithCarry || instruction is Subtract || instruction is ShiftRight
            || instruction is SubtractReversed || instruction is ShiftLeft,
    ensures
        decoded(encoded(instruction)) == instruction,
{
    match instruction {
        Instruction::Copy { x, y } => lemma_digits_of_word(0x8, x as int, y as int, 0x0),
        Instruction::Or { x, y } => lemma_digits_of_word(0x8, x as int, y as int, 0x1),
        Instruction::And { x, y } => lemma_digits_of_word(0x8, x as int, y as int, 0x2),
        Instruction::Xor { x, y } => lemma_digits_of_word(0x8, x as int, y as int, 0x3),
        Instruction::AddWithCarry { x, y } => lemma_digits_of_word(0x8, x as int, y as int, 0x4),
        Instruction::Subtract { x, y } => lemma_digits_of_word(0x8, x as int, y as int, 0x5),
        Instruction::ShiftRight { x, y } => lemma_digits_of_word(0x8, x as int, y as int, 0x6),
        Instruction::SubtractReversed { x, y } => lemma_digits_of_word(
            0x8,
            x as int,
            y as int,
            0x7,
        ),
        Instruction::ShiftLeft { x, y } => lemma_digits_of_word(0x8, x as int, y as int, 0xE),
        _ => {},
    }
}

proof fn lemma_round_trip_of_pairs(instruction: Instruction)
    requires
        instruction.well_formed(),
        instruction is SkipIfRegistersEqual || instruction is SkipIfRegistersNotEqual
            || instruction is Draw || instruction is SkipIfKeyPressed
            || instruction is SkipIfKeyNotPressed,
    ensures
        decoded(encoded(instruction)) == instruction,
{
    match instruction {
        Instruction::SkipIfRegistersEqual { x, y } => lemma_digits_of_word(
            0x5,
            x as int,
            y as int,
            0x0,
        ),
        Instruction::SkipIfRegistersNotEqual { x, y } => lemma_digits_of_word(
            0x9,
            x as int,
            y as int,
            0x0,
        ),
        Instruction::Draw { x, y, rows } => lemma_digits_of_word(
            0xD,
            x as int,
            y as int,
            rows as int,
        ),
        Instruction::SkipIfKeyPressed { x } => lemma_digits_of_word(0xE, x as int, 0x9, 0xE),
        Instruction::SkipIfKeyNotPressed { x } => lemma_digits_of_word(0xE, x as int, 0xA, 0x1),
        _ => {},
    }
}

proof fn lemma_round_trip_of_system(instruction: Instruction)
    requires
        instruction.well_formed(),
        instruction is ReadDelayTimer || instruction is WaitForKey || instruction is SetDelayTimer
            || instruction is SetSoundTimer || instruction is AddToAddress
            || instruction is LoadGlyphAddress || instruction is StoreDecimal
            || instruction is StoreRegisters || instruction is LoadRegisters,
    ensures
        decoded(encoded(instruction)) == instruction,
{
    match instruction {
        Instruction::ReadDelayTimer { x } => lemma_digits_of_word(0xF, x as int, 0x0, 0x7),
        Instruction::WaitForKey { x } => lemma_digits_of_word(0xF, x as int, 0x0, 0xA),
        Instruction::SetDelayTimer { x } => lemma_digits_of_word(0xF, x as int, 0x1, 0x5),
        Instruction::SetSoundTimer { x } => lemma_digits_of_word(0xF, x as int, 0x1, 0x8),
        Instruction::AddToAddress { x } => lemma_digits_of_word(0xF, x as int, 0x1, 0xE),
        Instruction::LoadGlyphAddress { x } => lemma_digits_of_word(0xF, x as int, 0x2, 0x9),
        Instruction::StoreDecimal { x } => lemma_digits_of_word(0xF, x as int, 0x3, 0x3),
        Instruction::StoreRegisters { x } => lemma_digits_of_word(0xF, x as int, 0x5, 0x5),
        Instruction::LoadRegisters { x } => lemma_digits_of_word(0xF, x as int, 0x6, 0x5),
        _ => {},
    }
}

/// Every instruction of the table is decoded from the word that encodes it,
/// so no two of them share an encoding.
pub proof fn decoding_inverts_encoding(instruction: Instruction)
    requires
        instruction.well_formed(),
        !(instruction is Unsupported),
    ensures
        decoded(encoded(instruction)) == instruction,
{
    if instruction is ClearScreen || instruction is Return || instruction is Jump
        || instruction is Call || instruction is LoadAddress || instruction is JumpWithOffset {
        lemma_round_trip_of_jumps(instruction);
    } else if instruction is SkipIfEqual || instruction is SkipIfNotEqual || instruction is Load
        || instruction is AddImmediate || instruction is Random {
        lemma_round_trip_of_immediates(instruction);
    } else if instruction is Copy || instruction is Or || instruction is And || instruction is Xor
        || instruction is AddWithCarry || instruction is Subtract || instruction is ShiftRight
        || instruction is SubtractReversed || instruction is ShiftLeft {
        lemma_round_trip_of_arithmetic(instruction);
    } else if instruction is SkipIfRegistersEqual || instruction is SkipIfRegistersNotEqual
        || instruction is Draw || instruction is SkipIfKeyPressed
        || instruction is SkipIfKeyNotPressed {
        lemma_round_trip_of_pairs(instruction);
    } else {
        lemma_round_trip_of_system(instruction);
    }
}

/// Every word encodes the instruction that it is decoded to, so no word is
/// read as two instructions and none is lost.
pub proof fn encoding_inverts_decoding(word: u16)
    ensures
        encoded(decoded(word)) == word,
{
    lemma_word_is_its_digits(word);
}

/// Whatever the word, its decoding has operands in range.
pub proof fn decoded_is_well_formed(word: u16)
    ensures
        decoded(word).well_formed(),
{
}

impl OpCode {
    /// Decode the word into the instruction it encodes.
    pub fn decode(&self) -> (instruction: Instruction)
        ensures
            instruction == decoded(self@),
            instruction.well_formed(),
    {
        let word: u16 = self.get_instruction();
        let addr: u16 = self.get_nnn();
        let low: u16 = self.get_byte();
        let byte: u8 = low as u8;
        let digits: (u8, u8, u8, u8) = self.split_op_code();
        let x: u8 = digits.1;
        let y: u8 = digits.2;
        match digits {
            (0x0, 0x0, 0xE, 0x0) => Instruction::ClearScreen,
            (0x0, 0x0, 0xE, 0xE) => Instruction::Return,
            (0x1, _, _, _) => Instruction::Jump { addr },
            (0x2, _, _, _) => Instruction::Call { addr },
            (0x3, _, _, _) => Instruction::SkipIfEqual { x, byte },
            (0x4, _, _, _) => Instruction::SkipIfNotEqual { x, byte },
            (0x5, _, _, 0x0) => Instruction::SkipIfRegistersEqual { x, y },
            (0x6, _, _, _) => Instruction::Load { x, byte },
            (0x7, _, _, _) => Instruction::AddImmediate { x, byte },
            (0x8, _, _, 0x0) => Instruction::Copy { x, y },
            (0x8, _, _, 0x1) => Instruction::Or { x, y },
            (0x8, _, _, 0x2) => Instruction::And { x, y },
            (0x8, _, _, 0x3) => Instruction::Xor { x, y },
            (0x8, _, _, 0x4) => Instruction::AddWithCarry { x, y },
            (0x8, _, _, 0x5) => Instruction::Subtract { x, y },
            (0x8, _, _, 0x6) => Instruction::ShiftRight { x, y },
            (0x8, _, _, 0x7) => Instruction::SubtractReversed { x, y },
            (0x8, _, _, 0xE) => Instruction::ShiftLeft { x, y },
            (0x9, _, _, 0x0) => Instruction::SkipIfRegistersNotEqual { x, y },
            (0xA, _, _, _) => Instruction::LoadAddress { addr },
            (0xB, _, _, _) => Instruction::JumpWithOffset { addr },
            (0xC, _, _, _) => Instruction::Random { x, byte },
            (0xD, _, _, _) => Instruction::Draw { x, y, rows: digits.3 },
            (0xE, _, 0x9, 0xE) => Instruction::SkipIfKeyPressed { x },
            (0xE, _, 0xA, 0x1) => Instruction::SkipIfKeyNotPressed { x },
            (0xF, _, 0x0, 0x7) => Instruction::ReadDelayTimer { x },
            (0xF, _, 0x0, 0xA) => Instruction::WaitForKey { x },
            (0xF, _, 0x1, 0x5) => Instruction::SetDelayTimer { x },
            (0xF, _, 0x1, 0x8) => Instruction::SetSoundTimer { x },
            (0xF, _, 0x1, 0xE) => Instruction::AddToAddress { x },
            (0xF, _, 0x2, 0x9) => Instruction::LoadGlyphAddress { x },
            (0xF, _, 0x3, 0x3) => Instruction::StoreDecimal { x },
            (0xF, _, 0x5, 0x5) => Instruction::StoreRegisters { x },
            (0xF, _, 0x6, 0x5) => Instruction::LoadRegisters { x },
            _ => Instruction::Unsupported { word },
        }
    }
}

} // verus!
