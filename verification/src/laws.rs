//! Laws of the instruction set, proved of the model that the interpreter
//! is verified against.

use vstd::prelude::*;
use crate::instruction::Instruction;
use crate::display::lemma_cell_of_offsets;
use crate::machine::{
    sprite_covers, sprite_pixel, wrap16, Chip8Error, Flow, Machine, VRAM_SIZE,
};

verus! {

/// Adding an immediate stores the sum modulo 256. It has no flag effect:
/// the flags register keeps its value, unless it is itself the destination.
pub proof fn add_immediate_wraps_without_flags(m: Machine, x: u8, byte: u8, random: u8)
    requires
        m.well_formed(),
        x < 16,
    ensures
        m.executed(Instruction::AddImmediate { x, byte }, random).register(x) == (m.register(x)
            + byte) % 256,
        x != 0xF ==> m.executed(Instruction::AddImmediate { x, byte }, random).flags()
            == m.flags(),
{
}

/// Adding a register to a register sets the flags register to 1 if the sum
/// is above 255 and to 0 if it is not; the destination holds the sum modulo
/// 256, unless it is the flags register, which then holds the carry.
pub proof fn add_with_carry_sets_flags(m: Machine, x: u8, y: u8, random: u8)
    requires
        m.well_formed(),
        x < 16,
        y < 16,
    ensures
        m.executed(Instruction::AddWithCarry { x, y }, random).flags() == if m.register(x)
            + m.register(y) > 255 {
            1int
        } else {
            0int
        },
        x != 0xF ==> m.executed(Instruction::AddWithCarry { x, y }, random).register(x) == (
        m.register(x) + m.register(y)) % 256,
{
}

/// Subtracting sets the flags register to 1 if nothing was borrowed, that
/// is if the minuend is at least the subtrahend, and to 0 otherwise; this
/// holds in both operand orders. The destination holds the difference modulo
/// 256, unless it is the flags register.
pub proof fn subtract_sets_flags_without_borrow(m: Machine, x: u8, y: u8, random: u8)
    requires
        m.well_formed(),
        x < 16,
        y < 16,
    ensures
        m.executed(Instruction::Subtract { x, y }, random).flags() == if m.register(x)
            >= m.register(y) {
            1int
        } else {
            0int
        },
        m.executed(Instruction::SubtractReversed { x, y }, random).flags() == if m.register(y)
            >= m.register(x) {
            1int
        } else {
            0int
        },
        x != 0xF ==> m.executed(Instruction::Subtract { x, y }, random).register(x) == (
        m.register(x) - m.register(y)) % 256,
        x != 0xF ==> m.executed(Instruction::SubtractReversed { x, y }, random).register(x) == (
        m.register(y) - m.register(x)) % 256,
{
}

/// Clearing the screen leaves every cell dark, whatever the display held.
pub proof fn clear_screen_darkens_every_cell(m: Machine, random: u8)
    requires
        m.well_formed(),
    ensures
        m.executed(Instruction::ClearScreen, random).well_formed(),
        forall|cell: int|
            0 <= cell < VRAM_SIZE ==> !m.executed(Instruction::ClearScreen, random).display[cell],
{
}

/// The pixel in row `row` and column `column` of a sprite lands on the cell
/// `((vx + column) mod 64, (vy + row) mod 32)`, and no other pixel of the
/// sprite lands there: the sprite covers that cell exactly when the pixel's
/// bit is set and, under clipping, the pixel has not left the display to the
/// right of or below the corner.
pub proof fn sprite_pixels_land_from_the_corner(
    memory: Seq<u8>,
    address: u16,
    clip: bool,
    vx: u8,
    vy: u8,
    rows: u8,
    row: int,
    column: int,
)
    requires
        0 <= row < rows < 16,
        0 <= column < 8,
    ensures
        sprite_covers(
            memory,
            address,
            clip,
            vx,
            vy,
            rows,
            (vx + column) % 64 + 64 * ((vy + row) % 32),
        ) == (sprite_pixel(memory[(address + row) % 4096], column as u8) && (clip ==> vx as int
            % 64 + column < 64 && vy as int % 32 + row < 32)),
{
    let left = vx as int % 64;
    let top = vy as int % 32;
    let cell = (vx + column) % 64 + 64 * ((vy + row) % 32);
    assert((vx + column) % 64 == (left + column) % 64);
    assert((vy + row) % 32 == (top + row) % 32);
    lemma_cell_of_offsets(left, top, column, row, cell);
}

/// Drawing changes the display, the flags register and the program counter,
/// and nothing else.
pub proof fn draw_keeps_the_sprite_source(m: Machine, x: u8, y: u8, rows: u8, random: u8)
    requires
        m.well_formed(),
        x < 16,
        y < 16,
    ensures
        m.executed(Instruction::Draw { x, y, rows }, random).memory == m.memory,
        m.executed(Instruction::Draw { x, y, rows }, random).address == m.address,
        m.executed(Instruction::Draw { x, y, rows }, random).quirks == m.quirks,
        m.executed(Instruction::Draw { x, y, rows }, random).stack == m.stack,
        m.executed(Instruction::Draw { x, y, rows }, random).keys == m.keys,
        m.executed(Instruction::Draw { x, y, rows }, random).delay_timer == m.delay_timer,
        m.executed(Instruction::Draw { x, y, rows }, random).sound_timer == m.sound_timer,
        m.executed(Instruction::Draw { x, y, rows }, random).registers == m.registers.update(
            0xF,
            m.executed(Instruction::Draw { x, y, rows }, random).flags(),
        ),
{
}

/// Drawing the same sprite twice at the same place gives the display back.
/// Neither coordinate register may be the flags register, which the first
/// draw overwrites. After the second draw the flags register tells whether
/// that draw met a cell that the first one had left lit.
pub proof fn draw_twice_restores_the_display(m: Machine, x: u8, y: u8, rows: u8, random: u8)
    requires
        m.well_formed(),
        x < 0xF,
        y < 0xF,
    ensures
        ({
            let draw = Instruction::Draw { x, y, rows };
            let once = m.executed(draw, random);
            let twice = once.executed(draw, random);
            &&& twice.display == m.display
            &&& twice.flags() == if once.sprite_collides(m.register(x), m.register(y), rows) {
                1int
            } else {
                0int
            }
            &&& once.sprite_collides(m.register(x), m.register(y), rows) == exists|cell: int|
                0 <= cell < VRAM_SIZE && !m.display[cell] && #[trigger] sprite_covers(
                    m.memory,
                    m.address,
                    m.quirks.clip_sprites,
                    m.register(x),
                    m.register(y),
                    rows,
                    cell,
                )
        }),
{
    let draw = Instruction::Draw { x, y, rows };
    let vx = m.register(x);
    let vy = m.register(y);
    let once = m.executed(draw, random);
    let twice = once.executed(draw, random);
    assert(once.register(x) == vx && once.register(y) == vy);
    assert(twice.display =~= m.display);
    if once.sprite_collides(vx, vy, rows) {
        let cell = choose|cell: int|
            0 <= cell < VRAM_SIZE && once.display[cell] && #[trigger] sprite_covers(
                once.memory,
                once.address,
                once.quirks.clip_sprites,
                vx,
                vy,
                rows,
                cell,
            );
        assert(!m.display[cell] && sprite_covers(
            m.memory,
            m.address,
            m.quirks.clip_sprites,
            vx,
            vy,
            rows,
            cell,
        ));
    }
    if exists|cell: int|
        0 <= cell < VRAM_SIZE && !m.display[cell] && #[trigger] sprite_covers(
            m.memory,
            m.address,
            m.quirks.clip_sprites,
            vx,
            vy,
            rows,
            cell,
        ) {
        let cell = choose|cell: int|
            0 <= cell < VRAM_SIZE && !m.display[cell] && #[trigger] sprite_covers(
                m.memory,
                m.address,
                m.quirks.clip_sprites,
                vx,
                vy,
                rows,
                cell,
            );
        assert(once.display[cell] && sprite_covers(
            once.memory,
            once.address,
            once.quirks.clip_sprites,
            vx,
            vy,
            rows,
            cell,
        ));
    }
}

/// A call followed at once by a return resumes at the instruction after the
/// call and leaves everything else as it was.
pub proof fn call_then_return_resumes_after_the_call(m: Machine, addr: u16, random: u8)
    requires
        m.well_formed(),
        m.stack.len() < 16,
    ensures
        m.executed(Instruction::Call { addr }, random).pc == addr,
        m.executed(Instruction::Call { addr }, random).executed(Instruction::Return, random)
            == m.advanced(),
{
    let called = m.executed(Instruction::Call { addr }, random);
    assert(called.stack.drop_last() =~= m.stack);
}

/// Whatever a subroutine does, a return that finds the stack as the call
/// left it resumes at the instruction after the call and takes the call's
/// return address off the stack.
pub proof fn return_resumes_after_the_matching_call(
    m: Machine,
    addr: u16,
    later: Machine,
    random: u8,
)
    requires
        m.well_formed(),
        m.stack.len() < 16,
        later.stack == m.executed(Instruction::Call { addr }, random).stack,
    ensures
        later.executed(Instruction::Return, random).pc == wrap16(m.pc + 2),
        later.executed(Instruction::Return, random).stack == m.stack,
        later.outcome(Instruction::Return) == Ok::<Flow, Chip8Error>(Flow::Jump),
{
    assert(later.stack.drop_last() =~= m.stack);
}

/// Under the legacy quirk a bitwise OR, AND or XOR leaves the flags register
/// at 0. Without it the flags register keeps its value, unless it is itself
/// the destination.
pub proof fn logic_flags_follow_the_quirk(m: Machine, x: u8, y: u8, random: u8)
    requires
        m.well_formed(),
        x < 16,
        y < 16,
    ensures
        m.quirks.clear_flags_on_logic ==> {
            &&& m.executed(Instruction::Or { x, y }, random).flags() == 0
            &&& m.executed(Instruction::And { x, y }, random).flags() == 0
            &&& m.executed(Instruction::Xor { x, y }, random).flags() == 0
        },
        !m.quirks.clear_flags_on_logic && x != 0xF ==> {
            &&& m.executed(Instruction::Or { x, y }, random).flags() == m.flags()
            &&& m.executed(Instruction::And { x, y }, random).flags() == m.flags()
            &&& m.executed(Instruction::Xor { x, y }, random).flags() == m.flags()
        },
{
}

/// Memory is written by the two store instructions alone: whatever else
/// runs, the font and the program stay as they are.
pub proof fn only_stores_write_memory(m: Machine, instruction: Instruction, random: u8)
    requires
        m.well_formed(),
        instruction.well_formed(),
        !(instruction is StoreDecimal),
        !(instruction is StoreRegisters),
    ensures
        m.executed(instruction, random).memory == m.memory,
{
}

/// The display is written by clear-screen and draw alone.
pub proof fn only_clear_and_draw_write_the_display(
    m: Machine,
    instruction: Instruction,
    random: u8,
)
    requires
        m.well_formed(),
        instruction.well_formed(),
        !(instruction is ClearScreen),
        !(instruction is Draw),
    ensures
        m.executed(instruction, random).display == m.display,
{
}

/// No instruction changes the key state, and none but the two that set a
/// timer changes a timer.
pub proof fn instructions_only_read_keys_and_timers(
    m: Machine,
    instruction: Instruction,
    random: u8,
)
    requires
        m.well_formed(),
        instruction.well_formed(),
    ensures
        m.executed(instruction, random).keys == m.keys,
        !(instruction is SetDelayTimer) ==> m.executed(instruction, random).delay_timer
            == m.delay_timer,
        !(instruction is SetSoundTimer) ==> m.executed(instruction, random).sound_timer
            == m.sound_timer,
{
}

/// A word outside the instruction table does nothing but move the program
/// counter to the next instruction, and never faults.
pub proof fn unsupported_words_only_advance(m: Machine, word: u16, random: u8)
    ensures
        m.executed(Instruction::Unsupported { word }, random) == m.advanced(),
        m.outcome(Instruction::Unsupported { word }) == Ok::<Flow, Chip8Error>(Flow::Unsupported),
{
}

/// Executing keeps a well-formed machine well formed and never changes its
/// quirks profile.
pub proof fn executing_keeps_the_machine_well_formed(
    m: Machine,
    instruction: Instruction,
    random: u8,
)
    requires
        m.well_formed(),
        instruction.well_formed(),
    ensures
        m.executed(instruction, random).well_formed(),
        m.executed(instruction, random).quirks == m.quirks,
{
}

/// A faulting instruction changes nothing, so it faults again when retried:
/// the machine stays halted at it.
pub proof fn a_fault_halts_the_machine(m: Machine, instruction: Instruction, random: u8)
    requires
        m.fault(instruction) is Some,
    ensures
        m.executed(instruction, random) == m,
        m.executed(instruction, random).fault(instruction) == m.fault(instruction),
        instruction is Call || instruction is Return,
{
}

/// Waiting for a key changes nothing while no key is down; once one is, its
/// index (the lowest, if several are down) goes to the register and the
/// program counter moves on.
pub proof fn wait_for_key_blocks_until_a_key_is_down(m: Machine, x: u8, random: u8)
    requires
        m.well_formed(),
        x < 16,
    ensures
        (forall|key: int| 0 <= key < 16 ==> !m.keys[key]) ==> m.executed(
            Instruction::WaitForKey { x },
            random,
        ) == m && m.flow(Instruction::WaitForKey { x }) == Flow::Wait,
        forall|key: int|
            0 <= key < 16 && m.keys[key] && (forall|other: int| 0 <= other < key ==> !m.keys[other])
                ==> m.executed(Instruction::WaitForKey { x }, random) == m.with_register(
                x,
                key as u8,
            ).advanced() && m.flow(Instruction::WaitForKey { x }) == Flow::Advance,
{
    assert forall|key: int|
        0 <= key < 16 && m.keys[key] && (forall|other: int|
            0 <= other < key ==> !m.keys[other]) implies m.executed(
        Instruction::WaitForKey { x },
        random,
    ) == m.with_register(x, key as u8).advanced() && m.flow(Instruction::WaitForKey { x })
        == Flow::Advance by {
        assert(crate::machine::is_lowest_pressed(m.keys, key));
        let chosen = crate::machine::lowest_pressed(m.keys);
        assert(crate::machine::is_lowest_pressed(m.keys, chosen));
        assert(chosen == key);
    }
}

/// `count` timer ticks take `count` off each timer, stopping at zero.
pub proof fn timers_count_down_to_zero(m: Machine, count: nat)
    ensures
        ticked_times(m, count).delay_timer == if m.delay_timer >= count {
            m.delay_timer - count
        } else {
            0
        },
        ticked_times(m, count).sound_timer == if m.sound_timer >= count {
            m.sound_timer - count
        } else {
            0
        },
    decreases count,
{
    if count > 0 {
        timers_count_down_to_zero(m, (count - 1) as nat);
    }
}

/// The state after `count` timer ticks.
pub open spec fn ticked_times(m: Machine, count: nat) -> Machine
    decreases count,
{
    if count == 0 {
        m
    } else {
        ticked_times(m, (count - 1) as nat).timers_ticked()
    }
}

} // verus!
