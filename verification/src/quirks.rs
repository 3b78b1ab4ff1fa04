//! Hardware-compatibility profiles.

use vstd::prelude::*;

verus! {

/// The four behaviours on which the COSMAC VIP interpreter and later
/// interpreters differ. Each switch is `true` for the legacy behaviour. A
/// profile is chosen when a machine is built and never changes afterwards.
#[derive(Clone, Copy, Debug, PartialEq, Eq, Structural)]
pub struct Quirks {
    /// Bitwise OR, AND and XOR clear the flags register.
    pub clear_flags_on_logic: bool,
    /// Shifts first copy the second operand register into the first.
    pub shift_reads_second_operand: bool,
    /// Block transfers leave the address register past the last cell used.
    pub advance_address_on_transfer: bool,
    /// Sprites are cut off at the right and bottom edges instead of wrapping.
    pub clip_sprites: bool,
}

/// The COSMAC VIP profile: every legacy behaviour switched on.
pub open spec fn legacy_profile() -> Quirks {
    Quirks {
        clear_flags_on_logic: true,
        shift_reads_second_operand: true,
        advance_address_on_transfer: true,
        clip_sprites: true,
    }
}

/// The modern profile: every legacy behaviour switched off.
pub open spec fn modern_profile() -> Quirks {
    Quirks {
        clear_flags_on_logic: false,
        shift_reads_second_operand: false,
        advance_address_on_transfer: false,
        clip_sprites: false,
    }
}

impl Quirks {
    /// The COSMAC VIP profile: every legacy behaviour switched on.
    pub fn legacy() -> (quirks: Quirks)
        ensures
            quirks == legacy_profile(),
    {
        Quirks {
            clear_flags_on_logic: true,
            shift_reads_second_operand: true,
            advance_address_on_transfer: true,
            clip_sprites: true,
        }
    }

    /// The modern profile: every legacy behaviour switched off.
    pub fn modern() -> (quirks: Quirks)
        ensures
            quirks == modern_profile(),
    {
        Quirks {
            clear_flags_on_logic: false,
            shift_reads_second_operand: false,
            advance_address_on_transfer: false,
            clip_sprites: false,
        }
    }
}

} // verus!
