//! Boot-time decisions of the bootloader glue: whether to stay in DFU mode,
//! whether a user image may be jumped to, and the indicator blink count.
//! The register reads and the machine-specific jump sequence that act on
//! these decisions live outside the library.

use vstd::prelude::*;

use crate::flags::BlFlags;

verus! {

/// Enter DFU mode when the designated input pin is high at reset or the
/// last reset was a software reset; otherwise the bootloader tries the user
/// image first.
pub fn should_enter_dfu(force_pin_high: bool, sw_reset: bool) -> (r: bool)
    ensures
        r == (force_pin_high || sw_reset),
{
    force_pin_high || sw_reset
}

/// The jump to the user image proceeds only when a valid boot-flags record
/// marks user code present.
pub fn user_code_ready(flags: &Option<BlFlags>) -> (r: bool)
    ensures
        r == match flags {
            Some(fl) => fl.user_code_present,
            None => false,
        },
{
    match flags {
        Some(fl) => fl.user_code_present,
        None => false,
    }
}

/// LED blink count at boot: four when a boot-flags record was readable, two
/// when not.
pub fn boot_blink_count(flags_present: bool) -> (r: usize)
    ensures
        r == (if flags_present {
            4int
        } else {
            2int
        }),
{
    if flags_present {
        4
    } else {
        2
    }
}

} // verus!
