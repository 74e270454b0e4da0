//! Bank flags that follow an outside state.
use vstd::prelude::*;

verus! {

/// A bank's flags with the Kamino market-emergency bit `emergency_bit` set when the bank's Kamino
/// market is in emergency mode, and cleared when it is not. The bit is written directly: no other
/// flag changes.
pub fn propagate_kamino_market_emergency(bank_flags: u64, emergency_bit: u64, emergency: bool) -> (r:
    u64)
    ensures
        emergency ==> r == bank_flags | emergency_bit,
        !emergency ==> r == bank_flags & !emergency_bit,
        r & emergency_bit == if emergency {
            emergency_bit
        } else {
            0
        },
        r & !emergency_bit == bank_flags & !emergency_bit,
{
    let r = if emergency {
        bank_flags | emergency_bit
    } else {
        bank_flags & !emergency_bit
    };
    assert(r & emergency_bit == if emergency {
        emergency_bit
    } else {
        0
    }) by (bit_vector)
        requires
            r == if emergency {
                bank_flags | emergency_bit
            } else {
                bank_flags & !emergency_bit
            },
    ;
    assert(r & !emergency_bit == bank_flags & !emergency_bit) by (bit_vector)
        requires
            r == if emergency {
                bank_flags | emergency_bit
            } else {
                bank_flags & !emergency_bit
            },
    ;
    r
}

} // verus!
