//! Small computations around the connectivity probe.

use vstd::prelude::*;

verus! {

/// The time that a probe took as it is reported: the milliseconds in their
/// low sixteen bits.
pub fn latency_ms(elapsed_millis: u128) -> (ms: u16)
    ensures
        ms as int == elapsed_millis as int % 0x1_0000,
{
    (elapsed_millis % 0x1_0000) as u16
}

} // verus!
