use vstd::prelude::*;

verus! {

/// Logic level of a low pin, as the host numbers it.
pub const PIN_LOW: u32 = 0;

/// Logic level of a high pin, as the host numbers it.
pub const PIN_HIGH: u32 = 1;

/// The level driven on the output pin while the input pin reads `value`:
/// low for a high input, high for anything else.
pub open spec fn inverse_level(value: u32) -> u32 {
    if value == PIN_HIGH {
        PIN_LOW
    } else {
        PIN_HIGH
    }
}

/// The level to drive on the output pin after the input pin changed to `value`.
pub fn inverted_level(value: u32) -> (r: u32)
    ensures
        r == inverse_level(value),
        value == PIN_HIGH ==> r == PIN_LOW,
        value == PIN_LOW ==> r == PIN_HIGH,
{
    if value == PIN_HIGH {
        PIN_LOW
    } else {
        PIN_HIGH
    }
}

} // verus!
