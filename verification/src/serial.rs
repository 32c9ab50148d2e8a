//! Formatting of the chip's 64-bit unique id as a serial-number text.

use vstd::prelude::*;
use crate::pretty::hex_digit;
use crate::pretty::hex_digit_of;

verus! {

/// The nibble of `id` shown at position `i` of the serial text: position
/// 0 shows the most significant nibble.
pub open spec fn spec_nibble(id: u64, i: int) -> u64 {
    (id >> (((15 - i) * 4) as u64)) & 0xF
}

/// Formats a 64-bit unique id as 16 uppercase hex characters, most
/// significant nibble first, for use as the device's serial number.
pub fn get_serial(unique_id: u64) -> (r: Vec<u8>)
    ensures
        r@.len() == 16,
        forall|i: int| 0 <= i < 16 ==> r@[i] == hex_digit(spec_nibble(unique_id, i) as u8),
{
    let mut out: Vec<u8> = Vec::new();
    let mut i: usize = 0;
    while i < 16
        invariant
            i <= 16,
            out@.len() == i,
            forall|j: int| 0 <= j < i ==> out@[j] == hex_digit(spec_nibble(unique_id, j) as u8),
        decreases 16 - i,
    {
        let shift: u64 = ((15 - i) as u64) * 4;
        let v: u64 = (unique_id >> shift) & 0xF;
        proof {
            assert((unique_id >> shift) & 0xF < 16) by (bit_vector);
            assert(v == spec_nibble(unique_id, i as int));
        }
        out.push(hex_digit_of(v as u8));
        i += 1;
    }
    out
}

} // verus!
