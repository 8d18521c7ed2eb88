//! ACPI table checksumming.
//!
//! An ACPI system description table is valid when all of its bytes,
//! checksum byte included, sum to zero modulo 256.

use vstd::prelude::*;

verus! {

/// Sum of the bytes of `s`, as an unbounded integer.
pub open spec fn spec_byte_sum(s: Seq<u8>) -> int
    decreases s.len(),
{
    if s.len() == 0 {
        0
    } else {
        spec_byte_sum(s.drop_last()) + s.last()
    }
}

/// Replacing one byte shifts the byte sum by the difference.
pub proof fn lemma_byte_sum_update(s: Seq<u8>, k: int, v: u8)
    requires
        0 <= k < s.len(),
    ensures
        spec_byte_sum(s.update(k, v)) == spec_byte_sum(s) - s[k] + v,
    decreases s.len(),
{
    if k == s.len() - 1 {
        assert(s.update(k, v).drop_last() =~= s.drop_last());
    } else {
        assert(s.update(k, v).drop_last() =~= s.drop_last().update(k, v));
        lemma_byte_sum_update(s.drop_last(), k, v);
    }
}

/// ACPI checksum byte for `data`: the unique value that makes the bytes
/// plus the checksum sum to zero modulo 256.
pub fn calculate_checksum(data: &[u8]) -> (r: u8)
    ensures
        (spec_byte_sum(data@) + r) % 256 == 0,
{
    let mut sum: u8 = 0;
    let mut i: usize = 0;
    while i < data.len()
        invariant
            i <= data@.len(),
            sum == spec_byte_sum(data@.take(i as int)) % 256,
        decreases data@.len() - i,
    {
        proof {
            assert(data@.take(i + 1).drop_last() =~= data@.take(i as int));
            vstd::arithmetic::div_mod::lemma_add_mod_noop(
                spec_byte_sum(data@.take(i as int)),
                data@[i as int] as int,
                256,
            );
        }
        sum = sum.wrapping_add(data[i]);
        i = i + 1;
    }
    proof {
        assert(data@.take(data@.len() as int) =~= data@);
        vstd::arithmetic::div_mod::lemma_add_mod_noop(spec_byte_sum(data@), 256 - sum, 256);
    }
    (0u8).wrapping_sub(sum)
}

} // verus!
