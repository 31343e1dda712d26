//! The masking of payloads.

use vstd::prelude::*;

verus! {

/// `payload` with `mask` applied to it over and over; without a mask it stays
/// as it is.
pub open spec fn masked(payload: Seq<u8>, mask: Option<[u8; 4]>) -> Seq<u8> {
    match mask {
        Some(key) => Seq::new(payload.len(), |i: int| payload[i] ^ key@[i % 4]),
        None => payload,
    }
}

/// Masking undoes itself.
pub proof fn law_mask_involution(payload: Seq<u8>, mask: Option<[u8; 4]>)
    ensures
        masked(masked(payload, mask), mask) == payload,
{
    if let Some(key) = mask {
        assert forall|i: int| 0 <= i < payload.len() implies masked(
            masked(payload, mask),
            mask,
        )[i] == payload[i] by {
            let a = payload[i];
            let b = key@[i % 4];
            assert((a ^ b) ^ b == a) by (bit_vector);
        }
        assert(masked(masked(payload, mask), mask) =~= payload);
    }
}

/// Masks or unmasks a payload.
pub fn apply_mask(buf: &mut Vec<u8>, mask: [u8; 4])
    ensures
        final(buf)@ == masked(old(buf)@, Some(mask)),
{
    let mut i: usize = 0;
    while i < buf.len()
        invariant
            i <= buf@.len(),
            buf@.len() == old(buf)@.len(),
            forall|j: int| 0 <= j < i ==> buf@[j] == #[trigger] old(buf)@[j] ^ mask@[j % 4],
            forall|j: int| i <= j < buf@.len() ==> buf@[j] == old(buf)@[j],
        decreases buf@.len() - i,
    {
        let byte: u8 = buf[i];
        buf[i] = byte ^ mask[i % 4];
        i = i + 1;
    }
    assert(buf@ =~= masked(old(buf)@, Some(mask)));
}

} // verus!
