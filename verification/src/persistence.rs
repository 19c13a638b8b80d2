//! Framing for the upgrade persistence blob.
//!
//! On shutdown the host serializes the whole engine state to a raw memory
//! region as a self-describing binary blob preceded by a 4-byte
//! little-endian length. The serialization itself is the host's business;
//! the length-prefix framing is fixed here.

use vstd::prelude::*;

verus! {

/// The four little-endian bytes of a 32-bit length.
pub open spec fn u32_le_bytes(n: u32) -> Seq<u8> {
    seq![
        (n % 256) as u8,
        ((n / 256) % 256) as u8,
        ((n / 65536) % 256) as u8,
        ((n / 16777216) % 256) as u8,
    ]
}

/// Prefixes the serialized state with its length, little-endian, as the
/// upgrade memory region expects it.
pub fn length_prefixed_state_blob(state_bytes: &Vec<u8>) -> (blob: Vec<u8>)
    requires
        state_bytes@.len() <= u32::MAX,
    ensures
        blob@.len() == state_bytes@.len() + 4,
        blob@.take(4) == u32_le_bytes(state_bytes@.len() as u32),
        blob@.skip(4) == state_bytes@,
{
    let len = state_bytes.len() as u32;
    let mut blob: Vec<u8> = Vec::new();
    blob.push((len % 256) as u8);
    blob.push(((len / 256) % 256) as u8);
    blob.push(((len / 65536) % 256) as u8);
    blob.push(((len / 16777216) % 256) as u8);
    proof {
        assert(blob@ =~= u32_le_bytes(len));
    }
    let n = state_bytes.len();
    let mut i: usize = 0;
    while i < n
        invariant
            n == state_bytes@.len(),
            i <= n,
            blob@.len() == 4 + i,
            blob@.take(4) == u32_le_bytes(len),
            forall|k: int| 0 <= k < i ==> blob@[4 + k] == state_bytes@[k],
        decreases n - i,
    {
        blob.push(state_bytes[i]);
        proof {
            assert(blob@.take(4) =~= blob@.drop_last().take(4));
        }
        i += 1;
    }
    proof {
        assert(blob@.skip(4) =~= state_bytes@);
    }
    blob
}

} // verus!
