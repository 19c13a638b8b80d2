//! Caller identities.
//!
//! The engine treats a caller's principal as an opaque byte string of at most
//! 29 bytes. All it ever reads from one is equality with another principal and
//! whether it is the distinguished anonymous sentinel (the single byte `0x04`),
//! which is forbidden from placing bets.

use vstd::prelude::*;

verus! {

/// Longest principal representation, in bytes.
pub const MAXIMUM_PRINCIPAL_LENGTH_IN_BYTES: usize = 29;

/// An opaque caller identity: a byte string of at most 29 bytes.
#[derive(Debug, PartialEq, Eq, Hash)]
pub struct PrincipalId {
    bytes: Vec<u8>,
}

impl View for PrincipalId {
    type V = Seq<u8>;

    closed spec fn view(&self) -> Seq<u8> {
        self.bytes@
    }
}

/// The byte string of the anonymous sentinel.
pub open spec fn anonymous_bytes() -> Seq<u8> {
    seq![4u8]
}

impl PrincipalId {
    pub open spec fn wf(&self) -> bool {
        self@.len() <= MAXIMUM_PRINCIPAL_LENGTH_IN_BYTES
    }

    /// The distinguished anonymous sentinel.
    pub fn anonymous() -> (r: PrincipalId)
        ensures
            r@ == anonymous_bytes(),
            r.wf(),
    {
        let mut bytes: Vec<u8> = Vec::new();
        bytes.push(4u8);
        proof {
            assert(bytes@ =~= anonymous_bytes());
        }
        PrincipalId { bytes }
    }

    /// A principal made of the given bytes, truncated to the longest
    /// representation if more are handed in.
    pub fn from_bytes(bytes: Vec<u8>) -> (r: PrincipalId)
        requires
            bytes@.len() <= MAXIMUM_PRINCIPAL_LENGTH_IN_BYTES,
        ensures
            r@ == bytes@,
            r.wf(),
    {
        PrincipalId { bytes }
    }

    /// The raw bytes of this principal.
    pub fn as_bytes(&self) -> (r: &Vec<u8>)
        ensures
            r@ == self@,
    {
        &self.bytes
    }

    pub fn is_anonymous(&self) -> (r: bool)
        ensures
            r == (self@ == anonymous_bytes()),
    {
        self.equals(&PrincipalId::anonymous())
    }

    pub fn equals(&self, other: &PrincipalId) -> (r: bool)
        ensures
            r == (self@ == other@),
    {
        if self.bytes.len() != other.bytes.len() {
            proof {
                assert(self@ != other@);
            }
            return false;
        }
        let n = self.bytes.len();
        let mut i: usize = 0;
        while i < n
            invariant
                n == self.bytes.len() == other.bytes.len(),
                0 <= i <= n,
                forall|k: int| 0 <= k < i ==> self@[k] == other@[k],
            decreases n - i,
        {
            if self.bytes[i] != other.bytes[i] {
                return false;
            }
            i += 1;
        }
        proof {
            assert(self@ =~= other@);
        }
        true
    }
}

impl Clone for PrincipalId {
    /// The clone stands for the same principal.
    fn clone(&self) -> (r: Self)
        ensures
            r@ == self@,
    {
        let mut bytes: Vec<u8> = Vec::new();
        let n = self.bytes.len();
        let mut i: usize = 0;
        while i < n
            invariant
                n == self.bytes.len(),
                bytes@.len() == i,
                0 <= i <= n,
                forall|k: int| 0 <= k < i ==> bytes@[k] == self@[k],
            decreases n - i,
        {
            bytes.push(self.bytes[i]);
            i += 1;
        }
        proof {
            assert(bytes@ =~= self@);
        }
        PrincipalId { bytes }
    }
}

} // verus!
