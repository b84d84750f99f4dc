//! Player identities: fixed 32-byte keys issued by the host ledger.

use vstd::prelude::*;

verus! {

broadcast use vstd::array::group_array_axioms;

/// A 32-byte identity key, as the host ledger assigns to every account.
/// The all-zero key is the sentinel that marks an empty roster slot:
/// no real participant carries it.
///
/// The derived `PartialEq` is for unverified callers only; verified code
/// compares keys with [`PlayerId::key_eq`].
#[derive(Clone, Copy, PartialEq, Eq, Debug)]
pub struct PlayerId {
    pub bytes: [u8; 32],
}

impl View for PlayerId {
    type V = Seq<u8>;

    open spec fn view(&self) -> Seq<u8> {
        self.bytes@
    }
}

impl PlayerId {
    /// True of the sentinel key that marks an empty slot.
    pub open spec fn is_sentinel(self) -> bool {
        forall|i: int| 0 <= i < 32 ==> self.bytes[i] == 0u8
    }

    /// The sentinel key itself: all bytes zero.
    pub fn sentinel() -> (r: PlayerId)
        ensures
            r.is_sentinel(),
    {
        PlayerId { bytes: [0u8; 32] }
    }

    /// Byte-for-byte equality of two keys, which coincides with equality
    /// of the identities themselves.
    pub fn key_eq(&self, other: &PlayerId) -> (r: bool)
        ensures
            r == (*self == *other),
    {
        let mut i: usize = 0;
        while i < 32
            invariant
                0 <= i <= 32,
                forall|j: int| 0 <= j < i ==> self.bytes[j] == other.bytes[j],
            decreases 32 - i,
        {
            if self.bytes[i] != other.bytes[i] {
                return false;
            }
            i += 1;
        }
        proof {
            assert(self.bytes =~= other.bytes);
        }
        true
    }

    /// Whether this key is the empty-slot sentinel.
    pub fn is_empty_key(&self) -> (r: bool)
        ensures
            r == self.is_sentinel(),
    {
        let mut i: usize = 0;
        while i < 32
            invariant
                0 <= i <= 32,
                forall|j: int| 0 <= j < i ==> self.bytes[j] == 0u8,
            decreases 32 - i,
        {
            if self.bytes[i] != 0u8 {
                return false;
            }
            i += 1;
        }
        true
    }
}

impl Default for PlayerId {
    /// The default key is the empty-slot sentinel.
    fn default() -> (r: PlayerId)
        ensures
            r.is_sentinel(),
    {
        PlayerId { bytes: [0u8; 32] }
    }
}

} // verus!
