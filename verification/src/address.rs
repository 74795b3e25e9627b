//! Addresses and identities: thirty-two bytes each.

use vstd::prelude::*;

verus! {

/// A storage address, or the identity of a principal. Its view is the
/// sequence of its thirty-two bytes.
#[derive(Clone, Copy, Debug, Eq)]
pub struct Address {
    pub bytes: [u8; 32],
}

impl View for Address {
    type V = Seq<u8>;

    open spec fn view(&self) -> Seq<u8> {
        self.bytes@
    }
}

impl PartialEq for Address {
    fn eq(&self, other: &Address) -> (equal: bool) {
        let mut i: usize = 0;
        while i < 32
            invariant
                i <= 32,
                forall|j: int| 0 <= j < i ==> self.bytes@[j] == other.bytes@[j],
            decreases 32 - i,
        {
            if self.bytes[i] != other.bytes[i] {
                return false;
            }
            i += 1;
        }
        assert(self.bytes@ =~= other.bytes@);
        true
    }
}

impl vstd::std_specs::cmp::PartialEqSpecImpl for Address {
    open spec fn obeys_eq_spec() -> bool {
        true
    }

    open spec fn eq_spec(&self, other: &Address) -> bool {
        self@ == other@
    }
}

impl Address {
    /// The address made of the given bytes.
    pub fn new(bytes: [u8; 32]) -> (address: Address)
        ensures
            address@ == bytes@,
    {
        Address { bytes }
    }

    /// The bytes of the address.
    pub fn to_bytes(&self) -> (bytes: [u8; 32])
        ensures
            bytes@ == self@,
    {
        self.bytes
    }

    /// The view of the address that stands for "none": all bytes zero.
    pub open spec fn sentinel_view() -> Seq<u8> {
        Seq::new(32, |i: int| 0u8)
    }

    /// The all-zero address, which a report holds until a badge is issued.
    pub fn sentinel() -> (address: Address)
        ensures
            address@ == Self::sentinel_view(),
    {
        let address = Address { bytes: [0u8; 32] };
        assert(address@ =~= Self::sentinel_view());
        address
    }

    /// Whether this is the all-zero address.
    pub fn is_sentinel(&self) -> (zero: bool)
        ensures
            zero == (self@ == Self::sentinel_view()),
    {
        let mut i: usize = 0;
        while i < 32
            invariant
                i <= 32,
                forall|j: int| 0 <= j < i ==> self.bytes@[j] == 0,
            decreases 32 - i,
        {
            if self.bytes[i] != 0 {
                assert(Self::sentinel_view()[i as int] == 0);
                return false;
            }
            i += 1;
        }
        assert(self@ =~= Self::sentinel_view());
        true
    }

    /// The address whose bytes are those of `bytes`, when there are
    /// thirty-two of them.
    pub fn from_slice(bytes: &[u8]) -> (address: Option<Address>)
        ensures
            address is Some <==> bytes@.len() == 32,
            address matches Some(a) ==> a@ == bytes@,
    {
        if bytes.len() != 32 {
            return None;
        }
        let mut out = [0u8; 32];
        let mut i: usize = 0;
        while i < 32
            invariant
                i <= 32,
                bytes@.len() == 32,
                forall|j: int| 0 <= j < i ==> out@[j] == bytes@[j],
            decreases 32 - i,
        {
            out[i] = bytes[i];
            i += 1;
        }
        assert(out@ =~= bytes@);
        Some(Address { bytes: out })
    }
}

} // verus!
