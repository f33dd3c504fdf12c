//! Sets of protocol versions, held as bits of a `u32`.

use vstd::prelude::*;

verus! {

/// The bit that stands for protocol version 1.
pub const V1_BIT: u32 = 1;

/// Every bit that names a known protocol version.
pub const KNOWN_BITS: u32 = 1;

/// A set of protocol versions. Only known versions can be members.
#[derive(Clone, Copy, Debug, PartialEq, Eq, Structural)]
pub struct SessionVersion {
    bits: u32,
}

impl View for SessionVersion {
    type V = u32;

    closed spec fn view(&self) -> u32 {
        self.bits
    }
}

/// Whether `bits` names known versions only.
pub open spec fn known(bits: u32) -> bool {
    bits & !KNOWN_BITS == 0
}

/// Versions that this node does not know play no part in what two sides
/// have in common: the common versions of a set of known versions and any
/// other set are the same whether or not the unknown ones are left out of
/// the other set first. Leaving them out of a set of known versions changes
/// nothing.
pub proof fn lemma_unknown_versions_play_no_part(own: u32, peer: u32)
    requires
        known(own),
    ensures
        own & (peer & KNOWN_BITS) == own & peer,
        known(peer & KNOWN_BITS),
        own & KNOWN_BITS == own,
{
    assert(own & !1u32 == 0 ==> own & (peer & 1u32) == own & peer) by (bit_vector);
    assert((peer & 1u32) & !1u32 == 0) by (bit_vector);
    assert(own & !1u32 == 0 ==> own & 1u32 == own) by (bit_vector);
}

impl SessionVersion {
    #[verifier::type_invariant]
    spec fn inv(self) -> bool {
        known(self.bits)
    }

    /// Two sets with the same bits are the same set.
    pub proof fn lemma_view_injective(self, other: SessionVersion)
        requires
            self@ == other@,
        ensures
            self == other,
    {
    }

    /// The set with no version in it.
    pub fn empty() -> (r: SessionVersion)
        ensures
            r@ == 0,
    {
        assert(known(0u32)) by (bit_vector);
        SessionVersion { bits: 0 }
    }

    /// The set that holds version 1 alone.
    pub fn v1() -> (r: SessionVersion)
        ensures
            r@ == V1_BIT,
    {
        assert(known(1u32)) by (bit_vector);
        SessionVersion { bits: V1_BIT }
    }

    /// Every known version.
    pub fn all() -> (r: SessionVersion)
        ensures
            r@ == KNOWN_BITS,
    {
        assert(known(1u32)) by (bit_vector);
        SessionVersion { bits: KNOWN_BITS }
    }

    /// The known versions among those that `bits` names. Bits that name no
    /// known version are left out: a peer may offer versions that this node
    /// has not heard of, and they cannot be among the common ones.
    pub fn from_bits_truncate(bits: u32) -> (r: SessionVersion)
        ensures
            r@ == bits & KNOWN_BITS,
    {
        assert((bits & 1u32) & !1u32 == 0) by (bit_vector);
        SessionVersion { bits: bits & KNOWN_BITS }
    }

    /// The set whose bits are `bits`, unless a bit of it names no known
    /// version. This is for a set that this node makes up itself; what a
    /// peer sent is read with `from_bits_truncate`.
    pub fn from_bits(bits: u32) -> (r: Option<SessionVersion>)
        ensures
            r is Some <==> known(bits),
            r matches Some(v) ==> v@ == bits,
    {
        if bits & !KNOWN_BITS == 0 {
            Some(SessionVersion { bits })
        } else {
            None
        }
    }

    /// The bits of the set. They name known versions only.
    pub fn bits(&self) -> (r: u32)
        ensures
            r == self@,
            known(r),
    {
        proof {
            use_type_invariant(self);
        }
        self.bits
    }

    /// Whether no version is in the set.
    pub fn is_empty(&self) -> (r: bool)
        ensures
            r == (self@ == 0),
    {
        self.bits == 0
    }

    /// Whether every version of `other` is in the set.
    pub fn contains(&self, other: SessionVersion) -> (r: bool)
        ensures
            r == (self@ & other@ == other@),
    {
        self.bits & other.bits == other.bits
    }

    /// The versions that are in both sets.
    pub fn intersection(self, other: SessionVersion) -> (r: SessionVersion)
        ensures
            r@ == self@ & other@,
    {
        proof {
            use_type_invariant(self);
            let a = self.bits;
            let b = other.bits;
            assert(a & !1u32 == 0 ==> (a & b) & !1u32 == 0) by (bit_vector);
        }
        SessionVersion { bits: self.bits & other.bits }
    }

    /// The versions that are in either set.
    pub fn union(self, other: SessionVersion) -> (r: SessionVersion)
        ensures
            r@ == self@ | other@,
    {
        proof {
            use_type_invariant(self);
            use_type_invariant(other);
            let a = self.bits;
            let b = other.bits;
            assert(a & !1u32 == 0 && b & !1u32 == 0 ==> (a | b) & !1u32 == 0) by (bit_vector);
        }
        SessionVersion { bits: self.bits | other.bits }
    }
}

} // verus!
