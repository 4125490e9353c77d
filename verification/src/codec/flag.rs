//! Codec flags: a set of option bits of a C `int`.
use vstd::prelude::*;

verus! {

/// Decode luma only, as gray.
pub const GRAY: i32 = 0x2000i32;

/// Every flag bit that a set can hold.
pub const ALL_FLAGS: i32 = GRAY;

/// A set of codec flags, held as their bits; it never holds a bit outside `ALL_FLAGS`.
#[derive(Clone, Copy, Debug, PartialEq, Eq, Structural)]
pub struct Flags {
    bits: i32,
}

impl View for Flags {
    type V = i32;

    closed spec fn view(&self) -> i32 {
        self.bits
    }
}

impl Flags {
    #[verifier::type_invariant]
    closed spec fn known_bits_only(self) -> bool {
        self.bits & ALL_FLAGS == self.bits
    }

    /// The set with no flag.
    pub fn empty() -> (r: Flags)
        ensures
            r@ == 0,
    {
        assert(0i32 & ALL_FLAGS == 0i32) by (bit_vector);
        Flags { bits: 0 }
    }

    /// The set of every flag.
    pub fn all() -> (r: Flags)
        ensures
            r@ == ALL_FLAGS,
    {
        assert(ALL_FLAGS & ALL_FLAGS == ALL_FLAGS) by (bit_vector);
        Flags { bits: ALL_FLAGS }
    }

    /// The bits of the set; none lies outside `ALL_FLAGS`.
    pub fn bits(&self) -> (r: i32)
        ensures
            r == self@,
            r & ALL_FLAGS == r,
    {
        proof {
            use_type_invariant(self);
        }
        self.bits
    }

    /// The set of the given bits, if every one of them is a flag.
    pub fn from_bits(bits: i32) -> (r: Option<Flags>)
        ensures
            r is Some <==> bits & !ALL_FLAGS == 0,
            r matches Some(f) ==> f@ == bits,
    {
        if bits & !ALL_FLAGS != 0 {
            None
        } else {
            assert(bits & !ALL_FLAGS == 0 ==> bits & ALL_FLAGS == bits) by (bit_vector);
            Some(Flags { bits })
        }
    }

    /// The set of the flags among the given bits; other bits are dropped.
    pub fn from_bits_truncate(bits: i32) -> (r: Flags)
        ensures
            r@ == bits & ALL_FLAGS,
    {
        assert((bits & ALL_FLAGS) & ALL_FLAGS == bits & ALL_FLAGS) by (bit_vector);
        Flags { bits: bits & ALL_FLAGS }
    }

    /// Whether the set holds no flag.
    pub fn is_empty(&self) -> (r: bool)
        ensures
            r == (self@ == 0),
    {
        self.bits == 0
    }

    /// Whether the set holds every flag.
    pub fn is_all(&self) -> (r: bool)
        ensures
            r == (self@ == ALL_FLAGS),
    {
        self.bits == ALL_FLAGS
    }

    /// Whether the two sets share a flag.
    pub fn intersects(&self, other: Flags) -> (r: bool)
        ensures
            r == (self@ & other@ != 0),
    {
        self.bits & other.bits != 0
    }

    /// Whether the set holds every flag of `other`.
    pub fn contains(&self, other: Flags) -> (r: bool)
        ensures
            r == (self@ & other@ == other@),
    {
        self.bits & other.bits == other.bits
    }

    /// Adds the flags of `other`.
    pub fn insert(&mut self, other: Flags)
        ensures
            final(self)@ == old(self)@ | other@,
    {
        proof {
            use_type_invariant(&*self);
            use_type_invariant(&other);
        }
        let a = self.bits;
        let b = other.bits;
        assert((a | b) & ALL_FLAGS == a | b) by (bit_vector)
            requires
                a & ALL_FLAGS == a,
                b & ALL_FLAGS == b,
        ;
        self.bits = a | b;
    }

    /// Removes the flags of `other`.
    pub fn remove(&mut self, other: Flags)
        ensures
            final(self)@ == old(self)@ & !other@,
    {
        proof {
            use_type_invariant(&*self);
        }
        let a = self.bits;
        let b = other.bits;
        assert((a & !b) & ALL_FLAGS == a & !b) by (bit_vector)
            requires
                a & ALL_FLAGS == a,
        ;
        self.bits = a & !b;
    }

    /// Flips the flags of `other`.
    pub fn toggle(&mut self, other: Flags)
        ensures
            final(self)@ == old(self)@ ^ other@,
    {
        proof {
            use_type_invariant(&*self);
            use_type_invariant(&other);
        }
        let a = self.bits;
        let b = other.bits;
        assert((a ^ b) & ALL_FLAGS == a ^ b) by (bit_vector)
            requires
                a & ALL_FLAGS == a,
                b & ALL_FLAGS == b,
        ;
        self.bits = a ^ b;
    }
}

/// After `insert(b)`, a set contains `b`.
pub proof fn law_insert_contains(a: i32, b: i32)
    ensures
        (a | b) & b == b,
{
    assert((a | b) & b == b) by (bit_vector);
}

/// After `remove(b)`, a set shares no flag with `b`.
pub proof fn law_remove_disjoint(a: i32, b: i32)
    ensures
        (a & !b) & b == 0,
{
    assert((a & !b) & b == 0) by (bit_vector);
}

/// Toggling the same flags twice gives the set back.
pub proof fn law_toggle_twice(a: i32, b: i32)
    ensures
        (a ^ b) ^ b == a,
{
    assert((a ^ b) ^ b == a) by (bit_vector);
}

/// `from_bits` succeeds exactly on the bits that `from_bits_truncate` keeps whole.
pub proof fn law_from_bits_truncate(bits: i32)
    ensures
        (bits & !ALL_FLAGS == 0) <==> (bits & ALL_FLAGS == bits),
{
    assert((bits & !ALL_FLAGS == 0) <==> (bits & ALL_FLAGS == bits)) by (bit_vector);
}

} // verus!
