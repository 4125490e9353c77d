//! Channel layouts: sets of speaker positions, one bit each.
use vstd::prelude::*;
use vstd::arithmetic::power2::{pow2, lemma_pow2_unfold, lemma2_to64};

verus! {

/// Every channel bit that a layout can hold: the speaker positions from front left
/// (`0x1`) to top back right (`0x2_0000`), stereo left and right (`0x2000_0000`,
/// `0x4000_0000`), wide left and right, surround direct left and right, the second
/// low-frequency channel (`0x8000_0000` to `0x8_0000_0000`), and the native-order
/// marker (`0x8000_0000_0000_0000`).
pub const ALL_CHANNELS: u64 = 0x8000_000F_E003_FFFFu64;

/// A set of channels, held as their bits; it never holds a bit outside `ALL_CHANNELS`.
#[derive(Clone, Copy, Debug, PartialEq, Eq, Structural)]
pub struct ChannelLayout {
    bits: u64,
}

impl View for ChannelLayout {
    type V = u64;

    closed spec fn view(&self) -> u64 {
        self.bits
    }
}

impl ChannelLayout {
    #[verifier::type_invariant]
    closed spec fn known_bits_only(self) -> bool {
        self.bits & ALL_CHANNELS == self.bits
    }

    /// The layout with no channel.
    pub fn empty() -> (r: ChannelLayout)
        ensures
            r@ == 0,
    {
        assert(0u64 & ALL_CHANNELS == 0u64) by (bit_vector);
        ChannelLayout { bits: 0 }
    }

    /// The layout with every known channel.
    pub fn all() -> (r: ChannelLayout)
        ensures
            r@ == ALL_CHANNELS,
    {
        assert(ALL_CHANNELS & ALL_CHANNELS == ALL_CHANNELS) by (bit_vector);
        ChannelLayout { bits: ALL_CHANNELS }
    }

    /// The bits of the layout; none lies outside `ALL_CHANNELS`.
    pub fn bits(&self) -> (r: u64)
        ensures
            r == self@,
            r & ALL_CHANNELS == r,
    {
        proof {
            use_type_invariant(self);
        }
        self.bits
    }

    /// The layout of the known channels among `bits`; unknown bits are dropped.
    pub fn from_bits_truncate(bits: u64) -> (r: ChannelLayout)
        ensures
            r@ == bits & ALL_CHANNELS,
    {
        let b = bits & ALL_CHANNELS;
        assert((bits & ALL_CHANNELS) & ALL_CHANNELS == bits & ALL_CHANNELS) by (bit_vector);
        ChannelLayout { bits: b }
    }
}

/// The number of bits set in `x`.
pub open spec fn count_ones(x: nat) -> nat
    decreases x,
{
    if x == 0 {
        0
    } else {
        x % 2 + count_ones(x / 2)
    }
}

/// A number below `2^k` has at most `k` bits set.
pub proof fn lemma_count_ones_bound(x: nat, k: nat)
    requires
        x < pow2(k),
    ensures
        count_ones(x) <= k,
    decreases k,
{
    if k == 0 {
        lemma2_to64();
        assert(x == 0);
    } else {
        lemma_pow2_unfold(k);
        if x != 0 {
            assert(x / 2 < pow2((k - 1) as nat));
            lemma_count_ones_bound(x / 2, (k - 1) as nat);
            assert(count_ones(x) == x % 2 + count_ones(x / 2));
        }
    }
}

/// A non-zero number has a bit set.
pub proof fn lemma_count_ones_positive(x: nat)
    requires
        x > 0,
    ensures
        count_ones(x) >= 1,
    decreases x,
{
    if x % 2 == 0 {
        lemma_count_ones_positive(x / 2);
    }
}

/// A 64-bit layout has at most 64 channels.
pub proof fn lemma_count_ones_u64(x: u64)
    ensures
        count_ones(x as nat) <= 64,
{
    lemma2_to64();
    lemma_count_ones_bound(x as nat, 64);
}

/// Counting bits: no bit in zero, and adding a bit above every bit of `x` adds one.
pub proof fn law_count_ones_adds_bit(x: nat, k: nat)
    requires
        x < pow2(k),
    ensures
        count_ones(0) == 0,
        count_ones(x + pow2(k)) == count_ones(x) + 1,
    decreases k,
{
    if k == 0 {
        lemma2_to64();
        assert(x == 0);
        assert(count_ones(1) == 1 + count_ones(0));
    } else {
        lemma_pow2_unfold(k);
        let h = pow2((k - 1) as nat);
        assert((x + pow2(k)) / 2 == x / 2 + h);
        assert((x + pow2(k)) % 2 == x % 2);
        assert(x / 2 < h);
        law_count_ones_adds_bit(x / 2, (k - 1) as nat);
        if x == 0 {
            assert(count_ones(x / 2 + h) == count_ones(0) + 1);
        }
    }
}

/// The number of channels in a raw layout: its number of set bits.
pub fn nb_channels(bits: u64) -> (r: u32)
    ensures
        r == count_ones(bits as nat),
        r <= 64,
{
    proof {
        lemma2_to64();
        lemma_count_ones_bound(bits as nat, 64);
    }
    let mut b: u64 = bits;
    let mut n: u32 = 0;
    while b != 0
        invariant
            n + count_ones(b as nat) == count_ones(bits as nat),
            count_ones(bits as nat) <= 64,
        decreases b,
    {
        n = n + (b % 2) as u32;
        b = b / 2;
    }
    n
}

} // verus!
