//! Integer pieces of the limiter: the xorshift32 generators behind its TPDF
//! dither, the ring-buffer taps of its 4x true-peak upsampler, and the
//! default-plus-overrides way its factory presets are written down.

use vstd::prelude::*;

verus! {

/// One step of Marsaglia's xorshift32 (shifts 13, 17, 5).
pub open spec fn xorshift_spec(a: u32) -> u32 {
    let b = a ^ (a << 13u32);
    let c = b ^ (b >> 17u32);
    c ^ (c << 5u32)
}

/// Advance a dither generator by one step and return its new state.
pub fn xorshift32(state: u32) -> (next: u32)
    ensures
        next == xorshift_spec(state),
{
    let mut a = state;
    a ^= a << 13u32;
    a ^= a >> 17u32;
    a ^= a << 5u32;
    a
}

/// The generator never falls into the all-zero state from a seeded one,
/// so the dither never goes silent; zero is its only fixed zero.
pub proof fn lemma_xorshift_keeps_seed_alive(a: u32)
    ensures
        a != 0 ==> xorshift_spec(a) != 0,
        xorshift_spec(0) == 0,
{
    assert(a != 0 ==> ((a ^ (a << 13u32)) ^ ((a ^ (a << 13u32)) >> 17u32)) ^ (((a ^ (a << 13u32)) ^ ((a ^ (a
        << 13u32)) >> 17u32)) << 5u32) != 0) by (bit_vector);
    assert(((0u32 ^ (0u32 << 13u32)) ^ ((0u32 ^ (0u32 << 13u32)) >> 17u32)) ^ (((0u32 ^ (0u32 << 13u32)) ^ ((0u32
        ^ (0u32 << 13u32)) >> 17u32)) << 5u32) == 0) by (bit_vector);
}

/// The slot `back` samples behind the write position of a ring of `len`.
pub open spec fn tap_spec(write: usize, back: usize, len: usize) -> int {
    (write - back) % (len as int)
}

/// Index of the sample written `back` pushes before the one at `write`.
pub fn ring_tap(write: usize, back: usize, len: usize) -> (i: usize)
    requires
        write < len,
        back < len,
        len + len <= usize::MAX,
    ensures
        i == tap_spec(write, back, len),
        i < len,
{
    let i = (write + len - back) % len;
    proof {
        let w = write as int;
        let b = back as int;
        let l = len as int;
        assert(((w + l - b) % l) == ((w - b) % l)) by {
            vstd::arithmetic::div_mod::lemma_mod_add_multiples_vanish(w - b, l);
        }
    }
    i
}

/// The write position after one push.
pub fn ring_advance(write: usize, len: usize) -> (next: usize)
    requires
        write < len,
    ensures
        next == (write + 1) % (len as int),
        next < len,
{
    (write + 1) % len
}

/// The taps of one push reach distinct history slots, the newest being the
/// one just written.
pub proof fn lemma_ring_taps_distinct(write: usize, b1: usize, b2: usize, len: usize)
    requires
        write < len,
        b1 < len,
        b2 < len,
        b1 != b2,
    ensures
        tap_spec(write, b1, len) != tap_spec(write, b2, len),
        tap_spec(write, 0, len) == write,
{
    let w = write as int;
    let l = len as int;
    vstd::arithmetic::div_mod::lemma_small_mod(write as nat, len as nat);
    if tap_spec(write, b1, len) == tap_spec(write, b2, len) {
        vstd::arithmetic::div_mod::lemma_mod_equivalence(w - b1, w - b2, l);
        vstd::arithmetic::div_mod::lemma_mod_multiples_basic(0, l);
        assert((b2 - b1) % l == 0 ==> b1 == b2) by {
            if b1 < b2 {
                vstd::arithmetic::div_mod::lemma_small_mod((b2 - b1) as nat, len as nat);
            } else if b2 < b1 {
                vstd::arithmetic::div_mod::lemma_mod_neg_neg(b2 - b1 + l, l);
                vstd::arithmetic::div_mod::lemma_small_mod((b2 - b1 + l) as nat, len as nat);
                vstd::arithmetic::div_mod::lemma_mod_add_multiples_vanish(b2 - b1, l);
            }
        }
    }
}

/// The values of a preset written as the defaults with `overrides` applied
/// in order (a later override of the same index wins).
pub open spec fn overlay<V>(defaults: Seq<V>, overrides: Seq<(usize, V)>) -> Seq<V>
    decreases overrides.len(),
{
    if overrides.len() == 0 {
        defaults
    } else {
        let (i, v) = overrides.last();
        overlay(defaults, overrides.drop_last()).update(i as int, v)
    }
}

/// A preset's value vector: every parameter at its default, then the
/// overrides applied in order.
pub fn from_overrides<V: Copy>(defaults: &[V], overrides: &[(usize, V)]) -> (values: Vec<V>)
    requires
        forall|k: int| 0 <= k < overrides.len() ==> (#[trigger] overrides@[k]).0 < defaults.len(),
    ensures
        values@ == overlay(defaults@, overrides@),
{
    let mut values: Vec<V> = Vec::new();
    let mut i: usize = 0;
    while i < defaults.len()
        invariant
            i <= defaults.len(),
            values@ == defaults@.subrange(0, i as int),
        decreases defaults.len() - i,
    {
        values.push(defaults[i]);
        i += 1;
        assert(values@ =~= defaults@.subrange(0, i as int));
    }
    assert(defaults@.subrange(0, defaults.len() as int) =~= defaults@);
    let mut k: usize = 0;
    while k < overrides.len()
        invariant
            k <= overrides.len(),
            values@ == overlay(defaults@, overrides@.take(k as int)),
            values@.len() == defaults.len(),
            forall|q: int| 0 <= q < overrides.len() ==> (#[trigger] overrides@[q]).0 < defaults.len(),
        decreases overrides.len() - k,
    {
        let (idx, v) = overrides[k];
        values.set(idx, v);
        proof {
            assert(overrides@.take(k + 1).drop_last() =~= overrides@.take(k as int));
            assert(overrides@.take(k + 1).last() == overrides@[k as int]);
        }
        k += 1;
    }
    assert(overrides@.take(overrides.len() as int) =~= overrides@);
    values
}

/// Overrides keep the length of the defaults, leave every index they do
/// not name at its default, and the last override of an index wins.
pub proof fn lemma_overlay_values<V>(defaults: Seq<V>, overrides: Seq<(usize, V)>, i: int)
    requires
        forall|k: int| 0 <= k < overrides.len() ==> (#[trigger] overrides[k]).0 < defaults.len(),
        0 <= i < defaults.len(),
    ensures
        overlay(defaults, overrides).len() == defaults.len(),
        (forall|k: int| 0 <= k < overrides.len() ==> (#[trigger] overrides[k]).0 != i) ==> overlay(defaults, overrides)[i]
            == defaults[i],
        overrides.len() > 0 && overrides.last().0 == i ==> overlay(defaults, overrides)[i] == overrides.last().1,
    decreases overrides.len(),
{
    if overrides.len() > 0 {
        let rest = overrides.drop_last();
        assert forall|k: int| 0 <= k < rest.len() implies (#[trigger] rest[k]).0 < defaults.len() by {
            assert(rest[k] == overrides[k]);
        }
        lemma_overlay_values(defaults, rest, i);
        if forall|k: int| 0 <= k < overrides.len() ==> (#[trigger] overrides[k]).0 != i {
            assert forall|k: int| 0 <= k < rest.len() implies (#[trigger] rest[k]).0 != i by {
                assert(rest[k] == overrides[k]);
            }
            assert(overrides[overrides.len() - 1].0 != i);
        }
    }
}

} // verus!
