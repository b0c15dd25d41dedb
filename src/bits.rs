use vstd::prelude::*;

verus! {

/// Whether bit `i` of `x` is set.
pub open spec fn bit(x: u64, i: u64) -> bool {
    (x >> i) & 1u64 == 1u64
}

/// The bound below which a word uses bits 0 to 49 only.
pub const UNIVERSE_BOUND: u64 = 0x4_0000_0000_0000;

/// The word with bits 0 to 49 set.
pub const UNIVERSE_MASK: u64 = 0x3_ffff_ffff_ffff;

pub proof fn lemma_bit_and(a: u64, b: u64, i: u64)
    requires
        i < 64,
    ensures
        bit(a & b, i) == (bit(a, i) && bit(b, i)),
{
    assert(((a & b) >> i) & 1u64 == 1u64 <==> ((a >> i) & 1u64 == 1u64 && (b >> i) & 1u64
        == 1u64)) by (bit_vector)
        requires
            i < 64,
    ;
}

pub proof fn lemma_bit_or(a: u64, b: u64, i: u64)
    requires
        i < 64,
    ensures
        bit(a | b, i) == (bit(a, i) || bit(b, i)),
{
    assert(((a | b) >> i) & 1u64 == 1u64 <==> ((a >> i) & 1u64 == 1u64 || (b >> i) & 1u64
        == 1u64)) by (bit_vector)
        requires
            i < 64,
    ;
}

pub proof fn lemma_bit_not(a: u64, i: u64)
    requires
        i < 64,
    ensures
        bit(!a, i) == !bit(a, i),
{
    assert(((!a) >> i) & 1u64 == 1u64 <==> !((a >> i) & 1u64 == 1u64)) by (bit_vector)
        requires
            i < 64,
    ;
}

pub proof fn lemma_bit_single(k: u64, i: u64)
    requires
        k < 64,
        i < 64,
    ensures
        bit(1u64 << k, i) == (i == k),
{
    assert(((1u64 << k) >> i) & 1u64 == 1u64 <==> i == k) by (bit_vector)
        requires
            k < 64,
            i < 64,
    ;
}

pub proof fn lemma_bit_zero(i: u64)
    ensures
        !bit(0u64, i),
{
    assert(!((0u64 >> i) & 1u64 == 1u64)) by (bit_vector);
}

/// Bits of a run of ten ones shifted left by `s`.
pub proof fn lemma_bit_run(s: u64, i: u64)
    requires
        s <= 40,
        i < 64,
    ensures
        bit(1023u64 << s, i) == (s <= i && i < s + 10),
        (1023u64 << s) < UNIVERSE_BOUND,
{
    assert(((1023u64 << s) >> i) & 1u64 == 1u64 <==> (s <= i && i < s + 10)) by (bit_vector)
        requires
            s <= 40,
            i < 64,
    ;
    assert((1023u64 << s) < 0x4_0000_0000_0000u64) by (bit_vector)
        requires
            s <= 40,
    ;
}

/// A word below the universe bound has no bit at 50 or above.
pub proof fn lemma_bit_high(a: u64, i: u64)
    requires
        a < UNIVERSE_BOUND,
        50 <= i < 64,
    ensures
        !bit(a, i),
{
    assert(a < 0x4_0000_0000_0000u64 && 50 <= i && i < 64 ==> !((a >> i) & 1u64 == 1u64))
        by (bit_vector);
}

/// The word operations keep a word below the universe bound.
pub proof fn lemma_bound_ops(a: u64, b: u64, k: u64)
    requires
        k < 50,
    ensures
        a < UNIVERSE_BOUND ==> (a & b) < UNIVERSE_BOUND,
        a < UNIVERSE_BOUND && b < UNIVERSE_BOUND ==> (a | b) < UNIVERSE_BOUND,
        (a & UNIVERSE_MASK) < UNIVERSE_BOUND,
        (1u64 << k) < UNIVERSE_BOUND,
{
    assert(a < 0x4_0000_0000_0000u64 ==> (a & b) < 0x4_0000_0000_0000u64) by (bit_vector);
    assert(a < 0x4_0000_0000_0000u64 && b < 0x4_0000_0000_0000u64 ==> (a | b) < 0x4_0000_0000_0000u64)
        by (bit_vector);
    assert((a & 0x3_ffff_ffff_ffffu64) < 0x4_0000_0000_0000u64) by (bit_vector);
    assert((1u64 << k) < 0x4_0000_0000_0000u64) by (bit_vector)
        requires
            k < 50,
    ;
}

/// The bits of the universe mask are exactly bits 0 to 49.
pub proof fn lemma_bit_universe(i: u64)
    requires
        i < 64,
    ensures
        bit(UNIVERSE_MASK, i) == (i < 50),
{
    assert((0x3_ffff_ffff_ffffu64 >> i) & 1u64 == 1u64 <==> i < 50) by (bit_vector)
        requires
            i < 64,
    ;
}

proof fn lemma_shift_step(a: u64, k: u64)
    requires
        k < 63,
    ensures
        a >> k == ((a >> (k + 1u64) as u64) << 1u64) | ((a >> k) & 1u64),
        (a >> k) & 1u64 == 0u64 || (a >> k) & 1u64 == 1u64,
{
    assert(a >> k == ((a >> (k + 1u64) as u64) << 1u64) | ((a >> k) & 1u64)) by (bit_vector)
        requires
            k < 63,
    ;
    assert((a >> k) & 1u64 == 0u64 || (a >> k) & 1u64 == 1u64) by (bit_vector);
}

proof fn lemma_shift_top(a: u64)
    ensures
        a >> 63u64 == (a >> 63u64) & 1u64,
        (a >> 63u64) & 1u64 == 0u64 || (a >> 63u64) & 1u64 == 1u64,
        a >> 0u64 == a,
{
    assert(a >> 63u64 == (a >> 63u64) & 1u64) by (bit_vector);
    assert((a >> 63u64) & 1u64 == 0u64 || (a >> 63u64) & 1u64 == 1u64) by (bit_vector);
    assert(a >> 0u64 == a) by (bit_vector);
}

proof fn lemma_bits_ext_from(a: u64, b: u64, k: u64)
    requires
        k < 64,
        forall|i: u64| k <= i < 64 ==> #[trigger] bit(a, i) == bit(b, i),
    ensures
        a >> k == b >> k,
    decreases 64 - k,
{
    assert(bit(a, k) == bit(b, k));
    if k == 63 {
        lemma_shift_top(a);
        lemma_shift_top(b);
    } else {
        lemma_bits_ext_from(a, b, (k + 1) as u64);
        lemma_shift_step(a, k);
        lemma_shift_step(b, k);
    }
}

/// Two words with the same bits are equal.
pub proof fn lemma_bits_ext(a: u64, b: u64)
    requires
        forall|i: u64| i < 64 ==> #[trigger] bit(a, i) == bit(b, i),
    ensures
        a == b,
{
    lemma_bits_ext_from(a, b, 0);
    lemma_shift_top(a);
    lemma_shift_top(b);
}

/// Bits of a run of `w` ones shifted left by `t`.
pub proof fn lemma_bit_window(w: u64, t: u64, i: u64)
    requires
        1 <= w <= 3,
        t + w <= 50,
        i < 64,
    ensures
        bit((((1u64 << w) - 1u64) as u64) << t, i) == (t <= i && i < t + w),
        ((((1u64 << w) - 1u64) as u64) << t) < UNIVERSE_BOUND,
        (1u64 << w) >= 1,
{
    assert((1u64 << w) >= 1u64) by (bit_vector)
        requires
            w <= 3,
    ;
    assert((((((1u64 << w) - 1u64) as u64) << t) >> i) & 1u64 == 1u64 <==> (t <= i && i < (t + w) as u64))
        by (bit_vector)
        requires
            1 <= w <= 3,
            t + w <= 50,
            i < 64,
    ;
    assert(((((1u64 << w) - 1u64) as u64) << t) < 0x4_0000_0000_0000u64) by (bit_vector)
        requires
            1 <= w <= 3,
            t + w <= 50,
    ;
}

} // verus!
