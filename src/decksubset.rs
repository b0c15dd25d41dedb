use vstd::prelude::*;
use crate::bits::{
    bit, lemma_bit_and, lemma_bit_or, lemma_bit_not, lemma_bit_single, lemma_bit_run,
    lemma_bit_high, lemma_bound_ops, lemma_bit_universe, lemma_bits_ext, lemma_bit_zero, lemma_bit_window, UNIVERSE_BOUND,
    UNIVERSE_MASK,
};
use crate::card::{Card, DECK_SIZE, value_of, suit_of};
use crate::enums::{Color, color_index_spec};

verus! {

/// All 50 card identities.
pub open spec fn universe() -> Set<int> {
    Set::new(|i: int| 0 <= i < 50)
}

/// The identities of the cards of suit position `s`.
pub open spec fn suit_set(s: int) -> Set<int> {
    Set::new(|i: int| 0 <= i < 50 && suit_of(i) == s)
}

/// The identities of the cards of value `v`.
pub open spec fn value_set(v: int) -> Set<int> {
    Set::new(|i: int| 0 <= i < 50 && value_of(i) == v)
}

/// The identities of the cards of the same suit and value as `id`.
pub open spec fn kind_set(id: int) -> Set<int> {
    Set::new(|i: int| 0 <= i < 50 && suit_of(i) == suit_of(id) && value_of(i) == value_of(id))
}

/// How many of the identities below `n` a set holds.
pub open spec fn count_below(s: Set<int>, n: int) -> nat
    decreases n,
{
    if n <= 0 {
        0
    } else {
        count_below(s, n - 1) + if s.contains(n - 1) {
            1nat
        } else {
            0nat
        }
    }
}

/// The number of card identities in a set.
pub open spec fn card_count(s: Set<int>) -> nat {
    count_below(s, 50)
}

/// A set of card identities as a 50-bit word: bit `i` set means identity `i` is a member.
#[derive(Copy, Clone, Debug, PartialEq, Eq, Structural)]
pub struct DeckSubset(pub u64);

impl View for DeckSubset {
    type V = Set<int>;

    open spec fn view(&self) -> Set<int> {
        Set::new(|i: int| 0 <= i < 50 && bit(self.0, i as u64))
    }
}

impl DeckSubset {
    /// Only bits 0 to 49 are set.
    pub open spec fn wf(self) -> bool {
        self.0 < UNIVERSE_BOUND
    }

    /// Two well-formed subsets with the same members are the same word.
    pub proof fn lemma_view_injective(a: DeckSubset, b: DeckSubset)
        requires
            a.wf(),
            b.wf(),
            a@ == b@,
        ensures
            a == b,
    {
        assert forall|i: u64| i < 64 implies #[trigger] bit(a.0, i) == bit(b.0, i) by {
            if i < 50 {
                assert(a@.contains(i as int) == bit(a.0, i));
                assert(b@.contains(i as int) == bit(b.0, i));
            } else {
                lemma_bit_high(a.0, i);
                lemma_bit_high(b.0, i);
            }
        }
        lemma_bits_ext(a.0, b.0);
    }

    pub fn new_full() -> (r: DeckSubset)
        ensures
            r.wf(),
            r@ == universe(),
            r.0 == UNIVERSE_MASK,
    {
        let r = DeckSubset(UNIVERSE_MASK);
        assert forall|i: int| #[trigger] r@.contains(i) == universe().contains(i) by {
            if 0 <= i < 50 {
                lemma_bit_universe(i as u64);
            }
        }
        assert(r@ =~= universe());
        r
    }

    pub fn new_empty() -> (r: DeckSubset)
        ensures
            r.wf(),
            r@ == Set::<int>::empty(),
            r.0 == 0,
    {
        let r = DeckSubset(0);
        assert forall|i: int| !#[trigger] r@.contains(i) by {
            if 0 <= i < 50 {
                lemma_bit_zero(i as u64);
            }
        }
        assert(r@ =~= Set::<int>::empty());
        r
    }

    /// All cards of one suit.
    pub fn from_color(color: Color) -> (r: DeckSubset)
        ensures
            r.wf(),
            r@ == suit_set(color_index_spec(color)),
    {
        let shift = 10 * color.index() as u64;
        let r = DeckSubset(1023u64 << shift);
        proof {
            lemma_bit_run(shift, 0);
            assert forall|i: int| #[trigger]
                r@.contains(i) == suit_set(color_index_spec(color)).contains(i) by {
                if 0 <= i < 50 {
                    lemma_bit_run(shift, i as u64);
                }
            }
            assert(r@ =~= suit_set(color_index_spec(color)));
        }
        r
    }

    /// All cards of the other suits.
    pub fn from_color_inverted(color: Color) -> (r: DeckSubset)
        ensures
            r.wf(),
            r@ == universe().difference(suit_set(color_index_spec(color))),
    {
        let full = Self::new_full();
        let col = Self::from_color(color);
        DeckSubset::complement_of(col)
    }

    /// All cards of one value.
    pub fn from_value(value: u8) -> (r: DeckSubset)
        requires
            1 <= value <= 5,
        ensures
            r.wf(),
            r@ == value_set(value as int),
    {
        // Within each suit the value occupies the buckets lo .. lo + width.
        let lo: u64 = if value == 1 {
            0
        } else if value == 2 {
            3
        } else if value == 3 {
            5
        } else if value == 4 {
            7
        } else {
            9
        };
        let width: u64 = if value == 1 {
            3
        } else if value == 5 {
            1
        } else {
            2
        };
        let mut r = Self::new_empty();
        let mut suit: u64 = 0;
        while suit < 5
            invariant
                suit <= 5,
                1 <= value <= 5,
                lo + width <= 10,
                1 <= width <= 3,
                forall|b: int| 0 <= b < 10 ==> (value_of(b) == value <==> lo <= b < lo + width),
                r.wf(),
                r@ == Set::new(|i: int| 0 <= i < 50 && value_of(i) == value && suit_of(i) < suit),
            decreases 5 - suit,
        {
            let shift = lo + 10 * suit;
            proof {
                lemma_bit_window(width, shift, 0);
            }
            let run = DeckSubset(((1u64 << width) - 1) << shift);
            proof {
                assert forall|i: int| #[trigger] run@.contains(i) == (0 <= i < 50 && value_of(i)
                    == value && suit_of(i) == suit) by {
                    if 0 <= i < 50 {
                        lemma_bit_window(width, shift, i as u64);
                        assert(value_of(i) == value_of(i % 10));
                    }
                }
            }
            r = r.union(&run);
            proof {
                assert(r@ =~= Set::new(
                    |i: int| 0 <= i < 50 && value_of(i) == value && suit_of(i) < suit + 1,
                ));
            }
            suit = suit + 1;
        }
        assert(r@ =~= value_set(value as int));
        r
    }

    /// All cards of the other values.
    pub fn from_value_inverted(value: u8) -> (r: DeckSubset)
        requires
            1 <= value <= 5,
        ensures
            r.wf(),
            r@ == universe().difference(value_set(value as int)),
    {
        let val = Self::from_value(value);
        DeckSubset::complement_of(val)
    }

    /// All cards of the same suit and value as `card`.
    pub fn from_card(card: Card) -> (r: DeckSubset)
        requires
            card.wf(),
        ensures
            r.wf(),
            r@ == kind_set(card.0 as int),
    {
        let r = DeckSubset::from_color(card.get_color()).intersect(
            &DeckSubset::from_value(card.get_value()),
        );
        assert(r@ =~= kind_set(card.0 as int));
        r
    }

    /// The identities of the universe that `s` lacks.
    pub fn complement_of(s: DeckSubset) -> (r: DeckSubset)
        ensures
            r.wf(),
            r@ == universe().difference(s@),
    {
        let r = DeckSubset((!s.0) & UNIVERSE_MASK);
        proof {
            lemma_bound_ops(!s.0, 0, 0);
            assert forall|i: int| #[trigger]
                r@.contains(i) == universe().difference(s@).contains(i) by {
                if 0 <= i < 50 {
                    lemma_bit_and(!s.0, UNIVERSE_MASK, i as u64);
                    lemma_bit_not(s.0, i as u64);
                    lemma_bit_universe(i as u64);
                }
            }
            assert(r@ =~= universe().difference(s@));
        }
        r
    }

    pub fn has_card(&self, card: Card) -> (r: bool)
        requires
            card.wf(),
        ensures
            r == self@.contains(card.0 as int),
    {
        (self.0 >> card.0 as u64) & 1 == 1
    }

    pub fn remove_card(&mut self, card: Card)
        requires
            card.wf(),
        ensures
            final(self)@ == old(self)@.remove(card.0 as int),
            final(self).0 == old(self).0 & !(1u64 << (card.0 as u64)),
            old(self).wf() ==> final(self).wf(),
    {
        let old_bits = self.0;
        let k = card.0 as u64;
        self.0 = self.0 & !(1u64 << k);
        proof {
            lemma_bound_ops(old_bits, !(1u64 << k), 0);
            assert forall|i: int| #[trigger]
                self@.contains(i) == old(self)@.remove(card.0 as int).contains(i) by {
                if 0 <= i < 50 {
                    lemma_bit_and(old_bits, !(1u64 << k), i as u64);
                    lemma_bit_not(1u64 << k, i as u64);
                    lemma_bit_single(k, i as u64);
                }
            }
            assert(self@ =~= old(self)@.remove(card.0 as int));
        }
    }

    pub fn add_card(&mut self, card: Card)
        requires
            card.wf(),
        ensures
            final(self)@ == old(self)@.insert(card.0 as int),
            final(self).0 == old(self).0 | (1u64 << (card.0 as u64)),
            old(self).wf() ==> final(self).wf(),
    {
        let old_bits = self.0;
        let k = card.0 as u64;
        self.0 = self.0 | (1u64 << k);
        proof {
            lemma_bound_ops(old_bits, 1u64 << k, k);
            assert forall|i: int| #[trigger]
                self@.contains(i) == old(self)@.insert(card.0 as int).contains(i) by {
                if 0 <= i < 50 {
                    lemma_bit_or(old_bits, 1u64 << k, i as u64);
                    lemma_bit_single(k, i as u64);
                }
            }
            assert(self@ =~= old(self)@.insert(card.0 as int));
        }
    }

    pub fn intersect(&self, other: &DeckSubset) -> (r: DeckSubset)
        ensures
            r@ == self@.intersect(other@),
            self.wf() ==> r.wf(),
            r.0 == self.0 & other.0,
    {
        let r = DeckSubset(self.0 & other.0);
        proof {
            lemma_bound_ops(self.0, other.0, 0);
            assert forall|i: int| #[trigger]
                r@.contains(i) == self@.intersect(other@).contains(i) by {
                if 0 <= i < 50 {
                    lemma_bit_and(self.0, other.0, i as u64);
                }
            }
            assert(r@ =~= self@.intersect(other@));
        }
        r
    }

    pub fn union(&self, other: &DeckSubset) -> (r: DeckSubset)
        ensures
            r@ == self@.union(other@),
            self.wf() && other.wf() ==> r.wf(),
    {
        let r = DeckSubset(self.0 | other.0);
        proof {
            lemma_bound_ops(self.0, other.0, 0);
            assert forall|i: int| #[trigger] r@.contains(i) == self@.union(other@).contains(i) by {
                if 0 <= i < 50 {
                    lemma_bit_or(self.0, other.0, i as u64);
                }
            }
            assert(r@ =~= self@.union(other@));
        }
        r
    }

    /// Whether every member of `self` is a member of `other`.
    pub fn is_subset(&self, other: &DeckSubset) -> (r: bool)
        requires
            self.wf(),
        ensures
            r == self@.subset_of(other@),
    {
        let both = self.intersect(other);
        proof {
            if self@.subset_of(other@) {
                assert(both@ =~= self@);
                DeckSubset::lemma_view_injective(both, *self);
            }
        }
        both.0 == self.0
    }

    /// The number of card identities in the set.
    pub fn count(&self) -> (r: u32)
        ensures
            r == card_count(self@),
            r <= 50,
    {
        let mut n: u32 = 0;
        let mut i: u8 = 0;
        while i < DECK_SIZE
            invariant
                i <= 50,
                n == count_below(self@, i as int),
                n <= i,
            decreases 50 - i,
        {
            if (self.0 >> i as u64) & 1 == 1 {
                n = n + 1;
            }
            i = i + 1;
        }
        n
    }

    /// Whether the set has no member.
    pub fn is_empty(&self) -> (r: bool)
        requires
            self.wf(),
        ensures
            r == (self@ == Set::<int>::empty()),
    {
        let e = Self::new_empty();
        proof {
            if self.0 == 0 {
                assert forall|i: int| !#[trigger] self@.contains(i) by {
                    if 0 <= i < 50 {
                        lemma_bit_zero(i as u64);
                    }
                }
                assert(self@ =~= e@);
            }
            if self@ == Set::<int>::empty() {
                DeckSubset::lemma_view_injective(e, *self);
            }
        }
        self.0 == 0
    }
}

} // verus!

verus! {

proof fn lemma_count_universe(n: int)
    requires
        0 <= n <= 50,
    ensures
        count_below(universe(), n) == n,
    decreases n,
{
    if n > 0 {
        lemma_count_universe(n - 1);
    }
}

proof fn lemma_count_single(id: int, n: int)
    requires
        0 <= n <= 50,
    ensures
        count_below(Set::<int>::empty().insert(id), n) == if 0 <= id < n {
            1nat
        } else {
            0nat
        },
    decreases n,
{
    if n > 0 {
        lemma_count_single(id, n - 1);
    }
}

/// The suit masks are pairwise disjoint and together cover the universe, and so
/// do the value masks. The universe holds 50 identities, and a mask of one
/// identity holds one.
pub proof fn lemma_mask_laws()
    ensures
        forall|s: int, t: int|
            0 <= s < 5 && 0 <= t < 5 && s != t ==> #[trigger] suit_set(s).intersect(
                #[trigger] suit_set(t),
            ) == Set::<int>::empty(),
        suit_set(0).union(suit_set(1)).union(suit_set(2)).union(suit_set(3)).union(suit_set(4))
            == universe(),
        forall|v: int, w: int|
            1 <= v <= 5 && 1 <= w <= 5 && v != w ==> #[trigger] value_set(v).intersect(
                #[trigger] value_set(w),
            ) == Set::<int>::empty(),
        value_set(1).union(value_set(2)).union(value_set(3)).union(value_set(4)).union(
            value_set(5),
        ) == universe(),
        card_count(universe()) == 50,
        forall|id: int| 0 <= id < 50 ==> card_count(#[trigger] Set::<int>::empty().insert(id)) == 1,
{
    assert forall|s: int, t: int|
        0 <= s < 5 && 0 <= t < 5 && s != t implies #[trigger] suit_set(s).intersect(
            #[trigger] suit_set(t),
        ) == Set::<int>::empty() by {
        assert(suit_set(s).intersect(suit_set(t)) =~= Set::<int>::empty());
    }
    assert(suit_set(0).union(suit_set(1)).union(suit_set(2)).union(suit_set(3)).union(
        suit_set(4),
    ) =~= universe());
    assert forall|v: int, w: int|
        1 <= v <= 5 && 1 <= w <= 5 && v != w implies #[trigger] value_set(v).intersect(
            #[trigger] value_set(w),
        ) == Set::<int>::empty() by {
        assert(value_set(v).intersect(value_set(w)) =~= Set::<int>::empty());
    }
    assert(value_set(1).union(value_set(2)).union(value_set(3)).union(value_set(4)).union(
        value_set(5),
    ) =~= universe());
    lemma_count_universe(50);
    assert forall|id: int| 0 <= id < 50 implies card_count(
        #[trigger] Set::<int>::empty().insert(id),
    ) == 1 by {
        lemma_count_single(id, 50);
    }
}

/// Decoding an identity and taking the mask of its card gives the suit mask of
/// its suit intersected with the value mask of its value: the identities of the
/// same kind. It holds the identity itself, and it is the single-identity mask
/// exactly when the card is a 5, the one card of its kind.
pub proof fn lemma_card_mask_round_trip(id: int)
    requires
        0 <= id < 50,
    ensures
        kind_set(id) == suit_set(suit_of(id)).intersect(value_set(value_of(id))),
        kind_set(id).contains(id),
        (kind_set(id) == Set::<int>::empty().insert(id)) <==> value_of(id) == 5,
{
    assert(kind_set(id) =~= suit_set(suit_of(id)).intersect(value_set(value_of(id))));
    if value_of(id) == 5 {
        assert(kind_set(id) =~= Set::<int>::empty().insert(id));
    } else {
        let b = id % 10;
        let other = if b == 0 || b == 1 || b == 3 || b == 5 || b == 7 {
            id + 1
        } else {
            id - 1
        };
        assert(kind_set(id).contains(other));
        assert(!Set::<int>::empty().insert(id).contains(other));
    }
}

} // verus!
