use vstd::prelude::*;
use rand::seq::SliceRandom;
use crate::card::{Card, DECK_SIZE};

verus! {

/// The 50 card identities in increasing order.
pub open spec fn full_deck_seq() -> Seq<Card> {
    Seq::new(50, |i: int| Card(i as u8))
}

/// Relies on rand's `SliceRandom::shuffle`, which only swaps elements, so that
/// the result is a permutation of its input.
#[verifier::external_body]
fn shuffle_cards(cards: &mut Vec<Card>)
    ensures
        final(cards)@.to_multiset() == old(cards)@.to_multiset(),
{
    cards.shuffle(&mut rand::rng());
}

/// The draw pile. Cards are drawn from the end.
pub struct Deck {
    pub cards: Vec<Card>,
}

impl Deck {
    /// A permutation of the 50 card identities.
    pub open spec fn is_permutation_of_full(self) -> bool {
        self.cards@.to_multiset() == full_deck_seq().to_multiset()
    }

    /// Every card of the pile is a card identity and no identity repeats.
    pub open spec fn wf(self) -> bool {
        &&& forall|i: int| 0 <= i < self.cards@.len() ==> (#[trigger] self.cards@[i]).wf()
        &&& self.cards@.no_duplicates()
    }

    /// The full deck in identity order.
    pub fn new_full_deck() -> (r: Deck)
        ensures
            r.cards@ == full_deck_seq(),
    {
        let mut cards: Vec<Card> = Vec::new();
        let mut i: u8 = 0;
        while i < DECK_SIZE
            invariant
                i <= 50,
                cards@ == Seq::new(i as nat, |j: int| Card(j as u8)),
            decreases 50 - i,
        {
            cards.push(Card::new(i));
            i = i + 1;
            assert(cards@ =~= Seq::new(i as nat, |j: int| Card(j as u8)));
        }
        assert(cards@ =~= full_deck_seq());
        Deck { cards }
    }

    /// Puts the cards in a random order.
    pub fn shuffle(&mut self)
        ensures
            final(self).cards@.to_multiset() == old(self).cards@.to_multiset(),
    {
        shuffle_cards(&mut self.cards);
    }

    /// Takes the card from the end of the pile, if any is left.
    pub fn draw(&mut self) -> (r: Option<Card>)
        ensures
            old(self).cards@.len() == 0 ==> r is None && final(self).cards@ == old(self).cards@,
            old(self).cards@.len() > 0 ==> r == Some(old(self).cards@.last())
                && final(self).cards@ == old(self).cards@.drop_last(),
    {
        self.cards.pop()
    }

    pub fn is_empty(&self) -> (r: bool)
        ensures
            r == (self.cards@.len() == 0),
    {
        self.cards.len() == 0
    }

    pub fn len(&self) -> (r: usize)
        ensures
            r == self.cards@.len(),
    {
        self.cards.len()
    }
}

} // verus!

verus! {

/// The identities below `n` in increasing order.
spec fn deck_prefix(n: int) -> Seq<Card> {
    Seq::new(n as nat, |j: int| Card(j as u8))
}

proof fn lemma_prefix_counts(n: int)
    requires
        0 <= n <= 50,
    ensures
        forall|c: Card| #[trigger]
            deck_prefix(n).to_multiset().count(c) == if c.0 < n {
                1nat
            } else {
                0nat
            },
    decreases n,
{
    broadcast use vstd::seq_lib::group_to_multiset_ensures;
    broadcast use vstd::multiset::group_multiset_axioms;

    if n == 0 {
        assert(deck_prefix(0) =~= Seq::<Card>::empty());
    } else {
        lemma_prefix_counts(n - 1);
        assert(deck_prefix(n) =~= deck_prefix(n - 1).push(Card((n - 1) as u8)));
    }
}

/// A deck that is a permutation of the full deck, as it is after construction
/// and after any shuffle, holds 50 cards: each of the 50 identities exactly once
/// and nothing else. So 50 draws empty it and the next one yields no card.
pub proof fn lemma_deck_invariant(d: Deck)
    requires
        d.is_permutation_of_full(),
    ensures
        d.cards@.len() == 50,
        forall|c: Card| c.wf() ==> #[trigger] d.cards@.to_multiset().count(c) == 1,
        d.wf(),
{
    broadcast use vstd::seq_lib::group_to_multiset_ensures;

    lemma_prefix_counts(50);
    assert(full_deck_seq() =~= deck_prefix(50));
    assert(full_deck_seq().len() == 50);
    assert(d.cards@.to_multiset().len() == full_deck_seq().to_multiset().len());
    assert forall|i: int| 0 <= i < d.cards@.len() implies (#[trigger] d.cards@[i]).wf() by {
        let c = d.cards@[i];
        assert(d.cards@.contains(c));
        assert(d.cards@.to_multiset().count(c) > 0);
        assert(deck_prefix(50).to_multiset().count(c) > 0);
    }
    d.cards@.lemma_multiset_has_no_duplicates_conv();
}

} // verus!

verus! {

/// The pile left after `k` draws from the end of `s`.
pub open spec fn after_draws(s: Seq<Card>, k: int) -> Seq<Card> {
    s.subrange(0, s.len() - k)
}

/// Drawing from a permutation of the full deck: each of the first 50 draws finds
/// a card, the next card of the pile from its end, and leaves the rest; after 50
/// draws the pile is empty, so the next draw yields nothing, and the 50 cards
/// drawn, in draw order, are the 50 identities each once.
pub proof fn lemma_fifty_draws(d: Deck)
    requires
        d.is_permutation_of_full(),
    ensures
        forall|k: int|
            0 <= k < 50 ==> #[trigger] after_draws(d.cards@, k).len() > 0 && after_draws(
                d.cards@,
                k,
            ).last() == d.cards@[49 - k] && after_draws(d.cards@, k).drop_last() == after_draws(
                d.cards@,
                k + 1,
            ),
        after_draws(d.cards@, 50).len() == 0,
        d.cards@.reverse().to_multiset() == full_deck_seq().to_multiset(),
{
    lemma_deck_invariant(d);
    assert forall|k: int| 0 <= k < 50 implies #[trigger] after_draws(d.cards@, k).len() > 0
        && after_draws(d.cards@, k).last() == d.cards@[49 - k] && after_draws(d.cards@, k).drop_last()
        == after_draws(d.cards@, k + 1) by {
        assert(after_draws(d.cards@, k).drop_last() =~= after_draws(d.cards@, k + 1));
    }
    d.cards@.lemma_reverse_to_multiset();
}

} // verus!
