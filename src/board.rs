use vstd::prelude::*;
use crate::card::{Card, suit_of, value_of};
use crate::decksubset::DeckSubset;
use crate::hint::hand_wf;

verus! {

/// The card identities that could be played now: one more than their suit's firework.
pub open spec fn playable_set(fw: Seq<u8>) -> Set<int> {
    Set::new(|i: int| 0 <= i < 50 && value_of(i) == fw[suit_of(i)] + 1)
}

/// The card identities that are already played: at most their suit's firework.
pub open spec fn discardable_set(fw: Seq<u8>) -> Set<int> {
    Set::new(|i: int| 0 <= i < 50 && value_of(i) <= fw[suit_of(i)])
}

/// Fireworks of five suits, each at most 5.
pub open spec fn fireworks_wf(fw: Seq<u8>) -> bool {
    fw.len() == 5 && forall|s: int| 0 <= s < 5 ==> #[trigger] fw[s] <= 5
}

/// Whether the card would extend its suit's firework.
pub fn is_playable(card: &Card, fireworks: &[u8; 5]) -> (r: bool)
    requires
        card.wf(),
        fireworks_wf(fireworks@),
    ensures
        r == (card.value() == fireworks@[card.suit()] + 1),
        r == playable_set(fireworks@).contains(card.0 as int),
{
    fireworks[card.color_index()] + 1 == card.get_value()
}

/// Whether the card's suit has already reached its value.
pub fn is_dead(card: &Card, fireworks: &[u8; 5]) -> (r: bool)
    requires
        card.wf(),
        fireworks_wf(fireworks@),
    ensures
        r == (card.value() <= fireworks@[card.suit()]),
        r == discardable_set(fireworks@).contains(card.0 as int),
{
    card.get_value() <= fireworks[card.color_index()]
}

} // verus!

verus! {

/// A non-empty set of identities that all satisfy `pred`.
pub open spec fn all_nonempty(poss: Set<int>, pred: Set<int>) -> bool {
    poss != Set::<int>::empty() && poss.subset_of(pred)
}

/// Whether every identity of a non-empty set is playable on the fireworks.
pub fn all_playable(poss: &DeckSubset, fireworks: &[u8; 5]) -> (r: bool)
    requires
        fireworks_wf(fireworks@),
    ensures
        r == all_nonempty(poss@, playable_set(fireworks@)),
{
    let mut any = false;
    let mut i: u8 = 0;
    while i < 50
        invariant
            i <= 50,
            fireworks_wf(fireworks@),
            any == exists|j: int| 0 <= j < i && poss@.contains(j),
            forall|j: int| 0 <= j < i && poss@.contains(j) ==> playable_set(fireworks@).contains(j),
        decreases 50 - i,
    {
        let c = Card::new(i);
        if poss.has_card(c) {
            any = true;
            if !is_playable(&c, fireworks) {
                return false;
            }
        }
        i = i + 1;
    }
    proof {
        if any {
            assert(poss@ != Set::<int>::empty());
        } else {
            assert(poss@ =~= Set::<int>::empty());
        }
    }
    any
}

/// Whether every identity of a non-empty set is already played.
pub fn all_dead(poss: &DeckSubset, fireworks: &[u8; 5]) -> (r: bool)
    requires
        fireworks_wf(fireworks@),
    ensures
        r == all_nonempty(poss@, discardable_set(fireworks@)),
{
    let mut any = false;
    let mut i: u8 = 0;
    while i < 50
        invariant
            i <= 50,
            fireworks_wf(fireworks@),
            any == exists|j: int| 0 <= j < i && poss@.contains(j),
            forall|j: int| 0 <= j < i && poss@.contains(j) ==> discardable_set(fireworks@).contains(j),
        decreases 50 - i,
    {
        let c = Card::new(i);
        if poss.has_card(c) {
            any = true;
            if !is_dead(&c, fireworks) {
                return false;
            }
        }
        i = i + 1;
    }
    proof {
        if any {
            assert(poss@ != Set::<int>::empty());
        } else {
            assert(poss@ =~= Set::<int>::empty());
        }
    }
    any
}

/// How many cards of a sequence are of the same suit and value as `c`.
pub open spec fn count_kind(s: Seq<Card>, c: Card) -> nat
    decreases s.len(),
{
    if s.len() == 0 {
        0
    } else {
        count_kind(s.drop_last(), c) + if s.last().suit() == c.suit() && s.last().value()
            == c.value() {
            1nat
        } else {
            0nat
        }
    }
}

/// How many cards of `cards` are of the same suit and value as `card`.
pub fn count_same_kind(cards: &Vec<Card>, card: &Card) -> (r: usize)
    requires
        hand_wf(cards@),
        card.wf(),
    ensures
        r == count_kind(cards@, *card),
{
    let mut n: usize = 0;
    let mut i: usize = 0;
    while i < cards.len()
        invariant
            i <= cards@.len(),
            hand_wf(cards@),
            card.wf(),
            n == count_kind(cards@.subrange(0, i as int), *card),
            n <= i,
        decreases cards@.len() - i,
    {
        proof {
            assert(cards@.subrange(0, i + 1).drop_last() =~= cards@.subrange(0, i as int));
        }
        if cards[i].color_index() == card.color_index() && cards[i].get_value() == card.get_value() {
            n = n + 1;
        }
        i = i + 1;
    }
    assert(cards@.subrange(0, cards@.len() as int) =~= cards@);
    n
}

} // verus!

verus! {

/// How many cards of a sequence have suit position `suit` and value `v`.
pub open spec fn count_sv(s: Seq<Card>, suit: int, v: int) -> nat
    decreases s.len(),
{
    if s.len() == 0 {
        0
    } else {
        count_sv(s.drop_last(), suit, v) + if s.last().suit() == suit && s.last().value() == v {
            1nat
        } else {
            0nat
        }
    }
}

/// How many cards of `cards` have suit position `suit` and value `v`.
pub fn count_suit_value(cards: &Vec<Card>, suit: usize, v: u8) -> (r: usize)
    requires
        hand_wf(cards@),
    ensures
        r == count_sv(cards@, suit as int, v as int),
{
    let mut n: usize = 0;
    let mut i: usize = 0;
    while i < cards.len()
        invariant
            i <= cards@.len(),
            hand_wf(cards@),
            n == count_sv(cards@.subrange(0, i as int), suit as int, v as int),
            n <= i,
        decreases cards@.len() - i,
    {
        proof {
            assert(cards@.subrange(0, i + 1).drop_last() =~= cards@.subrange(0, i as int));
        }
        if cards[i].color_index() == suit && cards[i].get_value() == v {
            n = n + 1;
        }
        i = i + 1;
    }
    assert(cards@.subrange(0, cards@.len() as int) =~= cards@);
    n
}

/// The fireworks after a play of `card`: one higher in its suit if it succeeded.
pub open spec fn fireworks_after(fw: Seq<u8>, card: Card, success: bool) -> Seq<u8> {
    if success && fw[card.suit()] < 5 {
        fw.update(card.suit(), (fw[card.suit()] + 1) as u8)
    } else {
        fw
    }
}

/// The mistake count after a play: one more if it failed.
pub open spec fn mistakes_after(m: u8, success: bool) -> u8 {
    if !success && m < 255 {
        (m + 1) as u8
    } else {
        m
    }
}

/// The hint tokens after a discard: one more, up to eight.
pub open spec fn hints_after_discard(h: u8) -> u8 {
    if h < 8 {
        (h + 1) as u8
    } else {
        h
    }
}

/// The hint tokens after a hint: one fewer.
pub open spec fn hints_after_hint(h: u8) -> u8 {
    if h > 0 {
        (h - 1) as u8
    } else {
        h
    }
}

/// The partner's hand after slot `idx` left it and `drawn` came in. An index
/// outside the hand removes nothing.
pub open spec fn tracked_hand_after(h: Seq<Card>, idx: usize, drawn: Option<Card>) -> Seq<Card> {
    let rest = if idx < h.len() {
        h.remove(idx as int)
    } else {
        h
    };
    match drawn {
        Some(c) => rest.push(c),
        None => rest,
    }
}

/// Removes slot `idx` of a tracked hand, if it exists, and appends the drawn card.
pub fn replace_slot(hand: &mut Vec<Card>, idx: usize, drawn: Option<Card>)
    requires
        hand_wf(old(hand)@),
        drawn matches Some(c) ==> c.wf(),
    ensures
        final(hand)@ == tracked_hand_after(old(hand)@, idx, drawn),
        hand_wf(final(hand)@),
{
    if idx < hand.len() {
        hand.remove(idx);
    }
    match drawn {
        Some(c) => hand.push(c),
        None => {},
    }
    proof {
        let h = tracked_hand_after(old(hand)@, idx, drawn);
        assert forall|j: int| 0 <= j < h.len() implies (#[trigger] h[j]).wf() by {
            if drawn is None || j < h.len() - 1 {
                if idx < old(hand)@.len() {
                    if j >= idx {
                        assert(old(hand)@.remove(idx as int)[j] == old(hand)@[j + 1]);
                    }
                }
            }
        }
    }
}

/// The identities not among the first `n` cards of `hand`.
pub open spec fn unseen_except(hand: Seq<Card>, n: int) -> Set<int> {
    Set::new(|id: int| 0 <= id < 50 && !(exists|j: int| 0 <= j < n && hand[j].0 == id))
}

/// Seeing the card at position `n` of a hand removes it from the unseen identities.
pub proof fn lemma_unseen_step(hand: Seq<Card>, n: int)
    requires
        0 <= n < hand.len(),
    ensures
        unseen_except(hand, n + 1) == unseen_except(hand, n).remove(hand[n].0 as int),
{
    assert forall|id: int| #[trigger] unseen_except(hand, n + 1).contains(id) == unseen_except(
        hand,
        n,
    ).remove(hand[n].0 as int).contains(id) by {
        if exists|j: int| 0 <= j < n + 1 && hand[j].0 == id {
            let j = choose|j: int| 0 <= j < n + 1 && hand[j].0 == id;
            if j < n {
                assert(exists|j: int| 0 <= j < n && hand[j].0 == id);
            }
        }
    }
    assert(unseen_except(hand, n + 1) =~= unseen_except(hand, n).remove(hand[n].0 as int));
}

} // verus!
