use vstd::prelude::*;
use crate::card::Card;
use crate::decksubset::DeckSubset;
use crate::enums::{Move, color_index_spec};
use crate::knowledge::{hint_set, is_hint};

verus! {

/// Whether a hint names a card: a color hint names the cards of its suit, a
/// value hint the cards of its value.
pub open spec fn hint_names(mv: Move, c: Card) -> bool {
    match mv {
        Move::HintColor(col) => c.suit() == color_index_spec(col),
        Move::HintValue(v) => c.value() == v,
        _ => false,
    }
}

/// The slots below `n` of a hand whose card a hint names, in increasing order.
pub open spec fn matching_indices(hand: Seq<Card>, mv: Move, n: int) -> Seq<usize>
    decreases n,
{
    if n <= 0 {
        Seq::empty()
    } else if hint_names(mv, hand[n - 1]) {
        matching_indices(hand, mv, n - 1).push((n - 1) as usize)
    } else {
        matching_indices(hand, mv, n - 1)
    }
}

/// The slots of a hand that a hint touches, in increasing order.
pub open spec fn touched_slots(hand: Seq<Card>, mv: Move) -> Seq<usize> {
    matching_indices(hand, mv, hand.len() as int)
}

/// Every card of a hand is a card identity.
pub open spec fn hand_wf(hand: Seq<Card>) -> bool {
    forall|i: int| 0 <= i < hand.len() ==> (#[trigger] hand[i]).wf()
}

/// The hint names the card exactly when the card is in the set that the hint names.
pub proof fn lemma_hint_names_set(mv: Move, c: Card)
    requires
        is_hint(mv),
        c.wf(),
    ensures
        hint_names(mv, c) == hint_set(mv).contains(c.0 as int),
{
}

/// A slot is in the touched list exactly when the hint names its card.
pub proof fn lemma_matching_indices(hand: Seq<Card>, mv: Move, n: int)
    requires
        0 <= n <= hand.len(),
        hand.len() <= usize::MAX,
    ensures
        forall|j: usize|
            j < hand.len() ==> (#[trigger] matching_indices(hand, mv, n).contains(j) <==> (j < n
                && hint_names(mv, hand[j as int]))),
        forall|k: int|
            0 <= k < matching_indices(hand, mv, n).len() ==> #[trigger] matching_indices(
                hand,
                mv,
                n,
            )[k] < n,
    decreases n,
{
    if n > 0 {
        lemma_matching_indices(hand, mv, n - 1);
        let prev = matching_indices(hand, mv, n - 1);
        let last = (n - 1) as usize;
        if hint_names(mv, hand[n - 1]) {
            let cur = prev.push(last);
            assert(cur[prev.len() as int] == last);
            assert forall|j: usize| j < hand.len() implies (#[trigger] cur.contains(j) <==> (j < n
                && hint_names(mv, hand[j as int]))) by {
                if j < n && hint_names(mv, hand[j as int]) && j != last {
                    assert(prev.contains(j));
                    let k = choose|k: int| 0 <= k < prev.len() && prev[k] == j;
                    assert(cur[k] == j);
                }
                if cur.contains(j) && j != last {
                    let k = choose|k: int| 0 <= k < cur.len() && cur[k] == j;
                    assert(prev[k] == j);
                    assert(prev.contains(j));
                }
            }
            assert forall|k: int| 0 <= k < cur.len() implies #[trigger] cur[k] < n by {
                if k < prev.len() {
                    assert(prev[k] < n - 1);
                }
            }
        } else {
            assert forall|j: usize| j < hand.len() implies (#[trigger] prev.contains(j) <==> (j
                < n && hint_names(mv, hand[j as int]))) by {
                if prev.contains(j) {
                    let k = choose|k: int| 0 <= k < prev.len() && prev[k] == j;
                    assert(prev[k] < n - 1);
                }
            }
        }
    }
}

/// The slots that a hint touches in a hand are exactly those whose card is in
/// the set that the hint names: the touched list that a game reports tells the
/// truth about every slot.
pub proof fn lemma_touched_slots_truthful(hand: Seq<Card>, mv: Move)
    requires
        is_hint(mv),
        hand_wf(hand),
        hand.len() <= usize::MAX,
    ensures
        forall|j: usize|
            j < hand.len() ==> (#[trigger] touched_slots(hand, mv).contains(j) <==> hint_set(
                mv,
            ).contains(hand[j as int].0 as int)),
{
    lemma_matching_indices(hand, mv, hand.len() as int);
    assert forall|j: usize| j < hand.len() implies (#[trigger] touched_slots(hand, mv).contains(j)
        <==> hint_set(mv).contains(hand[j as int].0 as int)) by {
        lemma_hint_names_set(mv, hand[j as int]);
    }
}

/// The slots of `hand` whose card the hint names, in increasing order.
pub fn hinted_indices(hand: &Vec<Card>, mv: Move) -> (r: Vec<usize>)
    requires
        hand_wf(hand@),
    ensures
        r@ == touched_slots(hand@, mv),
{
    let mut r: Vec<usize> = Vec::new();
    let mut j: usize = 0;
    while j < hand.len()
        invariant
            j <= hand@.len(),
            hand_wf(hand@),
            r@ == matching_indices(hand@, mv, j as int),
        decreases hand@.len() - j,
    {
        if card_matches(&hand[j], mv) {
            r.push(j);
        }
        j = j + 1;
    }
    r
}

/// Whether the hint names the card.
pub fn card_matches(c: &Card, mv: Move) -> (r: bool)
    requires
        c.wf(),
    ensures
        r == hint_names(mv, *c),
{
    match mv {
        Move::HintColor(col) => c.color_index() == col.index(),
        Move::HintValue(v) => c.get_value() == v,
        _ => false,
    }
}

/// Whether the hint names some card of the hand.
pub fn hand_has_match(hand: &Vec<Card>, mv: Move) -> (r: bool)
    requires
        hand_wf(hand@),
    ensures
        r == exists|j: int| 0 <= j < hand@.len() && hint_names(mv, #[trigger] hand@[j]),
{
    let mut j: usize = 0;
    while j < hand.len()
        invariant
            j <= hand@.len(),
            hand_wf(hand@),
            forall|k: int| 0 <= k < j ==> !hint_names(mv, #[trigger] hand@[k]),
        decreases hand@.len() - j,
    {
        if card_matches(&hand[j], mv) {
            return true;
        }
        j = j + 1;
    }
    false
}

/// The mask of cards that a hint names, or of those it does not name.
pub fn hint_mask(mv: Move, touched: bool) -> (r: DeckSubset)
    requires
        is_hint(mv),
    ensures
        r.wf(),
        r@ == if touched {
            hint_set(mv)
        } else {
            crate::decksubset::universe().difference(hint_set(mv))
        },
{
    match mv {
        Move::HintColor(c) => if touched {
            DeckSubset::from_color(c)
        } else {
            DeckSubset::from_color_inverted(c)
        },
        Move::HintValue(v) => if touched {
            DeckSubset::from_value(v)
        } else {
            DeckSubset::from_value_inverted(v)
        },
        _ => DeckSubset::new_full(),
    }
}

} // verus!
