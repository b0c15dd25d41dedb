use vstd::prelude::*;
use crate::bits::{bit, UNIVERSE_BOUND};
use crate::card::Card;
use crate::decksubset::{DeckSubset, universe, suit_set, value_set};
use crate::enums::{Color, Move, color_index_spec};
use crate::hint::hint_mask;

verus! {

/// The cards that a hint names: a suit or a value.
pub open spec fn hint_set(mv: Move) -> Set<int> {
    match mv {
        Move::HintColor(c) => suit_set(color_index_spec(c)),
        Move::HintValue(v) => value_set(v as int),
        _ => universe(),
    }
}

/// A hint about a suit, or about a value from 1 to 5.
pub open spec fn is_hint(mv: Move) -> bool {
    match mv {
        Move::HintColor(_) => true,
        Move::HintValue(v) => 1 <= v <= 5,
        _ => false,
    }
}

/// What a slot could still be after a hint: a touched slot holds a card that the
/// hint names, an untouched one a card that it does not name.
pub open spec fn narrowed(k: Set<int>, mv: Move, touched: bool) -> Set<int> {
    if touched {
        k.intersect(hint_set(mv))
    } else {
        k.intersect(universe().difference(hint_set(mv)))
    }
}

/// What a slot could still be after a sequence of hints, each with whether it touched the slot.
pub open spec fn narrowed_by_all(k: Set<int>, hints: Seq<(Move, bool)>) -> Set<int>
    decreases hints.len(),
{
    if hints.len() == 0 {
        k
    } else {
        narrowed(narrowed_by_all(k, hints.drop_last()), hints.last().0, hints.last().1)
    }
}

/// Hints that tell the truth about the card `id`: each touches the slot exactly
/// when it names that card.
pub open spec fn truthful_hints(hints: Seq<(Move, bool)>, id: int) -> bool {
    forall|j: int|
        0 <= j < hints.len() ==> is_hint(#[trigger] hints[j].0) && hints[j].1 == hint_set(
            hints[j].0,
        ).contains(id)
}

/// Narrowing what a slot could be by truthful hints never loses the card that the
/// slot holds.
pub proof fn lemma_knowledge_sound(k: Set<int>, id: int, hints: Seq<(Move, bool)>)
    requires
        0 <= id < 50,
        k.contains(id),
        truthful_hints(hints, id),
    ensures
        narrowed_by_all(k, hints).contains(id),
    decreases hints.len(),
{
    if hints.len() > 0 {
        let rest = hints.drop_last();
        assert forall|j: int| 0 <= j < rest.len() implies is_hint(#[trigger] rest[j].0)
            && rest[j].1 == hint_set(rest[j].0).contains(id) by {
            assert(rest[j] == hints[j]);
        }
        lemma_knowledge_sound(k, id, rest);
        assert(hints.last() == hints[hints.len() - 1]);
    }
}

impl DeckSubset {
    /// The set narrowed by a hint that touched, or did not touch, its slot.
    pub fn narrow(&self, mv: Move, touched: bool) -> (r: DeckSubset)
        requires
            is_hint(mv),
        ensures
            r@ == narrowed(self@, mv, touched),
            self.wf() ==> r.wf(),
    {
        self.intersect(&hint_mask(mv, touched))
    }
}

/// What a hand slot could still be, as a set of card identities in a 50-bit word.
#[derive(Copy, Clone, Debug)]
pub struct Knowledge(pub u64);

impl View for Knowledge {
    type V = Set<int>;

    open spec fn view(&self) -> Set<int> {
        Set::new(|i: int| 0 <= i < 50 && bit(self.0, i as u64))
    }
}

impl Knowledge {
    pub open spec fn wf(self) -> bool {
        self.0 < UNIVERSE_BOUND
    }

    /// The same bits as a `DeckSubset`.
    pub open spec fn as_subset(self) -> DeckSubset {
        DeckSubset(self.0)
    }

    /// Nothing is known yet: every identity is possible.
    pub fn new_full() -> (r: Knowledge)
        ensures
            r.wf(),
            r@ == universe(),
    {
        Knowledge(DeckSubset::new_full().0)
    }

    pub fn from_color(color: Color) -> (r: Knowledge)
        ensures
            r.wf(),
            r@ == suit_set(color_index_spec(color)),
    {
        let s = DeckSubset::from_color(color);
        assert(Knowledge(s.0)@ =~= s@);
        Knowledge(s.0)
    }

    pub fn from_value(value: u8) -> (r: Knowledge)
        requires
            1 <= value <= 5,
        ensures
            r.wf(),
            r@ == value_set(value as int),
    {
        let s = DeckSubset::from_value(value);
        assert(Knowledge(s.0)@ =~= s@);
        Knowledge(s.0)
    }

    pub fn has_card(&self, card: Card) -> (r: bool)
        requires
            card.wf(),
        ensures
            r == self@.contains(card.0 as int),
    {
        DeckSubset(self.0).has_card(card)
    }

    pub fn remove_card(&mut self, card: Card)
        requires
            card.wf(),
        ensures
            final(self)@ == old(self)@.remove(card.0 as int),
            old(self).wf() ==> final(self).wf(),
    {
        let mut s = DeckSubset(self.0);
        assert(s@ =~= self@);
        s.remove_card(card);
        self.0 = s.0;
        assert(self@ =~= s@);
    }

    pub fn add_card(&mut self, card: Card)
        requires
            card.wf(),
        ensures
            final(self)@ == old(self)@.insert(card.0 as int),
            old(self).wf() ==> final(self).wf(),
    {
        let mut s = DeckSubset(self.0);
        assert(s@ =~= self@);
        s.add_card(card);
        self.0 = s.0;
        assert(self@ =~= s@);
    }

    pub fn intersect(&self, other: &Knowledge) -> (r: Knowledge)
        ensures
            r@ == self@.intersect(other@),
            self.wf() ==> r.wf(),
    {
        let s = DeckSubset(self.0).intersect(&DeckSubset(other.0));
        assert(Knowledge(s.0)@ =~= s@);
        assert(DeckSubset(self.0)@ =~= self@);
        assert(DeckSubset(other.0)@ =~= other@);
        Knowledge(s.0)
    }
}

} // verus!

verus! {

/// Whether a list of slot indices holds slot `i`.
pub fn contains_index(indices: &Vec<usize>, i: usize) -> (r: bool)
    ensures
        r == indices@.contains(i),
{
    let mut k: usize = 0;
    while k < indices.len()
        invariant
            k <= indices@.len(),
            forall|j: int| 0 <= j < k ==> indices@[j] != i,
        decreases indices@.len() - k,
    {
        if indices[k] == i {
            return true;
        }
        k = k + 1;
    }
    false
}

/// Every mask of a hand's knowledge is well formed.
pub open spec fn knowledge_wf(know: Seq<DeckSubset>) -> bool {
    forall|i: int| 0 <= i < know.len() ==> (#[trigger] know[i]).wf()
}

/// Narrows the knowledge of every slot of a hand by a hint: the slots in
/// `indices` were touched, the others were not.
pub fn narrow_hand(know: &mut Vec<DeckSubset>, mv: Move, indices: &Vec<usize>)
    requires
        is_hint(mv),
        knowledge_wf(old(know)@),
    ensures
        final(know)@.len() == old(know)@.len(),
        knowledge_wf(final(know)@),
        forall|i: int|
            0 <= i < final(know)@.len() ==> (#[trigger] final(know)@[i])@ == narrowed(
                old(know)@[i]@,
                mv,
                indices@.contains(i as usize),
            ),
{
    let mut i: usize = 0;
    while i < know.len()
        invariant
            is_hint(mv),
            i <= know@.len(),
            know@.len() == old(know)@.len(),
            knowledge_wf(know@),
            forall|j: int|
                0 <= j < i ==> (#[trigger] know@[j])@ == narrowed(
                    old(know)@[j]@,
                    mv,
                    indices@.contains(j as usize),
                ),
            forall|j: int| i <= j < know@.len() ==> #[trigger] know@[j] == old(know)@[j],
        decreases know@.len() - i,
    {
        let touched = contains_index(indices, i);
        let k = know[i].narrow(mv, touched);
        know[i] = k;
        i = i + 1;
    }
}

/// A hand's knowledge after slot `idx` left it, with a fresh slot appended if a
/// card was drawn. An index outside the hand removes nothing.
pub open spec fn after_leave(k: Seq<DeckSubset>, idx: usize, refill: bool) -> Seq<DeckSubset> {
    let rest = if idx < k.len() {
        k.remove(idx as int)
    } else {
        k
    };
    if refill {
        rest.push(DeckSubset(crate::bits::UNIVERSE_MASK))
    } else {
        rest
    }
}

/// Removes slot `idx` of a hand's knowledge, if it exists, and appends a fresh
/// slot if a card was drawn.
pub fn leave_slot(know: &mut Vec<DeckSubset>, idx: usize, refill: bool)
    requires
        knowledge_wf(old(know)@),
    ensures
        final(know)@ == after_leave(old(know)@, idx, refill),
        knowledge_wf(final(know)@),
{
    if idx < know.len() {
        know.remove(idx);
    }
    if refill {
        know.push(DeckSubset::new_full());
    }
}

} // verus!
