use vstd::prelude::*;
use crate::board::{
    playable_set, discardable_set, fireworks_wf, fireworks_after, mistakes_after, hints_after_discard,
    hints_after_hint, tracked_hand_after, replace_slot,
};
use crate::card::{Card, suit_of, value_of};
use crate::decksubset::{DeckSubset, universe, kind_set, card_count, suit_set, value_set};
use crate::enums::{Color, Move, MoveResult, color_index_spec};
use crate::hint::hand_wf;
use crate::knowledge::{knowledge_wf, narrow_hand, narrowed, is_hint, hint_set, leave_slot, after_leave};
use crate::strategy::{move_wf, result_wf};

verus! {

/// Every identity of a set is of one kind (suit and value).
pub open spec fn kind_known(s: Set<int>) -> bool {
    s != Set::<int>::empty() && forall|a: int, b: int|
        s.contains(a) && s.contains(b) ==> #[trigger] kind_set(a).contains(b)
}

/// The play and discard moves for slots below `n`, slot by slot.
pub open spec fn slot_moves(n: int) -> Seq<Move>
    decreases n,
{
    if n <= 0 {
        Seq::empty()
    } else {
        slot_moves(n - 1).push(Move::Play((n - 1) as usize)).push(Move::Discard((n - 1) as usize))
    }
}

/// The ten hints: values 1 to 5, then the suits in order.
pub open spec fn all_hints() -> Seq<Move> {
    seq![
        Move::HintValue(1),
        Move::HintValue(2),
        Move::HintValue(3),
        Move::HintValue(4),
        Move::HintValue(5),
        Move::HintColor(Color::Red),
        Move::HintColor(Color::Green),
        Move::HintColor(Color::Blue),
        Move::HintColor(Color::Yellow),
        Move::HintColor(Color::White),
    ]
}

/// The focused slot after slot `idx` left the hand: cleared if it was that slot,
/// one lower if it was above it.
pub open spec fn shifted_focus(focus: Option<usize>, idx: usize) -> Option<usize> {
    match focus {
        Some(i) => if i == idx {
            None
        } else if i > idx {
            Some((i - 1) as usize)
        } else {
            Some(i)
        },
        None => None,
    }
}

/// The belief state of the reference agent: what it knows of its own hand, the
/// partner's hand as it sees it, what it believes the partner knows of that hand,
/// the cards it has not yet seen, and the board as both players see it.
pub struct Robert2 {
    pub hints_remaining: u8,
    pub mistakes_made: u8,
    pub fireworks: [u8; 5],
    pub my_hand_knowledge: Vec<DeckSubset>,
    pub partner_hand: Vec<Card>,
    pub partner_hand_knowledge: Vec<DeckSubset>,
    pub cards_not_seen: DeckSubset,
    /// The slot of the agent's hand that the latest hint touched alone, if any.
    pub focused_hint: Option<usize>,
}

impl Robert2 {
    pub open spec fn wf(&self) -> bool {
        &&& self.hints_remaining <= 8
        &&& fireworks_wf(self.fireworks@)
        &&& knowledge_wf(self.my_hand_knowledge@)
        &&& knowledge_wf(self.partner_hand_knowledge@)
        &&& hand_wf(self.partner_hand@)
        &&& self.partner_hand@.len() == self.partner_hand_knowledge@.len()
        &&& self.cards_not_seen.wf()
    }

    /// The state before the deal: five unknown slots, nothing seen.
    pub fn new() -> (r: Robert2)
        ensures
            r.wf(),
            r.hints_remaining == 8,
            r.mistakes_made == 0,
            r.fireworks@ == seq![0u8, 0u8, 0u8, 0u8, 0u8],
            r.my_hand_knowledge@.len() == 5,
            forall|i: int| 0 <= i < 5 ==> (#[trigger] r.my_hand_knowledge@[i])@ == universe(),
            r.partner_hand@.len() == 0,
            r.partner_hand_knowledge@.len() == 0,
            r.cards_not_seen@ == universe(),
            r.focused_hint is None,
    {
        let mut my_hand_knowledge: Vec<DeckSubset> = Vec::new();
        let mut i: usize = 0;
        while i < 5
            invariant
                i <= 5,
                my_hand_knowledge@.len() == i,
                forall|j: int|
                    0 <= j < i ==> (#[trigger] my_hand_knowledge@[j])@ == universe()
                        && my_hand_knowledge@[j].wf(),
            decreases 5 - i,
        {
            my_hand_knowledge.push(DeckSubset::new_full());
            i = i + 1;
        }
        let r = Robert2 {
            hints_remaining: 8,
            mistakes_made: 0,
            fireworks: [0u8; 5],
            my_hand_knowledge,
            partner_hand: Vec::new(),
            partner_hand_knowledge: Vec::new(),
            cards_not_seen: DeckSubset::new_full(),
            focused_hint: None,
        };
        assert(r.fireworks@ =~= seq![0u8, 0u8, 0u8, 0u8, 0u8]);
        r
    }

    /// Sees the partner's dealt hand: its cards are no longer unseen, and the
    /// partner knows nothing of them yet.
    pub fn initialize(&mut self, other_player_hand: &Vec<Card>)
        requires
            old(self).wf(),
            hand_wf(other_player_hand@),
        ensures
            final(self).wf(),
            final(self).partner_hand@ == other_player_hand@,
            final(self).partner_hand_knowledge@.len() == other_player_hand@.len(),
            forall|i: int|
                0 <= i < other_player_hand@.len() ==> (
                #[trigger] final(self).partner_hand_knowledge@[i])@ == universe(),
            forall|id: int|
                #[trigger] final(self).cards_not_seen@.contains(id) <==> old(
                    self,
                ).cards_not_seen@.contains(id) && !(exists|j: int|
                    0 <= j < other_player_hand@.len() && other_player_hand@[j].0 == id),
            final(self).my_hand_knowledge == old(self).my_hand_knowledge,
            final(self).fireworks == old(self).fireworks,
            final(self).hints_remaining == old(self).hints_remaining,
            final(self).mistakes_made == old(self).mistakes_made,
            final(self).focused_hint == old(self).focused_hint,
    {
        let mut hand: Vec<Card> = Vec::new();
        let mut know: Vec<DeckSubset> = Vec::new();
        let mut i: usize = 0;
        while i < other_player_hand.len()
            invariant
                i <= other_player_hand@.len(),
                hand_wf(other_player_hand@),
                self.cards_not_seen.wf(),
                hand@ == other_player_hand@.subrange(0, i as int),
                know@.len() == i,
                forall|j: int| 0 <= j < i ==> (#[trigger] know@[j])@ == universe() && know@[j].wf(),
                forall|id: int|
                    #[trigger] self.cards_not_seen@.contains(id) <==> old(
                        self,
                    ).cards_not_seen@.contains(id) && !(exists|j: int|
                        0 <= j < i && other_player_hand@[j].0 == id),
                self.my_hand_knowledge == old(self).my_hand_knowledge,
                self.fireworks == old(self).fireworks,
                self.hints_remaining == old(self).hints_remaining,
                self.mistakes_made == old(self).mistakes_made,
                self.focused_hint == old(self).focused_hint,
            decreases other_player_hand@.len() - i,
        {
            let card = other_player_hand[i];
            self.cards_not_seen.remove_card(card);
            hand.push(card);
            know.push(DeckSubset::new_full());
            proof {
                assert(hand@ =~= other_player_hand@.subrange(0, i + 1));
                assert forall|id: int|
                    #[trigger] self.cards_not_seen@.contains(id) <==> old(
                        self,
                    ).cards_not_seen@.contains(id) && !(exists|j: int|
                        0 <= j < i + 1 && other_player_hand@[j].0 == id) by {
                    if exists|j: int| 0 <= j < i + 1 && other_player_hand@[j].0 == id {
                        let j = choose|j: int| 0 <= j < i + 1 && other_player_hand@[j].0 == id;
                        if j < i {
                            assert(exists|j: int| 0 <= j < i && other_player_hand@[j].0 == id);
                        }
                    }
                }
            }
            i = i + 1;
        }
        assert(hand@ =~= other_player_hand@);
        self.partner_hand = hand;
        self.partner_hand_knowledge = know;
    }

    /// Every move the agent considers: a play and a discard for each slot of its
    /// hand, then the ten hints while a token is left.
    pub fn all_possible_moves(&self) -> (r: Vec<Move>)
        ensures
            r@ == slot_moves(self.my_hand_knowledge@.len() as int) + if self.hints_remaining > 0 {
                all_hints()
            } else {
                Seq::empty()
            },
    {
        let mut all_moves: Vec<Move> = Vec::new();
        let mut i: usize = 0;
        while i < self.my_hand_knowledge.len()
            invariant
                i <= self.my_hand_knowledge@.len(),
                all_moves@ == slot_moves(i as int),
            decreases self.my_hand_knowledge@.len() - i,
        {
            all_moves.push(Move::Play(i));
            all_moves.push(Move::Discard(i));
            i = i + 1;
        }
        let ghost base = all_moves@;
        if self.hints_remaining > 0 {
            let mut value: u8 = 1;
            while value < 6
                invariant
                    1 <= value <= 6,
                    all_moves@ == base + all_hints().subrange(0, value - 1),
                decreases 6 - value,
            {
                all_moves.push(Move::HintValue(value));
                proof {
                    assert(all_moves@ =~= base + all_hints().subrange(0, value as int));
                }
                value = value + 1;
            }
            let mut c: usize = 0;
            while c < 5
                invariant
                    c <= 5,
                    all_moves@ == base + all_hints().subrange(0, 5 + c),
                decreases 5 - c,
            {
                all_moves.push(Move::HintColor(Color::from_index(c)));
                proof {
                    assert(all_moves@ =~= base + all_hints().subrange(0, 5 + c + 1));
                }
                c = c + 1;
            }
            assert(all_hints().subrange(0, 10) =~= all_hints());
        } else {
            assert(all_moves@ =~= base + Seq::<Move>::empty());
        }
        all_moves
    }

    /// The card of slot `idx` where its suit and value are certain: the lowest
    /// identity the slot could hold, if every possible identity is of its kind.
    pub fn exact_card_if_known(&self, idx: usize) -> (r: Option<Card>)
        requires
            self.wf(),
            idx < self.my_hand_knowledge@.len(),
        ensures
            r is Some <==> kind_known(self.my_hand_knowledge@[idx as int]@),
            r matches Some(c) ==> c.wf() && self.my_hand_knowledge@[idx as int]@.contains(c.0 as int)
                && self.my_hand_knowledge@[idx as int]@.subset_of(kind_set(c.0 as int)),
    {
        broadcast use vstd::std_specs::bits::axiom_u64_trailing_zeros;

        let knowledge = self.my_hand_knowledge[idx];
        let ghost k = knowledge@;
        let first = knowledge.0.trailing_zeros();
        proof {
            if k != Set::<int>::empty() {
                assert(exists|id: int| k.contains(id)) by {
                    if !(exists|id: int| k.contains(id)) {
                        assert(k =~= Set::<int>::empty());
                    }
                }
                let id = choose|id: int| k.contains(id);
                assert(0 <= id < 50 && crate::bits::bit(knowledge.0, id as u64));
                assert((knowledge.0 >> (id as u64)) & 1u64 == 1u64);
            }
        }
        if first >= 50 {
            return None;
        }
        let card = Card::new(first as u8);
        assert(k.contains(first as int));
        let kind = DeckSubset::from_card(card);
        if knowledge.is_subset(&kind) {
            proof {
                assert forall|a: int, b: int| k.contains(a) && k.contains(b) implies #[trigger] kind_set(
                    a,
                ).contains(b) by {
                    assert(kind_set(first as int).contains(a));
                    assert(kind_set(first as int).contains(b));
                }
            }
            Some(card)
        } else {
            proof {
                if kind_known(k) {
                    assert forall|b: int| k.contains(b) implies kind_set(first as int).contains(b) by {
                        assert(kind_set(first as int).contains(b));
                    }
                    assert(k.subset_of(kind_set(first as int)));
                }
            }
            None
        }
    }
}

/// The identities a hint names, or all of them where no hint is given.
pub open spec fn hint_filter(hint: Option<Move>) -> Set<int> {
    match hint {
        Some(h) => hint_set(h),
        None => universe(),
    }
}

/// How many identities of a kind a set holds, for each kind with exactly one,
/// summed over the 25 kinds below `n` (kind `k` is suit `k / 5`, value `k % 5 + 1`).
pub open spec fn single_kinds_below(s: Set<int>, n: int) -> nat
    decreases n,
{
    if n <= 0 {
        0
    } else {
        single_kinds_below(s, n - 1) + if card_count(
            s.intersect(suit_set((n - 1) / 5)).intersect(value_set((n - 1) % 5 + 1)),
        ) == 1 {
            1nat
        } else {
            0nat
        }
    }
}

impl Robert2 {
    /// The identities that could be played on the fireworks now.
    pub fn playable_cards(&self) -> (r: DeckSubset)
        requires
            self.wf(),
        ensures
            r.wf(),
            r@ == playable_set(self.fireworks@),
    {
        let mut playable = DeckSubset::new_empty();
        let mut color_index: usize = 0;
        while color_index < 5
            invariant
                color_index <= 5,
                self.wf(),
                playable.wf(),
                playable@ == Set::new(
                    |i: int|
                        0 <= i < 50 && suit_of(i) < color_index && value_of(i)
                            == self.fireworks@[suit_of(i)] + 1,
                ),
            decreases 5 - color_index,
        {
            let top_value = self.fireworks[color_index];
            let ghost before = playable@;
            if top_value < 5 {
                let color = Color::from_index(color_index);
                let next_card_subset = DeckSubset::from_color(color).intersect(
                    &DeckSubset::from_value(top_value + 1),
                );
                playable = playable.union(&next_card_subset);
            }
            proof {
                assert(playable@ =~= Set::new(
                    |i: int|
                        0 <= i < 50 && suit_of(i) < color_index + 1 && value_of(i)
                            == self.fireworks@[suit_of(i)] + 1,
                ));
            }
            color_index = color_index + 1;
        }
        assert(playable@ =~= playable_set(self.fireworks@));
        playable
    }

    /// The identities already played: at most their suit's firework.
    pub fn discardable_cards(&self) -> (r: DeckSubset)
        requires
            self.wf(),
        ensures
            r.wf(),
            r@ == discardable_set(self.fireworks@),
    {
        let mut discardable = DeckSubset::new_empty();
        let mut color_index: usize = 0;
        while color_index < 5
            invariant
                color_index <= 5,
                self.wf(),
                discardable.wf(),
                discardable@ == Set::new(
                    |i: int|
                        0 <= i < 50 && suit_of(i) < color_index && value_of(i)
                            <= self.fireworks@[suit_of(i)],
                ),
            decreases 5 - color_index,
        {
            let top_value = self.fireworks[color_index];
            let color = Color::from_index(color_index);
            let mut value: u8 = 1;
            while value <= top_value
                invariant
                    1 <= value <= top_value + 1,
                    top_value == self.fireworks@[color_index as int],
                    top_value <= 5,
                    color_index < 5,
                    color_index_spec(color) == color_index,
                    discardable.wf(),
                    discardable@ == Set::new(
                        |i: int|
                            0 <= i < 50 && ((suit_of(i) < color_index && value_of(i)
                                <= self.fireworks@[suit_of(i)]) || (suit_of(i) == color_index
                                && value_of(i) < value)),
                    ),
                decreases top_value + 1 - value,
            {
                let next_card_subset = DeckSubset::from_color(color).intersect(
                    &DeckSubset::from_value(value),
                );
                discardable = discardable.union(&next_card_subset);
                proof {
                    assert(discardable@ =~= Set::new(
                        |i: int|
                            0 <= i < 50 && ((suit_of(i) < color_index && value_of(i)
                                <= self.fireworks@[suit_of(i)]) || (suit_of(i) == color_index
                                && value_of(i) < value + 1)),
                    ));
                }
                value = value + 1;
            }
            proof {
                assert(discardable@ =~= Set::new(
                    |i: int|
                        0 <= i < 50 && suit_of(i) < color_index + 1 && value_of(i)
                            <= self.fireworks@[suit_of(i)],
                ));
            }
            color_index = color_index + 1;
        }
        assert(discardable@ =~= discardable_set(self.fireworks@));
        discardable
    }

    /// The chance that slot `idx` of the agent's hand is playable, as the number of
    /// unseen identities it could be that are playable over the number it could be.
    pub fn probability_playable(&self, idx: usize) -> (r: (u32, u32))
        requires
            self.wf(),
            idx < self.my_hand_knowledge@.len(),
        ensures
            r.0 == card_count(
                self.cards_not_seen@.intersect(
                    self.my_hand_knowledge@[idx as int]@.intersect(playable_set(self.fireworks@)),
                ),
            ),
            r.1 == card_count(self.cards_not_seen@.intersect(self.my_hand_knowledge@[idx as int]@)),
    {
        let possible = self.cards_not_seen.intersect(&self.my_hand_knowledge[idx]);
        let playable = self.cards_not_seen.intersect(
            &self.my_hand_knowledge[idx].intersect(&self.playable_cards()),
        );
        (playable.count(), possible.count())
    }

    /// The chance that slot `idx` of the agent's hand is already played, as a
    /// numerator and a denominator of unseen identities.
    pub fn probability_discardable(&self, idx: usize) -> (r: (u32, u32))
        requires
            self.wf(),
            idx < self.my_hand_knowledge@.len(),
        ensures
            r.0 == card_count(
                self.cards_not_seen@.intersect(
                    self.my_hand_knowledge@[idx as int]@.intersect(
                        discardable_set(self.fireworks@),
                    ),
                ),
            ),
            r.1 == card_count(self.cards_not_seen@.intersect(self.my_hand_knowledge@[idx as int]@)),
    {
        let possible = self.cards_not_seen.intersect(&self.my_hand_knowledge[idx]);
        let discardable = self.cards_not_seen.intersect(
            &self.my_hand_knowledge[idx].intersect(&self.discardable_cards()),
        );
        (discardable.count(), possible.count())
    }

    /// The mask a hint would add to the partner's knowledge: the hint's own
    /// mask, or the universe where there is no hint.
    fn hint_subset(hint: Option<Move>) -> (r: DeckSubset)
        requires
            hint matches Some(h) ==> is_hint(h),
        ensures
            r.wf(),
            r@ == hint_filter(hint),
    {
        match hint {
            Some(h) => crate::hint::hint_mask(h, true),
            None => DeckSubset::new_full(),
        }
    }

    /// The chance, from the partner's view, that partner slot `idx` is playable,
    /// after the hint if one is given, as a numerator and a denominator.
    pub fn partner_probability_playable(&self, idx: usize, hint: Option<Move>) -> (r: (u32, u32))
        requires
            self.wf(),
            idx < self.partner_hand_knowledge@.len(),
            hint matches Some(h) ==> is_hint(h),
        ensures
            r.0 == card_count(
                hint_filter(hint).intersect(
                    self.cards_not_seen@.intersect(
                        self.partner_hand_knowledge@[idx as int]@.intersect(
                            playable_set(self.fireworks@),
                        ),
                    ),
                ),
            ),
            r.1 == card_count(
                hint_filter(hint).intersect(
                    self.cards_not_seen@.intersect(self.partner_hand_knowledge@[idx as int]@),
                ),
            ),
    {
        let hint_subset = Self::hint_subset(hint);
        let playable = hint_subset.intersect(
            &self.cards_not_seen.intersect(
                &self.partner_hand_knowledge[idx].intersect(&self.playable_cards()),
            ),
        );
        let possible = hint_subset.intersect(
            &self.cards_not_seen.intersect(&self.partner_hand_knowledge[idx]),
        );
        (playable.count(), possible.count())
    }

    /// The chance, from the partner's view, that partner slot `idx` is already
    /// played, after the hint if one is given, as a numerator and a denominator.
    pub fn partner_probability_discardable(&self, idx: usize, hint: Option<Move>) -> (r: (
        u32,
        u32,
    ))
        requires
            self.wf(),
            idx < self.partner_hand_knowledge@.len(),
            hint matches Some(h) ==> is_hint(h),
        ensures
            r.0 == card_count(
                hint_filter(hint).intersect(
                    self.cards_not_seen@.intersect(
                        self.partner_hand_knowledge@[idx as int]@.intersect(
                            discardable_set(self.fireworks@),
                        ),
                    ),
                ),
            ),
            r.1 == card_count(
                hint_filter(hint).intersect(
                    self.cards_not_seen@.intersect(self.partner_hand_knowledge@[idx as int]@),
                ),
            ),
    {
        let hint_subset = Self::hint_subset(hint);
        let discardable = hint_subset.intersect(
            &self.cards_not_seen.intersect(
                &self.partner_hand_knowledge[idx].intersect(&self.discardable_cards()),
            ),
        );
        let possible = hint_subset.intersect(
            &self.cards_not_seen.intersect(&self.partner_hand_knowledge[idx]),
        );
        (discardable.count(), possible.count())
    }

    /// The chance that slot `idx` holds the last unseen copy of its kind: the
    /// number of kinds of which the slot could be exactly one unseen identity,
    /// over the number of unseen identities it could be.
    pub fn probability_only_card_left_of_its_kind(&self, idx: usize) -> (r: (u32, u32))
        requires
            self.wf(),
            idx < self.my_hand_knowledge@.len(),
        ensures
            r.0 == single_kinds_below(
                self.my_hand_knowledge@[idx as int]@.intersect(self.cards_not_seen@),
                25,
            ),
            r.1 == card_count(self.my_hand_knowledge@[idx as int]@.intersect(self.cards_not_seen@)),
    {
        let possible = self.my_hand_knowledge[idx].intersect(&self.cards_not_seen);
        let mut number_only_card_left: u32 = 0;
        let mut kind: usize = 0;
        while kind < 25
            invariant
                kind <= 25,
                number_only_card_left == single_kinds_below(possible@, kind as int),
                number_only_card_left <= kind,
            decreases 25 - kind,
        {
            let color = Color::from_index(kind / 5);
            let value = (kind % 5) as u8 + 1;
            let card_subset = possible.intersect(&DeckSubset::from_color(color)).intersect(
                &DeckSubset::from_value(value),
            );
            if card_subset.count() == 1 {
                number_only_card_left = number_only_card_left + 1;
            }
            kind = kind + 1;
        }
        (number_only_card_left, possible.count())
    }

    /// For each partner slot (the first five), how many of the identities the
    /// partner still considers possible a color hint would rule out.
    pub fn number_of_cards_excluded_by_color_hint(&self, color: Color) -> (r: [u8; 5])
        requires
            self.wf(),
        ensures
            forall|i: int|
                0 <= i < 5 ==> #[trigger] r@[i] == if i < self.partner_hand_knowledge@.len() {
                    card_count(
                        self.cards_not_seen@.intersect(self.partner_hand_knowledge@[i]@).intersect(
                            universe().difference(
                                narrowed(
                                    universe(),
                                    Move::HintColor(color),
                                    self.partner_hand@[i].suit() == color_index_spec(color),
                                ),
                            ),
                        ),
                    ) as int
                } else {
                    0
                },
    {
        self.number_of_cards_excluded(Move::HintColor(color))
    }

    /// For each partner slot (the first five), how many of the identities the
    /// partner still considers possible a value hint would rule out.
    pub fn number_of_cards_excluded_by_value_hint(&self, value: u8) -> (r: [u8; 5])
        requires
            self.wf(),
            1 <= value <= 5,
        ensures
            forall|i: int|
                0 <= i < 5 ==> #[trigger] r@[i] == if i < self.partner_hand_knowledge@.len() {
                    card_count(
                        self.cards_not_seen@.intersect(self.partner_hand_knowledge@[i]@).intersect(
                            universe().difference(
                                narrowed(
                                    universe(),
                                    Move::HintValue(value),
                                    self.partner_hand@[i].value() == value,
                                ),
                            ),
                        ),
                    ) as int
                } else {
                    0
                },
    {
        self.number_of_cards_excluded(Move::HintValue(value))
    }

    /// For each partner slot, the possible identities that the hint would rule out:
    /// a touched slot loses those the hint does not name, an untouched one those it names.
    fn number_of_cards_excluded(&self, hint: Move) -> (r: [u8; 5])
        requires
            self.wf(),
            is_hint(hint),
        ensures
            forall|i: int|
                0 <= i < 5 ==> #[trigger] r@[i] == if i < self.partner_hand_knowledge@.len() {
                    card_count(
                        self.cards_not_seen@.intersect(self.partner_hand_knowledge@[i]@).intersect(
                            universe().difference(
                                narrowed(
                                    universe(),
                                    hint,
                                    crate::hint::hint_names(hint, self.partner_hand@[i]),
                                ),
                            ),
                        ),
                    ) as int
                } else {
                    0
                },
    {
        let mut number_of_cards_excluded_array = [0u8; 5];
        let mut i: usize = 0;
        while i < self.partner_hand_knowledge.len() && i < 5
            invariant
                self.wf(),
                is_hint(hint),
                i <= 5,
                i <= self.partner_hand_knowledge@.len(),
                forall|j: int|
                    0 <= j < 5 ==> #[trigger] number_of_cards_excluded_array@[j] == if j < i {
                        card_count(
                            self.cards_not_seen@.intersect(
                                self.partner_hand_knowledge@[j]@,
                            ).intersect(
                                universe().difference(
                                    narrowed(
                                        universe(),
                                        hint,
                                        crate::hint::hint_names(hint, self.partner_hand@[j]),
                                    ),
                                ),
                            ),
                        ) as int
                    } else {
                        0
                    },
            decreases 5 - i,
        {
            let touched = crate::hint::card_matches(&self.partner_hand[i], hint);
            let excluded_mask = crate::hint::hint_mask(hint, !touched);
            let excluded = self.cards_not_seen.intersect(&self.partner_hand_knowledge[i]).intersect(
                &excluded_mask,
            );
            let n = excluded.count();
            proof {
                let full = narrowed(universe(), hint, touched);
                assert(universe().difference(full) =~= excluded_mask@);
            }
            number_of_cards_excluded_array[i] = n as u8;
            i = i + 1;
        }
        number_of_cards_excluded_array
    }
}

impl Robert2 {
    /// Records a play on the board: a success raises its suit's firework, a
    /// failure adds a mistake.
    fn record_play(&mut self, success: bool, card: Card)
        requires
            old(self).wf(),
            card.wf(),
        ensures
            final(self).wf(),
            final(self).fireworks@ == fireworks_after(old(self).fireworks@, card, success),
            final(self).mistakes_made == mistakes_after(old(self).mistakes_made, success),
            final(self).hints_remaining == old(self).hints_remaining,
            final(self).my_hand_knowledge == old(self).my_hand_knowledge,
            final(self).partner_hand == old(self).partner_hand,
            final(self).partner_hand_knowledge == old(self).partner_hand_knowledge,
            final(self).cards_not_seen == old(self).cards_not_seen,
            final(self).focused_hint == old(self).focused_hint,
    {
        let color_index = card.color_index();
        if success {
            if self.fireworks[color_index] < 5 {
                self.fireworks[color_index] = self.fireworks[color_index] + 1;
            }
        } else if self.mistakes_made < 255 {
            self.mistakes_made = self.mistakes_made + 1;
        }
        assert(self.fireworks@ =~= fireworks_after(old(self).fireworks@, card, success));
    }

    /// Updates the focused slot after slot `idx` left the agent's hand.
    fn shift_focus(&mut self, idx: usize)
        ensures
            final(self).focused_hint == shifted_focus(old(self).focused_hint, idx),
            final(self).hints_remaining == old(self).hints_remaining,
            final(self).mistakes_made == old(self).mistakes_made,
            final(self).fireworks == old(self).fireworks,
            final(self).my_hand_knowledge == old(self).my_hand_knowledge,
            final(self).partner_hand == old(self).partner_hand,
            final(self).partner_hand_knowledge == old(self).partner_hand_knowledge,
            final(self).cards_not_seen == old(self).cards_not_seen,
    {
        match self.focused_hint {
            Some(i) => {
                if i == idx {
                    self.focused_hint = None;
                } else if i > idx {
                    self.focused_hint = Some(i - 1);
                }
            },
            None => {},
        }
    }

    /// Learns the result of the agent's own move. A played or discarded card is
    /// seen and its slot leaves the hand; a fresh, unknown slot comes in if a card
    /// was drawn; a hint narrows what the partner knows of every slot.
    pub fn update_after_own_move(&mut self, mv: &Move, mv_result: &MoveResult, got_new_card: bool)
        requires
            old(self).wf(),
            move_wf(*mv),
            result_wf(*mv_result),
        ensures
            final(self).wf(),
            final(self).partner_hand == old(self).partner_hand,
            match (*mv, *mv_result) {
                (Move::Play(idx), MoveResult::Play(success, card, _)) => {
                    &&& final(self).fireworks@ == fireworks_after(old(self).fireworks@, card, success)
                    &&& final(self).mistakes_made == mistakes_after(old(self).mistakes_made, success)
                    &&& final(self).hints_remaining == old(self).hints_remaining
                    &&& final(self).cards_not_seen@ == old(self).cards_not_seen@.remove(card.0 as int)
                    &&& final(self).my_hand_knowledge@ == after_leave(
                        old(self).my_hand_knowledge@,
                        idx,
                        got_new_card,
                    )
                    &&& final(self).partner_hand_knowledge == old(self).partner_hand_knowledge
                    &&& final(self).focused_hint == shifted_focus(old(self).focused_hint, idx)
                },
                (Move::Play(idx), _) => {
                    &&& final(self).fireworks == old(self).fireworks
                    &&& final(self).mistakes_made == old(self).mistakes_made
                    &&& final(self).hints_remaining == old(self).hints_remaining
                    &&& final(self).cards_not_seen == old(self).cards_not_seen
                    &&& final(self).my_hand_knowledge == old(self).my_hand_knowledge
                    &&& final(self).partner_hand_knowledge == old(self).partner_hand_knowledge
                    &&& final(self).focused_hint == shifted_focus(old(self).focused_hint, idx)
                },
                (Move::Discard(idx), _) => {
                    &&& final(self).fireworks == old(self).fireworks
                    &&& final(self).mistakes_made == old(self).mistakes_made
                    &&& final(self).hints_remaining == hints_after_discard(old(self).hints_remaining)
                    &&& final(self).cards_not_seen@ == (match *mv_result {
                        MoveResult::Discard(card, _) => old(self).cards_not_seen@.remove(card.0 as int),
                        _ => old(self).cards_not_seen@,
                    })
                    &&& final(self).my_hand_knowledge@ == after_leave(
                        old(self).my_hand_knowledge@,
                        idx,
                        got_new_card,
                    )
                    &&& final(self).partner_hand_knowledge == old(self).partner_hand_knowledge
                    &&& final(self).focused_hint == shifted_focus(old(self).focused_hint, idx)
                },
                (_, _) => {
                    &&& final(self).fireworks == old(self).fireworks
                    &&& final(self).mistakes_made == old(self).mistakes_made
                    &&& final(self).hints_remaining == hints_after_hint(old(self).hints_remaining)
                    &&& final(self).cards_not_seen == old(self).cards_not_seen
                    &&& final(self).my_hand_knowledge == old(self).my_hand_knowledge
                    &&& final(self).focused_hint == old(self).focused_hint
                    &&& final(self).partner_hand_knowledge@.len()
                        == old(self).partner_hand_knowledge@.len()
                    &&& forall|i: int|
                        0 <= i < old(self).partner_hand_knowledge@.len() ==> (
                        #[trigger] final(self).partner_hand_knowledge@[i])@ == match *mv_result {
                            MoveResult::Hint(indices) => narrowed(
                                old(self).partner_hand_knowledge@[i]@,
                                *mv,
                                indices@.contains(i as usize),
                            ),
                            _ => old(self).partner_hand_knowledge@[i]@,
                        }
                },
            },
    {
        match mv {
            Move::Play(idx) => {
                match mv_result {
                    MoveResult::Play(success, card_played, _) => {
                        self.record_play(*success, *card_played);
                        self.cards_not_seen.remove_card(*card_played);
                        leave_slot(&mut self.my_hand_knowledge, *idx, got_new_card);
                    },
                    _ => {},
                }
                self.shift_focus(*idx);
            },
            Move::Discard(idx) => {
                leave_slot(&mut self.my_hand_knowledge, *idx, got_new_card);
                match mv_result {
                    MoveResult::Discard(card_discarded, _) => {
                        self.cards_not_seen.remove_card(*card_discarded);
                    },
                    _ => {},
                }
                if self.hints_remaining < 8 {
                    self.hints_remaining = self.hints_remaining + 1;
                }
                self.shift_focus(*idx);
            },
            _ => {
                if self.hints_remaining > 0 {
                    self.hints_remaining = self.hints_remaining - 1;
                }
                match mv_result {
                    MoveResult::Hint(indices) => {
                        narrow_hand(&mut self.partner_hand_knowledge, *mv, indices);
                    },
                    _ => {},
                }
            },
        }
    }
}

/// The unseen cards after `card` was revealed and `drawn` came into view.
pub open spec fn unseen_after(s: Set<int>, card: Card, drawn: Option<Card>) -> Set<int> {
    match drawn {
        Some(c) => s.remove(card.0 as int).remove(c.0 as int),
        None => s.remove(card.0 as int),
    }
}

impl Robert2 {
    /// Sees a card leave partner slot `idx` and the card the partner drew come in.
    fn partner_slot_replaced(&mut self, idx: usize, card: Card, drawn: Option<Card>)
        requires
            old(self).wf(),
            card.wf(),
            drawn matches Some(c) ==> c.wf(),
        ensures
            final(self).wf(),
            final(self).partner_hand@ == tracked_hand_after(old(self).partner_hand@, idx, drawn),
            final(self).partner_hand_knowledge@ == after_leave(
                old(self).partner_hand_knowledge@,
                idx,
                drawn is Some,
            ),
            final(self).cards_not_seen@ == unseen_after(old(self).cards_not_seen@, card, drawn),
            final(self).hints_remaining == old(self).hints_remaining,
            final(self).mistakes_made == old(self).mistakes_made,
            final(self).fireworks == old(self).fireworks,
            final(self).my_hand_knowledge == old(self).my_hand_knowledge,
            final(self).focused_hint == old(self).focused_hint,
    {
        self.cards_not_seen.remove_card(card);
        replace_slot(&mut self.partner_hand, idx, drawn);
        leave_slot(&mut self.partner_hand_knowledge, idx, drawn.is_some());
        match drawn {
            Some(c) => {
                self.cards_not_seen.remove_card(c);
            },
            None => {},
        }
    }

    /// Learns the partner's move. A played or discarded card is seen, its slot
    /// leaves the partner's hand and the drawn card, seen too, comes in; a hint
    /// narrows what the agent knows of every slot of its own hand, and a hint that
    /// touched one slot alone focuses that slot.
    pub fn update_after_other_player_move(&mut self, mv: &Move, mv_result: &MoveResult)
        requires
            old(self).wf(),
            move_wf(*mv),
            result_wf(*mv_result),
        ensures
            final(self).wf(),
            match (*mv, *mv_result) {
                (Move::Play(idx), MoveResult::Play(success, card, drawn)) => {
                    &&& final(self).fireworks@ == fireworks_after(old(self).fireworks@, card, success)
                    &&& final(self).mistakes_made == mistakes_after(old(self).mistakes_made, success)
                    &&& final(self).hints_remaining == old(self).hints_remaining
                    &&& final(self).cards_not_seen@ == unseen_after(old(self).cards_not_seen@, card, drawn)
                    &&& final(self).partner_hand@ == tracked_hand_after(old(self).partner_hand@, idx, drawn)
                    &&& final(self).partner_hand_knowledge@ == after_leave(
                        old(self).partner_hand_knowledge@,
                        idx,
                        drawn is Some,
                    )
                    &&& final(self).my_hand_knowledge == old(self).my_hand_knowledge
                    &&& final(self).focused_hint == old(self).focused_hint
                },
                (Move::Discard(idx), MoveResult::Discard(card, drawn)) => {
                    &&& final(self).fireworks == old(self).fireworks
                    &&& final(self).mistakes_made == old(self).mistakes_made
                    &&& final(self).hints_remaining == hints_after_discard(old(self).hints_remaining)
                    &&& final(self).cards_not_seen@ == unseen_after(old(self).cards_not_seen@, card, drawn)
                    &&& final(self).partner_hand@ == tracked_hand_after(old(self).partner_hand@, idx, drawn)
                    &&& final(self).partner_hand_knowledge@ == after_leave(
                        old(self).partner_hand_knowledge@,
                        idx,
                        drawn is Some,
                    )
                    &&& final(self).my_hand_knowledge == old(self).my_hand_knowledge
                    &&& final(self).focused_hint == old(self).focused_hint
                },
                (Move::Play(_), _) => *final(self) == *old(self),
                (Move::Discard(_), _) => *final(self) == *old(self),
                (_, MoveResult::Hint(indices)) => {
                    &&& final(self).fireworks == old(self).fireworks
                    &&& final(self).mistakes_made == old(self).mistakes_made
                    &&& final(self).hints_remaining == hints_after_hint(old(self).hints_remaining)
                    &&& final(self).cards_not_seen == old(self).cards_not_seen
                    &&& final(self).partner_hand == old(self).partner_hand
                    &&& final(self).partner_hand_knowledge == old(self).partner_hand_knowledge
                    &&& final(self).my_hand_knowledge@.len() == old(self).my_hand_knowledge@.len()
                    &&& forall|i: int|
                        0 <= i < old(self).my_hand_knowledge@.len() ==> (
                        #[trigger] final(self).my_hand_knowledge@[i])@ == narrowed(
                            old(self).my_hand_knowledge@[i]@,
                            *mv,
                            indices@.contains(i as usize),
                        )
                    &&& final(self).focused_hint == if indices@.len() == 1 {
                        Some(indices@[0])
                    } else {
                        old(self).focused_hint
                    }
                },
                (_, _) => {
                    &&& final(self).hints_remaining == hints_after_hint(old(self).hints_remaining)
                    &&& final(self).fireworks == old(self).fireworks
                    &&& final(self).my_hand_knowledge == old(self).my_hand_knowledge
                    &&& final(self).partner_hand == old(self).partner_hand
                },
            },
    {
        match mv {
            Move::Play(idx) => {
                match mv_result {
                    MoveResult::Play(success, card_played, card_drawn) => {
                        self.record_play(*success, *card_played);
                        self.partner_slot_replaced(*idx, *card_played, *card_drawn);
                    },
                    _ => {},
                }
            },
            Move::Discard(idx) => {
                match mv_result {
                    MoveResult::Discard(card_discarded, card_drawn) => {
                        if self.hints_remaining < 8 {
                            self.hints_remaining = self.hints_remaining + 1;
                        }
                        self.partner_slot_replaced(*idx, *card_discarded, *card_drawn);
                    },
                    _ => {},
                }
            },
            _ => {
                if self.hints_remaining > 0 {
                    self.hints_remaining = self.hints_remaining - 1;
                }
                match mv_result {
                    MoveResult::Hint(indices) => {
                        narrow_hand(&mut self.my_hand_knowledge, *mv, indices);
                        if indices.len() == 1 {
                            self.focused_hint = Some(indices[0]);
                        }
                    },
                    _ => {},
                }
            },
        }
    }
}

/// A non-empty set of identities that all lie in `target`, counted as the
/// agent's probabilities count them: the ratio is exactly one.
pub open spec fn certain_in(poss: Set<int>, target: Set<int>) -> bool {
    card_count(poss) > 0 && card_count(poss.intersect(target)) == card_count(poss)
}

impl Robert2 {
    /// What the partner could think partner slot `idx` is, among the unseen
    /// identities, after the hint if one is given.
    pub open spec fn partner_possible(&self, idx: int, hint: Option<Move>) -> Set<int> {
        hint_filter(hint).intersect(self.cards_not_seen@.intersect(self.partner_hand_knowledge@[idx]@))
    }

    /// Whether the hint would newly make partner slot `idx` certainly playable,
    /// and whether it would newly make it certainly discardable, in the partner's eyes.
    pub fn hint_makes_certain(&self, idx: usize, hint: Move) -> (r: (bool, bool))
        requires
            self.wf(),
            idx < self.partner_hand_knowledge@.len(),
            is_hint(hint),
        ensures
            r.0 == (certain_in(self.partner_possible(idx as int, Some(hint)), playable_set(self.fireworks@))
                && !certain_in(self.partner_possible(idx as int, None), playable_set(self.fireworks@))),
            r.1 == (certain_in(
                self.partner_possible(idx as int, Some(hint)),
                discardable_set(self.fireworks@),
            ) && !certain_in(
                self.partner_possible(idx as int, None),
                discardable_set(self.fireworks@),
            )),
    {
        let after_p = self.partner_probability_playable(idx, Some(hint));
        let before_p = self.partner_probability_playable(idx, None);
        let after_d = self.partner_probability_discardable(idx, Some(hint));
        let before_d = self.partner_probability_discardable(idx, None);
        proof {
            let k = self.partner_hand_knowledge@[idx as int]@;
            let ns = self.cards_not_seen@;
            let pl = playable_set(self.fireworks@);
            let di = discardable_set(self.fireworks@);
            assert(hint_filter(Some(hint)).intersect(ns.intersect(k.intersect(pl))) =~= self.partner_possible(
                idx as int,
                Some(hint),
            ).intersect(pl));
            assert(hint_filter(None).intersect(ns.intersect(k.intersect(pl))) =~= self.partner_possible(
                idx as int,
                None,
            ).intersect(pl));
            assert(hint_filter(Some(hint)).intersect(ns.intersect(k.intersect(di))) =~= self.partner_possible(
                idx as int,
                Some(hint),
            ).intersect(di));
            assert(hint_filter(None).intersect(ns.intersect(k.intersect(di))) =~= self.partner_possible(
                idx as int,
                None,
            ).intersect(di));
        }
        let playable = after_p.1 > 0 && after_p.0 == after_p.1 && !(before_p.1 > 0 && before_p.0
            == before_p.1);
        let discardable = after_d.1 > 0 && after_d.0 == after_d.1 && !(before_d.1 > 0 && before_d.0
            == before_d.1);
        (playable, discardable)
    }

    /// The partner slots whose card has suit position `suit` and value `value`,
    /// in increasing order.
    pub fn partner_slots_of_kind(&self, suit: usize, value: u8) -> (r: Vec<usize>)
        requires
            self.wf(),
        ensures
            forall|j: usize|
                #[trigger] r@.contains(j) <==> (j < self.partner_hand@.len()
                    && self.partner_hand@[j as int].suit() == suit
                    && self.partner_hand@[j as int].value() == value),
    {
        broadcast use vstd::seq_lib::lemma_seq_contains_after_push;

        let mut r: Vec<usize> = Vec::new();
        let mut j: usize = 0;
        while j < self.partner_hand.len()
            invariant
                self.wf(),
                j <= self.partner_hand@.len(),
                forall|k: usize|
                    #[trigger] r@.contains(k) <==> (k < j && self.partner_hand@[k as int].suit()
                        == suit && self.partner_hand@[k as int].value() == value),
            decreases self.partner_hand@.len() - j,
        {
            let card = self.partner_hand[j];
            let ghost r0 = r@;
            if card.color_index() == suit && card.get_value() == value {
                r.push(j);
            }
            proof {
                assert forall|k: usize|
                    #[trigger] r@.contains(k) <==> (k < j + 1 && self.partner_hand@[k as int].suit()
                        == suit && self.partner_hand@[k as int].value() == value) by {
                    vstd::seq_lib::lemma_seq_contains_after_push(r0, j, k);
                }
            }
            j = j + 1;
        }
        r
    }
}

} // verus!
