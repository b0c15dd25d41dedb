use vstd::prelude::*;
use crate::board::{
    fireworks_wf, playable_set, all_nonempty, all_playable, count_sv, count_suit_value,
};
use crate::card::{Card, copies_of_value};
use crate::decksubset::{DeckSubset, universe, card_count, count_below};
use crate::enums::{Color, Move, MoveResult};
use crate::hint::{hand_wf, hinted_indices, touched_slots};
use crate::knowledge::{knowledge_wf, narrow_hand, narrowed, is_hint, leave_slot, after_leave};
use crate::board::{unseen_except, lemma_unseen_step, fireworks_after, hints_after_discard, hints_after_hint, tracked_hand_after};
use crate::strategy::{Strategy, move_wf, result_wf};
use crate::game::move_allowed;
use crate::bits::UNIVERSE_MASK;

verus! {

/// Whether the card can no longer score: its suit is past it, or every copy of
/// a value its suit still needs before it is discarded.
pub open spec fn useless(card: Card, fw: Seq<u8>, discarded: Seq<Card>) -> bool {
    card.value() <= fw[card.suit()] || exists|v: int|
        fw[card.suit()] + 1 <= v < card.value() && #[trigger] count_sv(discarded, card.suit(), v)
            >= copies_of_value(v)
}

/// Whether losing the card would lose its kind: it can still score, and it is a
/// 5 or every other copy of its kind is discarded.
pub open spec fn critical(card: Card, fw: Seq<u8>, discarded: Seq<Card>) -> bool {
    !useless(card, fw, discarded) && (card.value() == 5 || count_sv(
        discarded,
        card.suit(),
        card.value(),
    ) + 1 >= copies_of_value(card.value()))
}

/// The identities that can no longer score.
pub open spec fn useless_set(fw: Seq<u8>, discarded: Seq<Card>) -> Set<int> {
    Set::new(|i: int| 0 <= i < 50 && useless(Card(i as u8), fw, discarded))
}

/// The identities that are critical.
pub open spec fn critical_set(fw: Seq<u8>, discarded: Seq<Card>) -> Set<int> {
    Set::new(|i: int| 0 <= i < 50 && critical(Card(i as u8), fw, discarded))
}

/// The distance of a card from being playable: 255 if it can no longer score,
/// else how many cards its suit needs first.
pub open spec fn distance(card: Card, fw: Seq<u8>, discarded: Seq<Card>) -> int {
    if useless(card, fw, discarded) {
        255
    } else {
        card.value() - (fw[card.suit()] + 1)
    }
}

/// The Gemini agent: plays certain cards, saves a critical card on the
/// partner's chop unless the partner already knows it is critical, gives the
/// hint that reveals the most playable cards, sets up near plays, and discards
/// by a score that avoids critical cards.
pub struct Gemini {
    pub hints_remaining: u8,
    pub fireworks: [u8; 5],
    pub my_hand_knowledge: Vec<DeckSubset>,
    pub partner_hand: Vec<Card>,
    pub partner_hand_knowledge: Vec<DeckSubset>,
    /// Identities the agent has not seen anywhere.
    pub my_view_unknowns: DeckSubset,
    /// Identities neither player has seen on the board.
    pub public_unknowns: DeckSubset,
    pub discarded_cards: Vec<Card>,
}

impl Gemini {
    pub open spec fn inv(&self) -> bool {
        &&& self.hints_remaining <= 8
        &&& fireworks_wf(self.fireworks@)
        &&& knowledge_wf(self.my_hand_knowledge@)
        &&& knowledge_wf(self.partner_hand_knowledge@)
        &&& hand_wf(self.partner_hand@)
        &&& self.partner_hand@.len() == self.partner_hand_knowledge@.len()
        &&& self.my_view_unknowns.wf()
        &&& self.public_unknowns.wf()
        &&& hand_wf(self.discarded_cards@)
    }

    /// Whether slot `idx` of the agent's hand is certainly playable, by what the agent has seen.
    pub open spec fn slot_certainly_playable(&self, idx: int) -> bool {
        0 <= idx < self.my_hand_knowledge@.len() && all_nonempty(
            self.my_hand_knowledge@[idx]@.intersect(self.my_view_unknowns@),
            playable_set(self.fireworks@),
        )
    }

    pub fn new() -> (r: Gemini)
        ensures
            r.inv(),
            r.hints_remaining == 8,
            r.my_hand_knowledge@.len() == 0,
            r.partner_hand@.len() == 0,
            r.my_view_unknowns@ == universe(),
            r.public_unknowns@ == universe(),
    {
        Gemini {
            hints_remaining: 8,
            fireworks: [0u8; 5],
            my_hand_knowledge: Vec::new(),
            partner_hand: Vec::new(),
            partner_hand_knowledge: Vec::new(),
            my_view_unknowns: DeckSubset::new_full(),
            public_unknowns: DeckSubset::new_full(),
            discarded_cards: Vec::new(),
        }
    }

    /// A card reached the board or the discard pile: both players have seen it.
    pub fn mark_board_change(&mut self, card: &Card)
        requires
            old(self).inv(),
            card.wf(),
        ensures
            final(self).inv(),
            final(self).my_view_unknowns@ == old(self).my_view_unknowns@.remove(card.0 as int),
            final(self).public_unknowns@ == old(self).public_unknowns@.remove(card.0 as int),
            final(self).my_hand_knowledge == old(self).my_hand_knowledge,
            final(self).partner_hand == old(self).partner_hand,
            final(self).partner_hand_knowledge == old(self).partner_hand_knowledge,
            final(self).fireworks == old(self).fireworks,
            final(self).discarded_cards == old(self).discarded_cards,
            final(self).hints_remaining == old(self).hints_remaining,
    {
        self.my_view_unknowns.remove_card(*card);
        self.public_unknowns.remove_card(*card);
    }

    /// A card of the partner's hand came into view: the agent has seen it.
    pub fn mark_partner_hand(&mut self, card: &Card)
        requires
            old(self).inv(),
            card.wf(),
        ensures
            final(self).inv(),
            final(self).my_view_unknowns@ == old(self).my_view_unknowns@.remove(card.0 as int),
            final(self).public_unknowns == old(self).public_unknowns,
            final(self).my_hand_knowledge == old(self).my_hand_knowledge,
            final(self).partner_hand == old(self).partner_hand,
            final(self).partner_hand_knowledge == old(self).partner_hand_knowledge,
            final(self).fireworks == old(self).fireworks,
            final(self).discarded_cards == old(self).discarded_cards,
            final(self).hints_remaining == old(self).hints_remaining,
    {
        self.my_view_unknowns.remove_card(*card);
    }

    pub fn is_playable(&self, card: &Card) -> (r: bool)
        requires
            self.inv(),
            card.wf(),
        ensures
            r == (card.value() == self.fireworks@[card.suit()] + 1),
    {
        crate::board::is_playable(card, &self.fireworks)
    }

    /// How many discarded cards have this suit and value.
    pub fn count_in_discard(&self, color: Color, value: u8) -> (r: usize)
        requires
            self.inv(),
        ensures
            r == count_sv(self.discarded_cards@, crate::enums::color_index_spec(color), value as int),
    {
        count_suit_value(&self.discarded_cards, color.index(), value)
    }

    pub fn is_useless(&self, card: &Card) -> (r: bool)
        requires
            self.inv(),
            card.wf(),
        ensures
            r == useless(*card, self.fireworks@, self.discarded_cards@),
    {
        let color = card.get_color();
        let val = card.get_value();
        let current_stack = self.fireworks[card.color_index()];
        if current_stack >= val {
            return true;
        }
        let mut req_val: u8 = current_stack + 1;
        while req_val < val
            invariant
                self.inv(),
                card.wf(),
                current_stack == self.fireworks@[card.suit()],
                current_stack < val,
                val == card.value(),
                crate::enums::color_index_spec(color) == card.suit(),
                current_stack + 1 <= req_val <= val,
                forall|v: int|
                    current_stack + 1 <= v < req_val ==> !(#[trigger] count_sv(
                        self.discarded_cards@,
                        card.suit(),
                        v,
                    ) >= copies_of_value(v)),
            decreases val - req_val,
        {
            let copies_discarded = self.count_in_discard(color, req_val);
            let max_copies: usize = if req_val == 1 {
                3
            } else if req_val <= 4 {
                2
            } else {
                1
            };
            if copies_discarded >= max_copies {
                return true;
            }
            req_val = req_val + 1;
        }
        false
    }

    /// The distance of a card from being playable, 255 if it can no longer score.
    pub fn get_distance(&self, card: &Card) -> (r: u8)
        requires
            self.inv(),
            card.wf(),
        ensures
            r == distance(*card, self.fireworks@, self.discarded_cards@),
    {
        if self.is_useless(card) {
            return 255;
        }
        let val = card.get_value();
        let current_stack = self.fireworks[card.color_index()];
        val - (current_stack + 1)
    }

    pub fn is_card_critical(&self, card: &Card) -> (r: bool)
        requires
            self.inv(),
            card.wf(),
        ensures
            r == critical(*card, self.fireworks@, self.discarded_cards@),
    {
        if self.is_useless(card) {
            return false;
        }
        let val = card.get_value();
        if val == 5 {
            return true;
        }
        let copies_in_discard = self.count_in_discard(card.get_color(), val);
        let max_copies: usize = if val == 1 {
            3
        } else {
            2
        };
        copies_in_discard >= max_copies - 1
    }

    pub fn is_slot_certainly_playable(&self, index: usize) -> (r: bool)
        requires
            self.inv(),
        ensures
            r == self.slot_certainly_playable(index as int),
    {
        if index >= self.my_hand_knowledge.len() {
            return false;
        }
        let possibilities = self.my_hand_knowledge[index].intersect(&self.my_view_unknowns);
        all_playable(&possibilities, &self.fireworks)
    }

    /// Whether every identity of a non-empty set can no longer score.
    fn all_useless(&self, possibilities: &DeckSubset) -> (r: bool)
        requires
            self.inv(),
        ensures
            r == all_nonempty(possibilities@, useless_set(self.fireworks@, self.discarded_cards@)),
    {
        let mut any = false;
        let mut i: u8 = 0;
        while i < 50
            invariant
                i <= 50,
                self.inv(),
                any == exists|j: int| 0 <= j < i && possibilities@.contains(j),
                forall|j: int|
                    0 <= j < i && possibilities@.contains(j) ==> useless_set(
                        self.fireworks@,
                        self.discarded_cards@,
                    ).contains(j),
            decreases 50 - i,
        {
            let c = Card::new(i);
            if possibilities.has_card(c) {
                any = true;
                if !self.is_useless(&c) {
                    return false;
                }
            }
            i = i + 1;
        }
        proof {
            if any {
                assert(possibilities@ != Set::<int>::empty());
            } else {
                assert(possibilities@ =~= Set::<int>::empty());
            }
        }
        any
    }

    pub fn is_slot_certainly_useless(&self, index: usize) -> (r: bool)
        requires
            self.inv(),
        ensures
            r == (index < self.my_hand_knowledge@.len() && all_nonempty(
                self.my_hand_knowledge@[index as int]@.intersect(self.my_view_unknowns@),
                useless_set(self.fireworks@, self.discarded_cards@),
            )),
    {
        if index >= self.my_hand_knowledge.len() {
            return false;
        }
        let possibilities = self.my_hand_knowledge[index].intersect(&self.my_view_unknowns);
        self.all_useless(&possibilities)
    }

    /// Whether some hint has narrowed slot `index` of the agent's hand.
    pub fn is_slot_hinted(&self, index: usize) -> (r: bool)
        requires
            self.inv(),
        ensures
            r == (index < self.my_hand_knowledge@.len() && self.my_hand_knowledge@[index as int].0
                != UNIVERSE_MASK),
    {
        if index >= self.my_hand_knowledge.len() {
            return false;
        }
        self.my_hand_knowledge[index].0 != UNIVERSE_MASK
    }

    /// Whether knowledge `k`, within the public unknowns, makes a slot certainly playable.
    pub fn knowledge_implies_playable(&self, knowledge: &DeckSubset) -> (r: bool)
        requires
            self.inv(),
        ensures
            r == all_nonempty(knowledge@.intersect(self.public_unknowns@), playable_set(self.fireworks@)),
    {
        let possibilities = knowledge.intersect(&self.public_unknowns);
        all_playable(&possibilities, &self.fireworks)
    }

    /// Whether knowledge `k`, within the public unknowns, shows the slot to be critical.
    pub fn knowledge_implies_critical(&self, knowledge: &DeckSubset) -> (r: bool)
        requires
            self.inv(),
        ensures
            r == all_nonempty(
                knowledge@.intersect(self.public_unknowns@),
                critical_set(self.fireworks@, self.discarded_cards@),
            ),
    {
        let possibilities = knowledge.intersect(&self.public_unknowns);
        let mut any = false;
        let mut i: u8 = 0;
        while i < 50
            invariant
                i <= 50,
                self.inv(),
                possibilities@ == knowledge@.intersect(self.public_unknowns@),
                any == exists|j: int| 0 <= j < i && possibilities@.contains(j),
                forall|j: int|
                    0 <= j < i && possibilities@.contains(j) ==> critical_set(
                        self.fireworks@,
                        self.discarded_cards@,
                    ).contains(j),
            decreases 50 - i,
        {
            let c = Card::new(i);
            if possibilities.has_card(c) {
                any = true;
                if !self.is_card_critical(&c) {
                    assert(Card((i as int) as u8) == c);
                    return false;
                }
            }
            i = i + 1;
        }
        proof {
            if any {
                assert(possibilities@ != Set::<int>::empty());
            } else {
                assert(possibilities@ =~= Set::<int>::empty());
            }
        }
        any
    }
}

/// How many identities below `n` of a set are critical.
pub open spec fn critical_count_below(poss: Set<int>, fw: Seq<u8>, discarded: Seq<Card>, n: int) -> nat
    decreases n,
{
    if n <= 0 {
        0
    } else {
        critical_count_below(poss, fw, discarded, n - 1) + if poss.contains(n - 1) && critical(
            Card((n - 1) as u8),
            fw,
            discarded,
        ) {
            1nat
        } else {
            0nat
        }
    }
}

/// The distances of the identities below `n` of a set, summed, counting 20 for
/// one that can no longer score.
pub open spec fn distance_accum_below(
    poss: Set<int>,
    fw: Seq<u8>,
    discarded: Seq<Card>,
    n: int,
) -> nat
    decreases n,
{
    if n <= 0 {
        0
    } else {
        distance_accum_below(poss, fw, discarded, n - 1) + if poss.contains(n - 1) {
            let d = distance(Card((n - 1) as u8), fw, discarded);
            if d == 255 {
                20nat
            } else {
                d as nat
            }
        } else {
            0nat
        }
    }
}

impl Gemini {
    /// How good a discard of slot `index` is: 1000 for a slot that can no longer
    /// score, -1000 for a hinted slot, else 100, less 5000 times the chance that
    /// it is critical, plus its mean distance from being playable (counting 20 for
    /// a card that can no longer score), in whole numbers.
    pub fn calculate_discard_score(&self, index: usize) -> (r: i32)
        requires
            self.inv(),
        ensures
            index >= self.my_hand_knowledge@.len() ==> r == -9999,
            index < self.my_hand_knowledge@.len() ==> ({
                let poss = self.my_hand_knowledge@[index as int]@.intersect(self.my_view_unknowns@);
                let total = card_count(poss);
                let crit = critical_count_below(poss, self.fireworks@, self.discarded_cards@, 50);
                let dist = distance_accum_below(poss, self.fireworks@, self.discarded_cards@, 50);
                if all_nonempty(poss, useless_set(self.fireworks@, self.discarded_cards@)) {
                    r == 1000
                } else if total == 0 {
                    r == 0
                } else if self.my_hand_knowledge@[index as int].0 != UNIVERSE_MASK {
                    r == -1000
                } else {
                    r == 100 - (5000 * (crit as int)) / (total as int) + (dist as int) / (total as int)
                }
            }),
    {
        if index >= self.my_hand_knowledge.len() {
            return -9999;
        }
        if self.is_slot_certainly_useless(index) {
            return 1000;
        }
        let possibilities = self.my_hand_knowledge[index].intersect(&self.my_view_unknowns);
        let mut total_count: u32 = 0;
        let mut critical_count: u32 = 0;
        let mut dist_accum: u32 = 0;
        let mut i: u8 = 0;
        while i < 50
            invariant
                i <= 50,
                self.inv(),
                total_count == count_below(possibilities@, i as int),
                critical_count == critical_count_below(
                    possibilities@,
                    self.fireworks@,
                    self.discarded_cards@,
                    i as int,
                ),
                dist_accum == distance_accum_below(
                    possibilities@,
                    self.fireworks@,
                    self.discarded_cards@,
                    i as int,
                ),
                critical_count <= total_count <= i,
                dist_accum <= 255 * i,
            decreases 50 - i,
        {
            let c = Card::new(i);
            if possibilities.has_card(c) {
                total_count = total_count + 1;
                if self.is_card_critical(&c) {
                    critical_count = critical_count + 1;
                }
                let d = self.get_distance(&c);
                if d == 255 {
                    dist_accum = dist_accum + 20;
                } else {
                    dist_accum = dist_accum + d as u32;
                }
            }
            i = i + 1;
        }
        if total_count == 0 {
            return 0;
        }
        if self.is_slot_hinted(index) {
            return -1000;
        }
        proof {
            lemma_quotient_bounds(critical_count as int, total_count as int, dist_accum as int);
        }
        let critical_part = (5000 * critical_count / total_count) as i32;
        let distance_part = (dist_accum / total_count) as i32;
        100 - critical_part + distance_part
    }

    /// For a hint, how many touched partner cards it would newly make certainly
    /// playable in the partner's eyes, and how many touched cards can no longer score.
    fn analyze_hint(&self, mv: Move) -> (r: (usize, usize))
        requires
            self.inv(),
            is_hint(mv),
        ensures
            r.0 > 0 ==> exists|j: int|
                0 <= j < self.partner_hand@.len() && crate::hint::hint_names(
                    mv,
                    #[trigger] self.partner_hand@[j],
                ),
    {
        let indices = hinted_indices(&self.partner_hand, mv);
        let mut playable_count: usize = 0;
        let mut useless_count: usize = 0;
        let mut k: usize = 0;
        while k < indices.len()
            invariant
                k <= indices@.len(),
                self.inv(),
                is_hint(mv),
                playable_count <= k,
                useless_count <= k,
                indices@ == crate::hint::touched_slots(self.partner_hand@, mv),
                playable_count > 0 ==> exists|j: int|
                    0 <= j < self.partner_hand@.len() && crate::hint::hint_names(
                        mv,
                        #[trigger] self.partner_hand@[j],
                    ),
            decreases indices@.len() - k,
        {
            let idx = indices[k];
            let hand_len = self.partner_hand.len();
            proof {
                crate::hint::lemma_matching_indices(self.partner_hand@, mv, self.partner_hand@.len() as int);
                assert(indices@[k as int] < self.partner_hand@.len());
                assert(indices@.contains(idx));
                assert(crate::hint::hint_names(mv, self.partner_hand@[idx as int]));
            }
            let card = self.partner_hand[idx];
            let old_k = self.partner_hand_knowledge[idx];
            let new_k = old_k.narrow(mv, true);
            let was_known = self.knowledge_implies_playable(&old_k);
            let will_be_known = self.knowledge_implies_playable(&new_k);
            if self.is_playable(&card) && !was_known && will_be_known {
                playable_count = playable_count + 1;
            }
            if self.is_useless(&card) {
                useless_count = useless_count + 1;
            }
            k = k + 1;
        }
        (playable_count, useless_count)
    }
}

proof fn lemma_quotient_bounds(crit: int, total: int, dist: int)
    requires
        0 <= crit <= total <= 50,
        0 < total,
        0 <= dist <= 255 * 50,
    ensures
        0 <= (5000 * crit) / total <= 5000,
        0 <= dist / total <= 255 * 50,
{
    assert(0 <= (5000 * crit) / total <= 5000) by (nonlinear_arith)
        requires
            0 <= crit <= total,
            0 < total,
    ;
    assert(0 <= dist / total <= dist) by (nonlinear_arith)
        requires
            0 <= dist,
            0 < total,
    ;
}

impl Gemini {
    #[verifier::loop_isolation(false)]
    /// The agent's move. It plays the highest certainly playable slot if there is
    /// one, and plays nothing else. Holding a card, it only makes moves that are
    /// legal by its own record of the tokens and of the partner's hand.
    pub fn choose_move(&self) -> (r: Move)
        requires
            self.inv(),
        ensures
            move_wf(r),
            (exists|i: int| self.slot_certainly_playable(i)) ==> (r matches Move::Play(i)
                && self.slot_certainly_playable(i as int) && forall|j: int|
                i < j ==> !#[trigger] self.slot_certainly_playable(j)),
            r matches Move::Play(i) ==> self.slot_certainly_playable(i as int),
            self.my_hand_knowledge@.len() > 0 ==> move_allowed(
                self.my_hand_knowledge@.len() as int,
                self.hints_remaining as int,
                self.partner_hand@,
                r,
            ),
    {
        // 1. Play a certain card, the newest first.
        let mut i: usize = self.my_hand_knowledge.len();
        while i > 0
            invariant
                i <= self.my_hand_knowledge@.len(),
                forall|j: int| i <= j ==> !#[trigger] self.slot_certainly_playable(j),
            decreases i,
        {
            i = i - 1;
            if self.is_slot_certainly_playable(i) {
                return Move::Play(i);
            }
        }
        let n = self.partner_hand.len();
        // 2. The partner's chop is its first untouched slot; save it if critical
        // and not already known to be.
        let mut partner_discard_idx: usize = 0;
        let mut k: usize = 0;
        while k < n
            invariant
                k <= n,
                n == self.partner_hand@.len(),
                partner_discard_idx < n || partner_discard_idx == 0,
            decreases n - k,
        {
            if self.partner_hand_knowledge[k].0 == UNIVERSE_MASK {
                partner_discard_idx = k;
                break;
            }
            k = k + 1;
        }
        if self.hints_remaining > 0 && n > 0 {
            let card_at_risk = self.partner_hand[partner_discard_idx];
            let knowledge = self.partner_hand_knowledge[partner_discard_idx];
            let already_protected = self.knowledge_implies_critical(&knowledge);
            if self.is_card_critical(&card_at_risk) && !already_protected {
                return Move::HintValue(card_at_risk.get_value());
            }
        }
        // 3. The hint that newly reveals the most playable cards, touching the
        // fewest useless ones; the first such in suit then value order.
        if self.hints_remaining > 0 {
            let mut best: Option<(Move, usize, usize)> = None;
            let mut c: usize = 0;
            while c < 10
                invariant
                    c <= 10,
                    best matches Some(b) ==> move_wf(b.0) && b.1 > 0 && (b.0 is HintColor || b.0 is HintValue),
                    best matches Some(b) ==> move_allowed(
                        self.my_hand_knowledge@.len() as int,
                        self.hints_remaining as int,
                        self.partner_hand@,
                        b.0,
                    ),
                decreases 10 - c,
            {
                let mv = if c < 5 {
                    Move::HintColor(Color::from_index(c))
                } else {
                    Move::HintValue((c - 4) as u8)
                };
                let (playable_revealed, useless_touched) = self.analyze_hint(mv);
                if playable_revealed > 0 {
                    let better = match best {
                        None => true,
                        Some(b) => playable_revealed > b.1 || (playable_revealed == b.1
                            && useless_touched < b.2),
                    };
                    if better {
                        best = Some((mv, playable_revealed, useless_touched));
                    }
                }
                c = c + 1;
            }
            if let Some(b) = best {
                return b.0;
            }
        }
        // 4. A setup hint on an untouched card one step from playable.
        if self.hints_remaining > 1 {
            let mut k: usize = 0;
            while k < n
                invariant
                    k <= n,
                    n == self.partner_hand@.len(),
                decreases n - k,
            {
                let card = self.partner_hand[k];
                if self.partner_hand_knowledge[k].0 == UNIVERSE_MASK && !self.is_useless(&card) {
                    let dist = self.get_distance(&card);
                    if dist <= 1 {
                        return Move::HintValue(card.get_value());
                    }
                }
                k = k + 1;
            }
        }
        // 5. Discard the slot with the best discard score.
        if self.hints_remaining < 8 {
            let len = self.my_hand_knowledge.len();
            let mut best_discard_idx: usize = 0;
            let mut max_score: i32 = i32::MIN;
            let mut i: usize = 0;
            while i < len
                invariant
                    i <= len,
                    best_discard_idx == 0 || best_discard_idx < len,
                    len == self.my_hand_knowledge@.len(),
                decreases len - i,
            {
                let score = self.calculate_discard_score(i);
                if score > max_score {
                    max_score = score;
                    best_discard_idx = i;
                }
                i = i + 1;
            }
            return Move::Discard(best_discard_idx);
        }
        // 6. Pass the turn with a hint on the partner's newest card.
        if n > 0 {
            return Move::HintValue(self.partner_hand[n - 1].get_value());
        }
        Move::Discard(0)
    }

    /// Records a card that left a hand: played with success it raises its
    /// firework, else it goes to the discard pile. Both players have seen it.
    fn record_card(&mut self, card: Card, played: bool)
        requires
            old(self).inv(),
            card.wf(),
        ensures
            final(self).inv(),
            final(self).my_hand_knowledge == old(self).my_hand_knowledge,
            final(self).partner_hand == old(self).partner_hand,
            final(self).partner_hand_knowledge == old(self).partner_hand_knowledge,
            final(self).hints_remaining == old(self).hints_remaining,
            final(self).fireworks@ == fireworks_after(old(self).fireworks@, card, played),
            final(self).discarded_cards@ == if played {
                old(self).discarded_cards@
            } else {
                old(self).discarded_cards@.push(card)
            },
            final(self).my_view_unknowns@ == old(self).my_view_unknowns@.remove(card.0 as int),
            final(self).public_unknowns@ == old(self).public_unknowns@.remove(card.0 as int),
    {
        self.mark_board_change(&card);
        if played {
            let s = card.color_index();
            if self.fireworks[s] < 5 {
                self.fireworks[s] = self.fireworks[s] + 1;
            }
        } else {
            self.discarded_cards.push(card);
        }
        assert(self.fireworks@ =~= fireworks_after(old(self).fireworks@, card, played));
    }

    /// Learns the result of the agent's own move. A played or discarded slot
    /// leaves the hand and a fresh one comes in if a card was drawn; the card is
    /// recorded on the board or in the discard pile; a hint narrows what the
    /// partner knows of every slot.
    pub fn update_after_own_move(&mut self, mv: &Move, mv_result: &MoveResult, got_new_card: bool)
        requires
            old(self).inv(),
            move_wf(*mv),
            result_wf(*mv_result),
        ensures
            final(self).inv(),
            match *mv {
                Move::Play(idx) | Move::Discard(idx) => {
                    &&& final(self).my_hand_knowledge@ == after_leave(
                        old(self).my_hand_knowledge@,
                        idx,
                        got_new_card,
                    )
                    &&& final(self).partner_hand == old(self).partner_hand
                    &&& final(self).partner_hand_knowledge == old(self).partner_hand_knowledge
                    &&& match *mv_result {
                        MoveResult::Play(success, card, _) => {
                            &&& final(self).fireworks@ == fireworks_after(old(self).fireworks@, card, success)
                            &&& final(self).discarded_cards@ == if success {
                                old(self).discarded_cards@
                            } else {
                                old(self).discarded_cards@.push(card)
                            }
                            &&& final(self).my_view_unknowns@ == old(self).my_view_unknowns@.remove(card.0 as int)
                            &&& final(self).public_unknowns@ == old(self).public_unknowns@.remove(card.0 as int)
                            &&& final(self).hints_remaining == old(self).hints_remaining
                        },
                        MoveResult::Discard(card, _) => {
                            &&& final(self).fireworks == old(self).fireworks
                            &&& final(self).discarded_cards@ == old(self).discarded_cards@.push(card)
                            &&& final(self).my_view_unknowns@ == old(self).my_view_unknowns@.remove(card.0 as int)
                            &&& final(self).public_unknowns@ == old(self).public_unknowns@.remove(card.0 as int)
                            &&& final(self).hints_remaining == hints_after_discard(old(self).hints_remaining)
                        },
                        MoveResult::Hint(_) => {
                            &&& final(self).fireworks == old(self).fireworks
                            &&& final(self).discarded_cards == old(self).discarded_cards
                            &&& final(self).my_view_unknowns == old(self).my_view_unknowns
                            &&& final(self).public_unknowns == old(self).public_unknowns
                            &&& final(self).hints_remaining == old(self).hints_remaining
                        },
                    }
                },
                _ => {
                    &&& final(self).hints_remaining == hints_after_hint(old(self).hints_remaining)
                    &&& final(self).my_hand_knowledge == old(self).my_hand_knowledge
                    &&& final(self).partner_hand == old(self).partner_hand
                    &&& final(self).fireworks == old(self).fireworks
                    &&& final(self).discarded_cards == old(self).discarded_cards
                    &&& final(self).my_view_unknowns == old(self).my_view_unknowns
                    &&& final(self).public_unknowns == old(self).public_unknowns
                    &&& final(self).partner_hand_knowledge@.len() == old(self).partner_hand_knowledge@.len()
                    &&& forall|i: int|
                        0 <= i < old(self).partner_hand_knowledge@.len() ==> (
                        #[trigger] final(self).partner_hand_knowledge@[i])@ == narrowed(
                            old(self).partner_hand_knowledge@[i]@,
                            *mv,
                            touched_slots(old(self).partner_hand@, *mv).contains(i as usize),
                        )
                },
            },
    {
        match mv {
            Move::Play(idx) | Move::Discard(idx) => {
                leave_slot(&mut self.my_hand_knowledge, *idx, got_new_card);
                match mv_result {
                    MoveResult::Play(success, card, _) => {
                        self.record_card(*card, *success);
                    },
                    MoveResult::Discard(card, _) => {
                        self.record_card(*card, false);
                        if self.hints_remaining < 8 {
                            self.hints_remaining = self.hints_remaining + 1;
                        }
                    },
                    MoveResult::Hint(_) => {},
                }
            },
            _ => {
                if self.hints_remaining > 0 {
                    self.hints_remaining = self.hints_remaining - 1;
                }
                let hinted = hinted_indices(&self.partner_hand, *mv);
                narrow_hand(&mut self.partner_hand_knowledge, *mv, &hinted);
            },
        }
    }

    /// Learns the partner's move. A played or discarded slot leaves the
    /// partner's hand, its card is recorded on the board or in the discard pile,
    /// and the drawn card comes into the agent's view; a hint narrows what the
    /// agent knows of every slot of its own hand.
    pub fn update_after_other_player_move(&mut self, mv: &Move, mv_result: &MoveResult)
        requires
            old(self).inv(),
            move_wf(*mv),
            result_wf(*mv_result),
        ensures
            final(self).inv(),
            match *mv {
                Move::Play(idx) | Move::Discard(idx) => {
                    &&& final(self).my_hand_knowledge == old(self).my_hand_knowledge
                    &&& (idx < old(self).partner_hand@.len() && !(mv_result is Hint)) ==> ({
                        let card = old(self).partner_hand@[idx as int];
                        let played = match *mv_result {
                            MoveResult::Play(success, _, _) => success,
                            _ => false,
                        };
                        let drawn = match *mv_result {
                            MoveResult::Play(_, _, d) => d,
                            MoveResult::Discard(_, d) => d,
                            _ => None,
                        };
                        &&& final(self).partner_hand@ == tracked_hand_after(old(self).partner_hand@, idx, drawn)
                        &&& final(self).partner_hand_knowledge@ == after_leave(
                            old(self).partner_hand_knowledge@,
                            idx,
                            drawn is Some,
                        )
                        &&& final(self).fireworks@ == fireworks_after(old(self).fireworks@, card, played)
                        &&& final(self).discarded_cards@ == if played {
                            old(self).discarded_cards@
                        } else {
                            old(self).discarded_cards@.push(card)
                        }
                        &&& final(self).public_unknowns@ == old(self).public_unknowns@.remove(card.0 as int)
                        &&& final(self).my_view_unknowns@ == match drawn {
                            Some(c) => old(self).my_view_unknowns@.remove(card.0 as int).remove(c.0 as int),
                            None => old(self).my_view_unknowns@.remove(card.0 as int),
                        }
                        &&& final(self).hints_remaining == if mv_result is Discard {
                            hints_after_discard(old(self).hints_remaining)
                        } else {
                            old(self).hints_remaining
                        }
                    })
                    &&& (idx >= old(self).partner_hand@.len() || mv_result is Hint) ==> (
                        *final(self) == *old(self))
                },
                _ => {
                    &&& final(self).hints_remaining == hints_after_hint(old(self).hints_remaining)
                    &&& final(self).partner_hand == old(self).partner_hand
                    &&& final(self).partner_hand_knowledge == old(self).partner_hand_knowledge
                    &&& final(self).fireworks == old(self).fireworks
                    &&& final(self).discarded_cards == old(self).discarded_cards
                    &&& final(self).my_view_unknowns == old(self).my_view_unknowns
                    &&& final(self).public_unknowns == old(self).public_unknowns
                    &&& final(self).my_hand_knowledge@.len() == old(self).my_hand_knowledge@.len()
                    &&& forall|i: int|
                        0 <= i < old(self).my_hand_knowledge@.len() ==> (
                        #[trigger] final(self).my_hand_knowledge@[i])@ == match *mv_result {
                            MoveResult::Hint(indices) => narrowed(
                                old(self).my_hand_knowledge@[i]@,
                                *mv,
                                indices@.contains(i as usize),
                            ),
                            _ => old(self).my_hand_knowledge@[i]@,
                        }
                },
            },
    {
        match mv {
            Move::Play(idx) | Move::Discard(idx) => {
                if *idx < self.partner_hand.len() {
                    let drawn = match mv_result {
                        MoveResult::Play(success, _, d) => {
                            let card = self.partner_hand.remove(*idx);
                            self.partner_hand_knowledge.remove(*idx);
                            self.record_card(card, *success);
                            *d
                        },
                        MoveResult::Discard(_, d) => {
                            let card = self.partner_hand.remove(*idx);
                            self.partner_hand_knowledge.remove(*idx);
                            self.record_card(card, false);
                            if self.hints_remaining < 8 {
                                self.hints_remaining = self.hints_remaining + 1;
                            }
                            *d
                        },
                        MoveResult::Hint(_) => None,
                    };
                    if let Some(new_card) = drawn {
                        self.mark_partner_hand(&new_card);
                        self.partner_hand.push(new_card);
                        self.partner_hand_knowledge.push(DeckSubset::new_full());
                    }
                }
            },
            _ => {
                if self.hints_remaining > 0 {
                    self.hints_remaining = self.hints_remaining - 1;
                }
                if let MoveResult::Hint(indices) = mv_result {
                    narrow_hand(&mut self.my_hand_knowledge, *mv, indices);
                }
            },
        }
    }
}

impl Strategy for Gemini {
    open spec fn wf(&self) -> bool {
        self.inv()
    }

    fn initialize(&mut self, other_player_hand: &Vec<Card>)
        ensures
            final(self).hints_remaining == 8,
            final(self).fireworks@ == seq![0u8, 0u8, 0u8, 0u8, 0u8],
            final(self).discarded_cards@.len() == 0,
            final(self).my_hand_knowledge@.len() == 5,
            forall|i: int| 0 <= i < 5 ==> (#[trigger] final(self).my_hand_knowledge@[i])@ == universe(),
            final(self).partner_hand@ == other_player_hand@,
            final(self).partner_hand_knowledge@.len() == other_player_hand@.len(),
            forall|i: int|
                0 <= i < other_player_hand@.len() ==> (
                #[trigger] final(self).partner_hand_knowledge@[i])@ == universe(),
            final(self).my_view_unknowns@ == unseen_except(
                other_player_hand@,
                other_player_hand@.len() as int,
            ),
            final(self).public_unknowns@ == universe(),
    {
        self.hints_remaining = 8;
        self.fireworks = [0u8; 5];
        self.my_view_unknowns = DeckSubset::new_full();
        self.public_unknowns = DeckSubset::new_full();
        self.discarded_cards = Vec::new();
        assert(self.fireworks@ =~= seq![0u8, 0u8, 0u8, 0u8, 0u8]);
        let mut know: Vec<DeckSubset> = Vec::new();
        let mut i: usize = 0;
        while i < 5
            invariant
                i <= 5,
                know@.len() == i,
                knowledge_wf(know@),
                forall|j: int| 0 <= j < i ==> (#[trigger] know@[j])@ == universe(),
            decreases 5 - i,
        {
            know.push(DeckSubset::new_full());
            i = i + 1;
        }
        self.my_hand_knowledge = know;
        self.partner_hand = Vec::new();
        self.partner_hand_knowledge = Vec::new();
        assert(self.my_view_unknowns@ =~= unseen_except(other_player_hand@, 0));
        let mut k: usize = 0;
        while k < other_player_hand.len()
            invariant
                k <= other_player_hand@.len(),
                hand_wf(other_player_hand@),
                self.inv(),
                self.hints_remaining == 8,
                self.fireworks@ == seq![0u8, 0u8, 0u8, 0u8, 0u8],
                self.discarded_cards@.len() == 0,
                self.my_hand_knowledge@.len() == 5,
                forall|j: int| 0 <= j < 5 ==> (#[trigger] self.my_hand_knowledge@[j])@ == universe(),
                self.partner_hand@ == other_player_hand@.subrange(0, k as int),
                self.partner_hand_knowledge@.len() == k,
                forall|j: int| 0 <= j < k ==> (#[trigger] self.partner_hand_knowledge@[j])@ == universe(),
                self.my_view_unknowns@ == unseen_except(other_player_hand@, k as int),
                self.public_unknowns@ == universe(),
            decreases other_player_hand@.len() - k,
        {
            let card = other_player_hand[k];
            self.mark_partner_hand(&card);
            self.partner_hand.push(card);
            self.partner_hand_knowledge.push(DeckSubset::new_full());
            proof {
                lemma_unseen_step(other_player_hand@, k as int);
                assert(self.partner_hand@ =~= other_player_hand@.subrange(0, k + 1));
            }
            k = k + 1;
        }
        assert(self.partner_hand@ =~= other_player_hand@);
    }

    fn decide_move(&mut self) -> (r: Move)
        ensures
            *final(self) == *old(self),
            move_wf(r),
            (exists|i: int| old(self).slot_certainly_playable(i)) ==> (r matches Move::Play(i)
                && old(self).slot_certainly_playable(i as int) && forall|j: int|
                i < j ==> !#[trigger] old(self).slot_certainly_playable(j)),
            r matches Move::Play(i) ==> old(self).slot_certainly_playable(i as int),
            old(self).my_hand_knowledge@.len() > 0 ==> move_allowed(
                old(self).my_hand_knowledge@.len() as int,
                old(self).hints_remaining as int,
                old(self).partner_hand@,
                r,
            ),
    {
        self.choose_move()
    }

    fn update_after_own_move(&mut self, mv: &Move, mv_result: &MoveResult, got_new_card: bool) {
        Gemini::update_after_own_move(self, mv, mv_result, got_new_card)
    }

    fn update_after_other_player_move(&mut self, mv: &Move, mv_result: &MoveResult) {
        Gemini::update_after_other_player_move(self, mv, mv_result)
    }
}

} // verus!
