use vstd::prelude::*;
use crate::board::{
    fireworks_wf, playable_set, discardable_set, all_nonempty, all_playable, all_dead, count_kind,
    count_same_kind,
};
use crate::card::{Card, copies_of_value, value_of, suit_of};
use crate::decksubset::{DeckSubset, universe};
use crate::enums::{Color, Move, MoveResult};
use crate::hint::{hand_wf, hinted_indices, touched_slots};
use crate::knowledge::{knowledge_wf, narrow_hand, narrowed, leave_slot, after_leave};
use crate::board::{unseen_except, lemma_unseen_step, fireworks_after, hints_after_discard, hints_after_hint, tracked_hand_after};
use crate::strategy::{Strategy, move_wf, result_wf};
use crate::game::move_allowed;
use crate::bits::UNIVERSE_MASK;

verus! {

/// How far the identities below `n` of a set are from being playable, summed:
/// 10 for one already played, else the number of cards its suit still needs first.
pub open spec fn distance_sum_below(poss: Set<int>, fw: Seq<u8>, n: int) -> nat
    decreases n,
{
    if n <= 0 {
        0
    } else {
        distance_sum_below(poss, fw, n - 1) + if poss.contains(n - 1) {
            if value_of(n - 1) <= fw[suit_of(n - 1)] {
                10nat
            } else {
                (value_of(n - 1) - (fw[suit_of(n - 1)] + 1)) as nat
            }
        } else {
            0nat
        }
    }
}

/// An agent that plays certain cards, protects the partner's critical chop card,
/// gives hints that make a partner card certainly playable, sets up near-future
/// plays, and discards cautiously when hint tokens run low.
pub struct ChatGPT {
    pub hints_remaining: u8,
    pub fireworks: [u8; 5],
    pub my_hand_knowledge: Vec<DeckSubset>,
    pub partner_hand: Vec<Card>,
    pub partner_hand_knowledge: Vec<DeckSubset>,
    pub public_unknowns: DeckSubset,
    pub discarded_cards: Vec<Card>,
    pub last_hint_value: Option<u8>,
    pub last_hint_color: Option<Color>,
}

impl ChatGPT {
    pub open spec fn inv(&self) -> bool {
        &&& self.hints_remaining <= 8
        &&& fireworks_wf(self.fireworks@)
        &&& knowledge_wf(self.my_hand_knowledge@)
        &&& knowledge_wf(self.partner_hand_knowledge@)
        &&& hand_wf(self.partner_hand@)
        &&& self.partner_hand@.len() == self.partner_hand_knowledge@.len()
        &&& self.public_unknowns.wf()
        &&& hand_wf(self.discarded_cards@)
    }

    /// Whether slot `idx` of the agent's hand is certainly playable: every unseen
    /// identity it could be is playable, and there is one.
    pub open spec fn slot_certainly_playable(&self, idx: int) -> bool {
        0 <= idx < self.my_hand_knowledge@.len() && all_nonempty(
            self.my_hand_knowledge@[idx]@.intersect(self.public_unknowns@),
            playable_set(self.fireworks@),
        )
    }

    pub fn new() -> (r: ChatGPT)
        ensures
            r.inv(),
            r.hints_remaining == 8,
            r.my_hand_knowledge@.len() == 0,
            r.partner_hand@.len() == 0,
            r.discarded_cards@.len() == 0,
            r.public_unknowns@ == universe(),
    {
        ChatGPT {
            hints_remaining: 8,
            fireworks: [0u8; 5],
            my_hand_knowledge: Vec::new(),
            partner_hand: Vec::new(),
            partner_hand_knowledge: Vec::new(),
            public_unknowns: DeckSubset::new_full(),
            discarded_cards: Vec::new(),
            last_hint_value: None,
            last_hint_color: None,
        }
    }

    pub fn is_playable(&self, card: &Card) -> (r: bool)
        requires
            self.inv(),
            card.wf(),
        ensures
            r == (card.value() == self.fireworks@[card.suit()] + 1),
    {
        crate::board::is_playable(card, &self.fireworks)
    }

    pub fn is_dead(&self, card: &Card) -> (r: bool)
        requires
            self.inv(),
            card.wf(),
        ensures
            r == (card.value() <= self.fireworks@[card.suit()]),
    {
        crate::board::is_dead(card, &self.fireworks)
    }

    /// How many discarded cards are of the kind of `card`.
    pub fn count_in_discard(&self, card: &Card) -> (r: usize)
        requires
            self.inv(),
            card.wf(),
        ensures
            r == count_kind(self.discarded_cards@, *card),
    {
        count_same_kind(&self.discarded_cards, card)
    }

    /// Whether losing `card` would lose its kind: it is not yet played, and it is
    /// a 5 or every other copy of its kind is discarded.
    pub fn is_critical(&self, card: &Card) -> (r: bool)
        requires
            self.inv(),
            card.wf(),
        ensures
            r == (!(card.value() <= self.fireworks@[card.suit()]) && (card.value() == 5
                || count_kind(self.discarded_cards@, *card) + 1 >= copies_of_value(card.value()))),
    {
        if self.is_dead(card) {
            return false;
        }
        let v = card.get_value();
        if v == 5 {
            return true;
        }
        let copies = self.count_in_discard(card);
        let max: usize = if v == 1 {
            3
        } else {
            2
        };
        copies >= max - 1
    }

    /// Whether knowledge `k`, within the public unknowns, makes a slot certainly playable.
    pub fn knowledge_implies_playable(&self, knowledge: &DeckSubset) -> (r: bool)
        requires
            self.inv(),
        ensures
            r == all_nonempty(knowledge@.intersect(self.public_unknowns@), playable_set(self.fireworks@)),
    {
        let poss = knowledge.intersect(&self.public_unknowns);
        all_playable(&poss, &self.fireworks)
    }

    pub fn is_slot_certainly_playable(&self, idx: usize) -> (r: bool)
        requires
            self.inv(),
        ensures
            r == self.slot_certainly_playable(idx as int),
    {
        if idx >= self.my_hand_knowledge.len() {
            return false;
        }
        self.knowledge_implies_playable(&self.my_hand_knowledge[idx])
    }

    /// Whether every unseen identity slot `idx` could be is already played.
    pub fn is_slot_certainly_dead(&self, idx: usize) -> (r: bool)
        requires
            self.inv(),
        ensures
            r == (idx < self.my_hand_knowledge@.len() && all_nonempty(
                self.my_hand_knowledge@[idx as int]@.intersect(self.public_unknowns@),
                discardable_set(self.fireworks@),
            )),
    {
        if idx >= self.my_hand_knowledge.len() {
            return false;
        }
        let poss = self.my_hand_knowledge[idx].intersect(&self.public_unknowns);
        all_dead(&poss, &self.fireworks)
    }

    /// The expected distance of slot `idx` from being playable, as a sum over
    /// the unseen identities it could be and their number; 999 for a slot that
    /// does not exist or could be nothing.
    pub fn calculate_expected_distance(&self, idx: usize) -> (r: (u32, u32))
        requires
            self.inv(),
        ensures
            0 < r.1 <= 50,
            r.0 <= 999,
            idx < self.my_hand_knowledge@.len() && crate::decksubset::card_count(
                self.my_hand_knowledge@[idx as int]@.intersect(self.public_unknowns@),
            ) > 0 ==> r == (distance_sum_below(
                self.my_hand_knowledge@[idx as int]@.intersect(self.public_unknowns@),
                self.fireworks@,
                50,
            ) as u32, crate::decksubset::card_count(
                self.my_hand_knowledge@[idx as int]@.intersect(self.public_unknowns@),
            ) as u32),
    {
        if idx >= self.my_hand_knowledge.len() {
            return (999, 1);
        }
        let poss = self.my_hand_knowledge[idx].intersect(&self.public_unknowns);
        let mut total: u32 = 0;
        let mut sum: u32 = 0;
        let mut i: u8 = 0;
        while i < 50
            invariant
                i <= 50,
                self.inv(),
                total == crate::decksubset::count_below(poss@, i as int),
                sum == distance_sum_below(poss@, self.fireworks@, i as int),
                total <= i,
                sum <= 10 * i,
            decreases 50 - i,
        {
            let c = Card::new(i);
            if poss.has_card(c) {
                total = total + 1;
                let color_idx = c.color_index();
                let val = c.get_value();
                if self.fireworks[color_idx] >= val {
                    sum = sum + 10;
                } else {
                    sum = sum + (val - (self.fireworks[color_idx] + 1)) as u32;
                }
            }
            i = i + 1;
        }
        if total == 0 {
            return (999, 1);
        }
        (sum, total)
    }
}

impl ChatGPT {
    #[verifier::loop_isolation(false)]
    /// The agent's move. It plays the highest certainly playable slot if there is
    /// one, and plays nothing else. Holding a card, it only makes moves that are
    /// legal by its own record of the tokens and of the partner's hand.
    pub fn choose_move(&self) -> (r: Move)
        requires
            self.inv(),
        ensures
            move_wf(r),
            (exists|i: int| self.slot_certainly_playable(i)) ==> (r matches Move::Play(i)
                && self.slot_certainly_playable(i as int) && forall|j: int|
                i < j ==> !#[trigger] self.slot_certainly_playable(j)),
            r matches Move::Play(i) ==> self.slot_certainly_playable(i as int),
            self.my_hand_knowledge@.len() > 0 ==> move_allowed(
                self.my_hand_knowledge@.len() as int,
                self.hints_remaining as int,
                self.partner_hand@,
                r,
            ),
    {
        // 1. Play a certain card, the newest first.
        let mut i: usize = self.my_hand_knowledge.len();
        while i > 0
            invariant
                i <= self.my_hand_knowledge@.len(),
                self.inv(),
                forall|j: int| i <= j ==> !#[trigger] self.slot_certainly_playable(j),
            decreases i,
        {
            i = i - 1;
            if self.is_slot_certainly_playable(i) {
                return Move::Play(i);
            }
        }
        let n = self.partner_hand.len();
        // 2. Save a critical card on the partner's chop.
        if self.hints_remaining > 0 && n > 0 {
            let chop = self.partner_hand[n - 1];
            if self.is_critical(&chop) && self.last_hint_value != Some(chop.get_value()) {
                return Move::HintValue(chop.get_value());
            }
        }
        if self.hints_remaining > 0 {
            // 3. A hint that makes a playable partner card certainly playable.
            let mut target: u8 = 1;
            while target <= 5
                invariant
                    1 <= target <= 6,
                    self.inv(),
                    n == self.partner_hand@.len(),
                decreases 6 - target,
            {
                let mut k: usize = 0;
                while k < n
                    invariant
                        k <= n,
                        self.inv(),
                        n == self.partner_hand@.len(),
                    decreases n - k,
                {
                    let card = self.partner_hand[k];
                    let known = self.partner_hand_knowledge[k];
                    if card.get_value() == target && self.is_playable(&card)
                        && !self.knowledge_implies_playable(&known) {
                        let k_col = known.intersect(&DeckSubset::from_color(card.get_color()));
                        if k_col.0 != known.0 && self.knowledge_implies_playable(&k_col)
                            && self.last_hint_color != Some(card.get_color()) {
                            return Move::HintColor(card.get_color());
                        }
                        let k_val = known.intersect(&DeckSubset::from_value(card.get_value()));
                        if k_val.0 != known.0 && self.knowledge_implies_playable(&k_val)
                            && self.last_hint_value != Some(card.get_value()) {
                            return Move::HintValue(card.get_value());
                        }
                    }
                    k = k + 1;
                }
                target = target + 1;
            }
            // 4. With tokens to spare, a hint on an untouched card that is near or critical.
            if self.hints_remaining > 4 {
                let mut k: usize = 0;
                while k < n
                    invariant
                        k <= n,
                        self.inv(),
                        n == self.partner_hand@.len(),
                    decreases n - k,
                {
                    let card = self.partner_hand[k];
                    if self.partner_hand_knowledge[k].0 == UNIVERSE_MASK {
                        let top = self.fireworks[card.color_index()];
                        let dist: u8 = if top >= card.get_value() {
                            255
                        } else {
                            card.get_value() - (top + 1)
                        };
                        let near_chop = n < 2 || k >= n - 2;
                        if (self.is_critical(&card) && near_chop) || dist <= 1 {
                            if self.last_hint_value != Some(card.get_value()) {
                                return Move::HintValue(card.get_value());
                            }
                        }
                    }
                    k = k + 1;
                }
            }
        }
        let len = self.my_hand_knowledge.len();
        // 5. Discard when tokens run low: a dead card, else an untouched one, else the farthest.
        if self.hints_remaining <= 4 {
            let mut i: usize = 0;
            while i < len
                invariant
                    i <= len,
                    self.inv(),
                    len == self.my_hand_knowledge@.len(),
                decreases len - i,
            {
                if self.is_slot_certainly_dead(i) {
                    return Move::Discard(i);
                }
                i = i + 1;
            }
            let mut i: usize = 0;
            while i < len
                invariant
                    i <= len,
                    self.inv(),
                    len == self.my_hand_knowledge@.len(),
                decreases len - i,
            {
                if self.my_hand_knowledge[i].0 == UNIVERSE_MASK {
                    return Move::Discard(i);
                }
                i = i + 1;
            }
            let mut best_idx: usize = 0;
            let mut best: Option<(u32, u32)> = None;
            let mut i: usize = 0;
            while i < len
                invariant
                    i <= len,
                    self.inv(),
                    len == self.my_hand_knowledge@.len(),
                    best matches Some(b) ==> b.0 <= 999 && 0 < b.1 <= 50,
                    best_idx == 0 || best_idx < len,
                decreases len - i,
            {
                let d = self.calculate_expected_distance(i);
                let better = match best {
                    None => true,
                    Some(b) => {
                        proof {
                            lemma_product_bound(d.0 as int, b.1 as int);
                            lemma_product_bound(b.0 as int, d.1 as int);
                        }
                        (d.0 as u64) * (b.1 as u64) > (b.0 as u64) * (d.1 as u64)
                    },
                };
                if better {
                    best = Some(d);
                    best_idx = i;
                }
                i = i + 1;
            }
            return Move::Discard(best_idx);
        }
        // 6. Otherwise a hint that tells the partner something new.
        if n > 0 {
            let mut k: usize = 0;
            while k < n
                invariant
                    k <= n,
                    self.inv(),
                    n == self.partner_hand@.len(),
                decreases n - k,
            {
                let card = self.partner_hand[k];
                let known = self.partner_hand_knowledge[k];
                let k_val = known.intersect(&DeckSubset::from_value(card.get_value()));
                if k_val.0 != known.0 && self.last_hint_value != Some(card.get_value()) {
                    return Move::HintValue(card.get_value());
                }
                let k_col = known.intersect(&DeckSubset::from_color(card.get_color()));
                if k_col.0 != known.0 && self.last_hint_color != Some(card.get_color()) {
                    return Move::HintColor(card.get_color());
                }
                k = k + 1;
            }
            return Move::HintValue(self.partner_hand[n - 1].get_value());
        }
        Move::Discard(0)
    }

    /// Sees the card the partner drew: it joins the partner's hand with a fresh
    /// slot of knowledge and is no longer unknown.
    pub fn see(&mut self, card: &Card)
        requires
            old(self).inv(),
            card.wf(),
        ensures
            final(self).inv(),
            final(self).partner_hand@ == old(self).partner_hand@.push(*card),
            final(self).partner_hand_knowledge@ == old(self).partner_hand_knowledge@.push(
                DeckSubset(UNIVERSE_MASK),
            ),
            final(self).public_unknowns@ == old(self).public_unknowns@.remove(card.0 as int),
            final(self).my_hand_knowledge == old(self).my_hand_knowledge,
            final(self).fireworks == old(self).fireworks,
            final(self).discarded_cards == old(self).discarded_cards,
            final(self).hints_remaining == old(self).hints_remaining,
            final(self).last_hint_value == old(self).last_hint_value,
            final(self).last_hint_color == old(self).last_hint_color,
    {
        self.partner_hand.push(*card);
        self.partner_hand_knowledge.push(DeckSubset::new_full());
        self.public_unknowns.remove_card(*card);
    }

    /// Records a card that left a hand: played with success it raises its
    /// firework, else it goes to the discard pile.
    fn record_card(&mut self, card: Card, played: bool)
        requires
            old(self).inv(),
            card.wf(),
        ensures
            final(self).inv(),
            final(self).my_hand_knowledge == old(self).my_hand_knowledge,
            final(self).partner_hand == old(self).partner_hand,
            final(self).partner_hand_knowledge == old(self).partner_hand_knowledge,
            final(self).hints_remaining == old(self).hints_remaining,
            final(self).last_hint_value == old(self).last_hint_value,
            final(self).last_hint_color == old(self).last_hint_color,
            final(self).fireworks@ == fireworks_after(old(self).fireworks@, card, played),
            final(self).discarded_cards@ == if played {
                old(self).discarded_cards@
            } else {
                old(self).discarded_cards@.push(card)
            },
            final(self).public_unknowns@ == old(self).public_unknowns@.remove(card.0 as int),
    {
        if played {
            let s = card.color_index();
            if self.fireworks[s] < 5 {
                self.fireworks[s] = self.fireworks[s] + 1;
            }
        } else {
            self.discarded_cards.push(card);
        }
        self.public_unknowns.remove_card(card);
        assert(self.fireworks@ =~= fireworks_after(old(self).fireworks@, card, played));
    }

    /// Learns the result of the agent's own move. A played or discarded slot
    /// leaves the hand and a fresh one comes in if a card was drawn; the card is
    /// recorded on the board or in the discard pile; a hint narrows what the
    /// partner knows of every slot and is remembered as the latest hint.
    pub fn update_after_own_move(&mut self, mv: &Move, mv_result: &MoveResult, got_new_card: bool)
        requires
            old(self).inv(),
            move_wf(*mv),
            result_wf(*mv_result),
        ensures
            final(self).inv(),
            match *mv {
                Move::Play(idx) | Move::Discard(idx) => {
                    &&& final(self).my_hand_knowledge@ == after_leave(
                        old(self).my_hand_knowledge@,
                        idx,
                        got_new_card,
                    )
                    &&& final(self).partner_hand == old(self).partner_hand
                    &&& final(self).partner_hand_knowledge == old(self).partner_hand_knowledge
                    &&& final(self).last_hint_value == old(self).last_hint_value
                    &&& final(self).last_hint_color == old(self).last_hint_color
                    &&& match *mv_result {
                        MoveResult::Play(success, card, _) => {
                            &&& final(self).fireworks@ == fireworks_after(old(self).fireworks@, card, success)
                            &&& final(self).discarded_cards@ == if success {
                                old(self).discarded_cards@
                            } else {
                                old(self).discarded_cards@.push(card)
                            }
                            &&& final(self).public_unknowns@ == old(self).public_unknowns@.remove(card.0 as int)
                            &&& final(self).hints_remaining == old(self).hints_remaining
                        },
                        MoveResult::Discard(card, _) => {
                            &&& final(self).fireworks == old(self).fireworks
                            &&& final(self).discarded_cards@ == old(self).discarded_cards@.push(card)
                            &&& final(self).public_unknowns@ == old(self).public_unknowns@.remove(card.0 as int)
                            &&& final(self).hints_remaining == hints_after_discard(old(self).hints_remaining)
                        },
                        MoveResult::Hint(_) => {
                            &&& final(self).fireworks == old(self).fireworks
                            &&& final(self).discarded_cards == old(self).discarded_cards
                            &&& final(self).public_unknowns == old(self).public_unknowns
                            &&& final(self).hints_remaining == old(self).hints_remaining
                        },
                    }
                },
                _ => {
                    &&& final(self).hints_remaining == hints_after_hint(old(self).hints_remaining)
                    &&& final(self).last_hint_value == (match *mv {
                        Move::HintValue(v) => Some(v),
                        _ => None,
                    })
                    &&& final(self).last_hint_color == (match *mv {
                        Move::HintColor(c) => Some(c),
                        _ => None,
                    })
                    &&& final(self).my_hand_knowledge == old(self).my_hand_knowledge
                    &&& final(self).partner_hand == old(self).partner_hand
                    &&& final(self).fireworks == old(self).fireworks
                    &&& final(self).discarded_cards == old(self).discarded_cards
                    &&& final(self).public_unknowns == old(self).public_unknowns
                    &&& final(self).partner_hand_knowledge@.len() == old(self).partner_hand_knowledge@.len()
                    &&& forall|i: int|
                        0 <= i < old(self).partner_hand_knowledge@.len() ==> (
                        #[trigger] final(self).partner_hand_knowledge@[i])@ == narrowed(
                            old(self).partner_hand_knowledge@[i]@,
                            *mv,
                            touched_slots(old(self).partner_hand@, *mv).contains(i as usize),
                        )
                },
            },
    {
        match mv {
            Move::Play(idx) | Move::Discard(idx) => {
                leave_slot(&mut self.my_hand_knowledge, *idx, got_new_card);
                match mv_result {
                    MoveResult::Play(success, card, _) => {
                        self.record_card(*card, *success);
                    },
                    MoveResult::Discard(card, _) => {
                        self.record_card(*card, false);
                        if self.hints_remaining < 8 {
                            self.hints_remaining = self.hints_remaining + 1;
                        }
                    },
                    MoveResult::Hint(_) => {},
                }
            },
            Move::HintColor(c) => {
                if self.hints_remaining > 0 {
                    self.hints_remaining = self.hints_remaining - 1;
                }
                self.last_hint_color = Some(*c);
                self.last_hint_value = None;
                let hinted = hinted_indices(&self.partner_hand, *mv);
                narrow_hand(&mut self.partner_hand_knowledge, *mv, &hinted);
            },
            Move::HintValue(v) => {
                if self.hints_remaining > 0 {
                    self.hints_remaining = self.hints_remaining - 1;
                }
                self.last_hint_value = Some(*v);
                self.last_hint_color = None;
                let hinted = hinted_indices(&self.partner_hand, *mv);
                narrow_hand(&mut self.partner_hand_knowledge, *mv, &hinted);
            },
        }
    }

    /// Learns the partner's move. A played or discarded slot leaves the
    /// partner's hand, its card is recorded on the board or in the discard pile,
    /// and the drawn card comes into view; a hint narrows what the agent knows of
    /// every slot of its own hand.
    pub fn update_after_other_player_move(&mut self, mv: &Move, mv_result: &MoveResult)
        requires
            old(self).inv(),
            move_wf(*mv),
            result_wf(*mv_result),
        ensures
            final(self).inv(),
            match *mv {
                Move::Play(idx) | Move::Discard(idx) => {
                    &&& final(self).my_hand_knowledge == old(self).my_hand_knowledge
                    &&& final(self).last_hint_value == old(self).last_hint_value
                    &&& final(self).last_hint_color == old(self).last_hint_color
                    &&& (idx < old(self).partner_hand@.len() && !(mv_result is Hint)) ==> ({
                        let card = old(self).partner_hand@[idx as int];
                        let played = match *mv_result {
                            MoveResult::Play(success, _, _) => success,
                            _ => false,
                        };
                        let drawn = match *mv_result {
                            MoveResult::Play(_, _, d) => d,
                            MoveResult::Discard(_, d) => d,
                            _ => None,
                        };
                        &&& final(self).partner_hand@ == tracked_hand_after(old(self).partner_hand@, idx, drawn)
                        &&& final(self).partner_hand_knowledge@ == after_leave(
                            old(self).partner_hand_knowledge@,
                            idx,
                            drawn is Some,
                        )
                        &&& final(self).fireworks@ == fireworks_after(old(self).fireworks@, card, played)
                        &&& final(self).discarded_cards@ == if played {
                            old(self).discarded_cards@
                        } else {
                            old(self).discarded_cards@.push(card)
                        }
                        &&& final(self).public_unknowns@ == match drawn {
                            Some(c) => old(self).public_unknowns@.remove(card.0 as int).remove(c.0 as int),
                            None => old(self).public_unknowns@.remove(card.0 as int),
                        }
                        &&& final(self).hints_remaining == if mv_result is Discard {
                            hints_after_discard(old(self).hints_remaining)
                        } else {
                            old(self).hints_remaining
                        }
                    })
                    &&& (idx >= old(self).partner_hand@.len() || mv_result is Hint) ==> (
                        *final(self) == *old(self))
                },
                _ => {
                    &&& final(self).hints_remaining == hints_after_hint(old(self).hints_remaining)
                    &&& final(self).partner_hand == old(self).partner_hand
                    &&& final(self).partner_hand_knowledge == old(self).partner_hand_knowledge
                    &&& final(self).fireworks == old(self).fireworks
                    &&& final(self).discarded_cards == old(self).discarded_cards
                    &&& final(self).public_unknowns == old(self).public_unknowns
                    &&& final(self).my_hand_knowledge@.len() == old(self).my_hand_knowledge@.len()
                    &&& forall|i: int|
                        0 <= i < old(self).my_hand_knowledge@.len() ==> (
                        #[trigger] final(self).my_hand_knowledge@[i])@ == match *mv_result {
                            MoveResult::Hint(indices) => narrowed(
                                old(self).my_hand_knowledge@[i]@,
                                *mv,
                                indices@.contains(i as usize),
                            ),
                            _ => old(self).my_hand_knowledge@[i]@,
                        }
                },
            },
    {
        match mv {
            Move::Play(idx) | Move::Discard(idx) => {
                if *idx < self.partner_hand.len() {
                    match mv_result {
                        MoveResult::Play(success, _, drawn) => {
                            let card = self.partner_hand.remove(*idx);
                            self.partner_hand_knowledge.remove(*idx);
                            self.record_card(card, *success);
                            if let Some(c) = drawn {
                                self.see(c);
                            }
                        },
                        MoveResult::Discard(_, drawn) => {
                            let card = self.partner_hand.remove(*idx);
                            self.partner_hand_knowledge.remove(*idx);
                            self.record_card(card, false);
                            if self.hints_remaining < 8 {
                                self.hints_remaining = self.hints_remaining + 1;
                            }
                            if let Some(c) = drawn {
                                self.see(c);
                            }
                        },
                        MoveResult::Hint(_) => {},
                    }
                }
            },
            _ => {
                if self.hints_remaining > 0 {
                    self.hints_remaining = self.hints_remaining - 1;
                }
                if let MoveResult::Hint(indices) = mv_result {
                    narrow_hand(&mut self.my_hand_knowledge, *mv, indices);
                }
            },
        }
    }
}

proof fn lemma_product_bound(a: int, b: int)
    requires
        0 <= a <= 999,
        0 <= b <= 50,
    ensures
        a * b <= 49950,
{
    assert(a * b <= 999 * 50) by (nonlinear_arith)
        requires
            0 <= a <= 999,
            0 <= b <= 50,
    ;
}

impl Strategy for ChatGPT {
    open spec fn wf(&self) -> bool {
        self.inv()
    }

    fn initialize(&mut self, other_player_hand: &Vec<Card>)
        ensures
            final(self).hints_remaining == 8,
            final(self).fireworks@ == seq![0u8, 0u8, 0u8, 0u8, 0u8],
            final(self).discarded_cards@.len() == 0,
            final(self).my_hand_knowledge@.len() == 5,
            forall|i: int| 0 <= i < 5 ==> (#[trigger] final(self).my_hand_knowledge@[i])@ == universe(),
            final(self).partner_hand@ == other_player_hand@,
            final(self).partner_hand_knowledge@.len() == other_player_hand@.len(),
            forall|i: int|
                0 <= i < other_player_hand@.len() ==> (
                #[trigger] final(self).partner_hand_knowledge@[i])@ == universe(),
            final(self).public_unknowns@ == unseen_except(
                other_player_hand@,
                other_player_hand@.len() as int,
            ),
    {
        self.hints_remaining = 8;
        self.fireworks = [0u8; 5];
        self.public_unknowns = DeckSubset::new_full();
        self.discarded_cards = Vec::new();
        assert(self.fireworks@ =~= seq![0u8, 0u8, 0u8, 0u8, 0u8]);
        let mut know: Vec<DeckSubset> = Vec::new();
        let mut i: usize = 0;
        while i < 5
            invariant
                i <= 5,
                know@.len() == i,
                knowledge_wf(know@),
                forall|j: int| 0 <= j < i ==> (#[trigger] know@[j])@ == universe(),
            decreases 5 - i,
        {
            know.push(DeckSubset::new_full());
            i = i + 1;
        }
        self.my_hand_knowledge = know;
        self.partner_hand = Vec::new();
        self.partner_hand_knowledge = Vec::new();
        let full = DeckSubset::new_full();
        assert(self.public_unknowns@ =~= unseen_except(other_player_hand@, 0));
        let mut k: usize = 0;
        while k < other_player_hand.len()
            invariant
                k <= other_player_hand@.len(),
                hand_wf(other_player_hand@),
                self.inv(),
                self.hints_remaining == 8,
                self.fireworks@ == seq![0u8, 0u8, 0u8, 0u8, 0u8],
                self.discarded_cards@.len() == 0,
                self.my_hand_knowledge@.len() == 5,
                forall|j: int| 0 <= j < 5 ==> (#[trigger] self.my_hand_knowledge@[j])@ == universe(),
                self.partner_hand@ == other_player_hand@.subrange(0, k as int),
                self.partner_hand_knowledge@.len() == k,
                forall|j: int| 0 <= j < k ==> (#[trigger] self.partner_hand_knowledge@[j])@ == universe(),
                self.public_unknowns@ == unseen_except(other_player_hand@, k as int),
                full.0 == UNIVERSE_MASK,
                full@ == universe(),
            decreases other_player_hand@.len() - k,
        {
            self.see(&other_player_hand[k]);
            proof {
                lemma_unseen_step(other_player_hand@, k as int);
                assert(self.partner_hand@ =~= other_player_hand@.subrange(0, k + 1));
                assert(self.partner_hand_knowledge@[k as int] == full);
            }
            k = k + 1;
        }
        assert(self.partner_hand@ =~= other_player_hand@);
    }

    fn decide_move(&mut self) -> (r: Move)
        ensures
            *final(self) == *old(self),
            move_wf(r),
            (exists|i: int| old(self).slot_certainly_playable(i)) ==> (r matches Move::Play(i)
                && old(self).slot_certainly_playable(i as int) && forall|j: int|
                i < j ==> !#[trigger] old(self).slot_certainly_playable(j)),
            r matches Move::Play(i) ==> old(self).slot_certainly_playable(i as int),
            old(self).my_hand_knowledge@.len() > 0 ==> move_allowed(
                old(self).my_hand_knowledge@.len() as int,
                old(self).hints_remaining as int,
                old(self).partner_hand@,
                r,
            ),
    {
        self.choose_move()
    }

    fn update_after_own_move(&mut self, mv: &Move, mv_result: &MoveResult, got_new_card: bool) {
        ChatGPT::update_after_own_move(self, mv, mv_result, got_new_card)
    }

    fn update_after_other_player_move(&mut self, mv: &Move, mv_result: &MoveResult) {
        ChatGPT::update_after_other_player_move(self, mv, mv_result)
    }
}

} // verus!
