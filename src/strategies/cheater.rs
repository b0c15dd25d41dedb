use vstd::prelude::*;
use crate::board::{fireworks_wf, is_playable, is_dead};
use crate::card::Card;
use crate::enums::{Move, MoveResult, color_at};
use crate::hint::hand_wf;
use crate::strategy::Strategy;

verus! {

/// How many times a card identity occurs in a sequence of cards.
pub open spec fn count_of(s: Seq<Card>, c: Card) -> nat
    decreases s.len(),
{
    if s.len() == 0 {
        0
    } else {
        count_of(s.drop_last(), c) + if s.last() == c {
            1nat
        } else {
            0nat
        }
    }
}

/// The danger of discarding `card`: 0 if its suit is past it, 1 if the hand holds
/// another copy, 2 if a copy is in the partner's hand or the pile, 3 otherwise.
pub open spec fn discard_danger(
    card: Card,
    my_hand: Seq<Card>,
    partner_hand: Seq<Card>,
    deck: Seq<Card>,
    fw: Seq<u8>,
) -> u8 {
    if card.value() <= fw[card.suit()] {
        0
    } else if count_of(my_hand, card) > 1 {
        1
    } else if count_of(partner_hand, card) + count_of(deck, card) > 0 {
        2
    } else {
        3
    }
}

/// The hint that only passes the turn: the color of the partner's first card,
/// or the value 1 where the partner holds nothing.
pub open spec fn stall_move(partner_hand: Seq<Card>) -> Move {
    if partner_hand.len() > 0 {
        Move::HintColor(color_at(partner_hand[0].suit()))
    } else {
        Move::HintValue(1)
    }
}

/// Whether some card of a hand extends its suit's firework.
pub open spec fn has_playable(hand: Seq<Card>, fw: Seq<u8>) -> bool {
    exists|i: int| 0 <= i < hand.len() && #[trigger] hand[i].value() == fw[hand[i].suit()] + 1
}

/// The whole table as the cheating agent sees it: both hands, the pile, the
/// fireworks and the hint tokens.
#[derive(Clone)]
pub struct CheatSharedState {
    pub my_hand: Vec<Card>,
    pub partner_hand: Vec<Card>,
    pub deck_cards: Vec<Card>,
    pub fireworks: [u8; 5],
    pub hints_remaining: u8,
}

impl CheatSharedState {
    pub open spec fn wf(&self) -> bool {
        &&& hand_wf(self.my_hand@)
        &&& hand_wf(self.partner_hand@)
        &&& hand_wf(self.deck_cards@)
        &&& fireworks_wf(self.fireworks@)
    }
}

/// What the cheating agent's choice on a table guarantees: the first playable
/// card is played; with no token and nothing playable it discards a slot of its
/// hand; it passes the turn with the stall hint when the pile is empty, the
/// tokens are full or the partner can play.
pub open spec fn cheater_choice(state: CheatSharedState, r: Move) -> bool {
    let hand = state.my_hand@;
    let fw = state.fireworks@;
    &&& has_playable(hand, fw) ==> (r matches Move::Play(i) && i < hand.len() && hand[i as int].value()
        == fw[hand[i as int].suit()] + 1 && forall|j: int|
        0 <= j < i ==> #[trigger] hand[j].value() != fw[hand[j].suit()] + 1)
    &&& (!has_playable(hand, fw) && state.hints_remaining == 0) ==> r is Discard
    &&& r is Discard ==> (r matches Move::Discard(i) && (hand.len() > 0 ==> i < hand.len()))
    &&& (!has_playable(hand, fw) && state.hints_remaining > 0 && (state.deck_cards@.len() == 0
        || state.hints_remaining == 8 || has_playable(state.partner_hand@, fw))) ==> r
        == stall_move(state.partner_hand@)
}

/// An agent that sees every card, its own included, through a snapshot of the
/// table that its driver refreshes before each of its moves.
pub struct Cheater {
    pub shared_state: CheatSharedState,
}

/// How many times `card` occurs in `cards`.
fn count_card(cards: &Vec<Card>, card: &Card) -> (r: usize)
    ensures
        r == count_of(cards@, *card),
{
    let mut n: usize = 0;
    let mut i: usize = 0;
    while i < cards.len()
        invariant
            i <= cards@.len(),
            n == count_of(cards@.subrange(0, i as int), *card),
            n <= i,
        decreases cards@.len() - i,
    {
        proof {
            assert(cards@.subrange(0, i + 1).drop_last() =~= cards@.subrange(0, i as int));
        }
        if cards[i] == *card {
            n = n + 1;
        }
        i = i + 1;
    }
    assert(cards@.subrange(0, cards@.len() as int) =~= cards@);
    n
}

impl Cheater {
    pub fn new(shared_state: CheatSharedState) -> (r: Cheater)
        ensures
            r.shared_state == shared_state,
    {
        Cheater { shared_state }
    }

    pub fn is_playable(card: &Card, fireworks: &[u8; 5]) -> (r: bool)
        requires
            card.wf(),
            fireworks_wf(fireworks@),
        ensures
            r == (card.value() == fireworks@[card.suit()] + 1),
    {
        is_playable(card, fireworks)
    }

    pub fn is_dead(card: &Card, fireworks: &[u8; 5]) -> (r: bool)
        requires
            card.wf(),
            fireworks_wf(fireworks@),
        ensures
            r == (card.value() <= fireworks@[card.suit()]),
    {
        is_dead(card, fireworks)
    }

    /// The danger of discarding `card`, from 0 (safe) to 3 (the last copy).
    pub fn get_discard_score(
        card: &Card,
        my_hand: &Vec<Card>,
        partner_hand: &Vec<Card>,
        deck: &Vec<Card>,
        fireworks: &[u8; 5],
    ) -> (r: u8)
        requires
            card.wf(),
            fireworks_wf(fireworks@),
        ensures
            r == discard_danger(*card, my_hand@, partner_hand@, deck@, fireworks@),
    {
        if Self::is_dead(card, fireworks) {
            return 0;
        }
        if count_card(my_hand, card) > 1 {
            return 1;
        }
        let in_partner = count_card(partner_hand, card);
        let in_deck = count_card(deck, card);
        if in_partner > 0 || in_deck > 0 {
            return 2;
        }
        3
    }

    /// The slot of `hand` that is safest to discard and its danger: the first
    /// slot of least danger, or slot 0 with danger 4 for an empty hand.
    pub fn find_best_discard(
        hand: &Vec<Card>,
        partner_hand: &Vec<Card>,
        deck: &Vec<Card>,
        fireworks: &[u8; 5],
    ) -> (r: (usize, u8))
        requires
            hand_wf(hand@),
            fireworks_wf(fireworks@),
        ensures
            hand@.len() == 0 ==> r == (0usize, 4u8),
            hand@.len() > 0 ==> {
                &&& r.0 < hand@.len()
                &&& r.1 == discard_danger(hand@[r.0 as int], hand@, partner_hand@, deck@, fireworks@)
                &&& forall|j: int|
                    0 <= j < hand@.len() ==> r.1 <= #[trigger] discard_danger(
                        hand@[j],
                        hand@,
                        partner_hand@,
                        deck@,
                        fireworks@,
                    )
                &&& forall|j: int|
                    0 <= j < r.0 ==> r.1 < #[trigger] discard_danger(
                        hand@[j],
                        hand@,
                        partner_hand@,
                        deck@,
                        fireworks@,
                    )
            },
    {
        let mut best_idx: usize = 0;
        let mut best_score: u8 = 4;
        let mut i: usize = 0;
        while i < hand.len()
            invariant
                i <= hand@.len(),
                hand_wf(hand@),
                fireworks_wf(fireworks@),
                best_score <= 4,
                i == 0 ==> best_idx == 0 && best_score == 4,
                i > 0 ==> best_idx < i && best_score == discard_danger(
                    hand@[best_idx as int],
                    hand@,
                    partner_hand@,
                    deck@,
                    fireworks@,
                ),
                forall|j: int|
                    0 <= j < i ==> best_score <= #[trigger] discard_danger(
                        hand@[j],
                        hand@,
                        partner_hand@,
                        deck@,
                        fireworks@,
                    ),
                forall|j: int|
                    0 <= j < best_idx ==> best_score < #[trigger] discard_danger(
                        hand@[j],
                        hand@,
                        partner_hand@,
                        deck@,
                        fireworks@,
                    ),
            decreases hand@.len() - i,
        {
            let score = Self::get_discard_score(&hand[i], hand, partner_hand, deck, fireworks);
            if score < best_score {
                best_score = score;
                best_idx = i;
            }
            i = i + 1;
        }
        (best_idx, best_score)
    }

    /// A hint that only passes the turn: the color of the partner's first card,
    /// or the value 1 where the partner holds nothing.
    pub fn get_stall_move(partner_hand: &Vec<Card>) -> (r: Move)
        requires
            hand_wf(partner_hand@),
        ensures
            r == stall_move(partner_hand@),
    {
        if partner_hand.len() > 0 {
            Move::HintColor(partner_hand[0].get_color())
        } else {
            Move::HintValue(1)
        }
    }

    /// The cheating agent's choice on a table: play a playable card; with no hint
    /// token, discard the safest card; with an empty pile, a full set of tokens or
    /// a partner who can play, pass the turn with a hint; otherwise discard if
    /// its safest discard is at most as dangerous as the partner's and not the
    /// last copy of a card, else pass the turn.
    pub fn choose_move(state: &CheatSharedState) -> (r: Move)
        requires
            state.wf(),
        ensures
            cheater_choice(*state, r),
    {
        let mut i: usize = 0;
        while i < state.my_hand.len()
            invariant
                i <= state.my_hand@.len(),
                state.wf(),
                forall|j: int|
                    0 <= j < i ==> #[trigger] state.my_hand@[j].value()
                        != state.fireworks@[state.my_hand@[j].suit()] + 1,
            decreases state.my_hand@.len() - i,
        {
            if Self::is_playable(&state.my_hand[i], &state.fireworks) {
                return Move::Play(i);
            }
            i = i + 1;
        }
        let (my_discard_idx, my_discard_score) = Self::find_best_discard(
            &state.my_hand,
            &state.partner_hand,
            &state.deck_cards,
            &state.fireworks,
        );
        if state.hints_remaining == 0 {
            return Move::Discard(my_discard_idx);
        }
        if state.deck_cards.len() == 0 || state.hints_remaining == 8 {
            return Self::get_stall_move(&state.partner_hand);
        }
        let mut partner_can_play = false;
        let mut k: usize = 0;
        while k < state.partner_hand.len()
            invariant
                k <= state.partner_hand@.len(),
                state.wf(),
                partner_can_play == exists|j: int|
                    0 <= j < k && #[trigger] state.partner_hand@[j].value()
                        == state.fireworks@[state.partner_hand@[j].suit()] + 1,
            decreases state.partner_hand@.len() - k,
        {
            if Self::is_playable(&state.partner_hand[k], &state.fireworks) {
                partner_can_play = true;
            }
            k = k + 1;
        }
        if partner_can_play {
            return Self::get_stall_move(&state.partner_hand);
        }
        let (_, partner_discard_score) = Self::find_best_discard(
            &state.partner_hand,
            &state.my_hand,
            &state.deck_cards,
            &state.fireworks,
        );
        if my_discard_score <= partner_discard_score && my_discard_score != 3 {
            Move::Discard(my_discard_idx)
        } else {
            Self::get_stall_move(&state.partner_hand)
        }
    }
}

impl Strategy for Cheater {
    open spec fn wf(&self) -> bool {
        self.shared_state.wf()
    }

    /// The snapshot already shows the partner's hand: nothing changes.
    fn initialize(&mut self, _other_player_hand: &Vec<Card>)
        ensures
            *final(self) == *old(self),
    {
    }

    fn decide_move(&mut self) -> (r: Move)
        ensures
            *final(self) == *old(self),
            cheater_choice(old(self).shared_state, r),
    {
        Self::choose_move(&self.shared_state)
    }

    fn update_after_own_move(&mut self, _mv: &Move, _res: &MoveResult, _new: bool) {
    }

    fn update_after_other_player_move(&mut self, _mv: &Move, _res: &MoveResult) {
    }
}

} // verus!
