use vstd::prelude::*;
use crate::card::Card;
use crate::enums::{Move, MoveResult};
use crate::hint::hand_wf;
use crate::strategies::random::choose_random;
use crate::strategy::{Strategy, result_wf};
use crate::board::{hints_after_discard, hints_after_hint, tracked_hand_after, replace_slot};

verus! {

/// An agent that only ever plays, choosing a slot of its hand at random.
pub struct RandomOnlyPlay {
    pub hints_remaining: u8,
    pub own_hand_size: u8,
    pub other_players_hand: Vec<Card>,
}

impl RandomOnlyPlay {
    pub fn new() -> (r: RandomOnlyPlay)
        ensures
            r.hints_remaining == 8,
            r.own_hand_size == 5,
            r.other_players_hand@.len() == 0,
    {
        RandomOnlyPlay { hints_remaining: 8, own_hand_size: 5, other_players_hand: Vec::new() }
    }

    /// A play for each slot of the agent's hand, in slot order.
    pub fn possible_moves(&self) -> (r: Vec<Move>)
        ensures
            r@.len() == self.own_hand_size,
            forall|i: int| 0 <= i < r@.len() ==> #[trigger] r@[i] == Move::Play(i as usize),
    {
        let mut moves: Vec<Move> = Vec::new();
        let mut card_index: u8 = 0;
        while card_index < self.own_hand_size
            invariant
                card_index <= self.own_hand_size,
                moves@.len() == card_index,
                forall|i: int| 0 <= i < moves@.len() ==> #[trigger] moves@[i] == Move::Play(i as usize),
            decreases self.own_hand_size - card_index,
        {
            moves.push(Move::Play(card_index as usize));
            card_index = card_index + 1;
        }
        moves
    }
}

impl RandomOnlyPlay {
    /// Learns the result of its own move: a play or discard without a drawn card
    /// shrinks the hand, a discard regains a token and a hint spends one.
    pub fn update_after_own_move(&mut self, mv: &Move, mv_result: &MoveResult, got_new_card: bool)
        ensures
            final(self).other_players_hand == old(self).other_players_hand,
            final(self).own_hand_size == if !(mv is HintColor || mv is HintValue) && !got_new_card
                && old(self).own_hand_size > 0 {
                (old(self).own_hand_size - 1) as u8
            } else {
                old(self).own_hand_size
            },
            final(self).hints_remaining == match *mv {
                Move::Play(_) => old(self).hints_remaining,
                Move::Discard(_) => hints_after_discard(old(self).hints_remaining),
                _ => hints_after_hint(old(self).hints_remaining),
            },
    {
        match mv {
            Move::Play(_) => {
                if !got_new_card && self.own_hand_size > 0 {
                    self.own_hand_size = self.own_hand_size - 1;
                }
            },
            Move::Discard(_) => {
                if !got_new_card && self.own_hand_size > 0 {
                    self.own_hand_size = self.own_hand_size - 1;
                }
                if self.hints_remaining < 8 {
                    self.hints_remaining = self.hints_remaining + 1;
                }
            },
            _ => {
                if self.hints_remaining > 0 {
                    self.hints_remaining = self.hints_remaining - 1;
                }
            },
        }
    }

    /// Learns the partner's move: a played or discarded card leaves the tracked
    /// hand and the drawn card joins it; a discard regains a token and a hint
    /// spends one.
    pub fn update_after_other_player_move(&mut self, mv: &Move, mv_result: &MoveResult)
        requires
            hand_wf(old(self).other_players_hand@),
            result_wf(*mv_result),
        ensures
            hand_wf(final(self).other_players_hand@),
            final(self).own_hand_size == old(self).own_hand_size,
            final(self).other_players_hand@ == match (*mv, *mv_result) {
                (Move::Play(idx), MoveResult::Play(_, _, drawn)) => tracked_hand_after(
                    old(self).other_players_hand@,
                    idx,
                    drawn,
                ),
                (Move::Discard(idx), MoveResult::Discard(_, drawn)) => tracked_hand_after(
                    old(self).other_players_hand@,
                    idx,
                    drawn,
                ),
                _ => old(self).other_players_hand@,
            },
            final(self).hints_remaining == match *mv {
                Move::Play(_) => old(self).hints_remaining,
                Move::Discard(_) => hints_after_discard(old(self).hints_remaining),
                _ => hints_after_hint(old(self).hints_remaining),
            },
    {
        match mv {
            Move::Play(card_index) => {
                if let MoveResult::Play(_, _, drawn) = mv_result {
                    replace_slot(&mut self.other_players_hand, *card_index, *drawn);
                }
            },
            Move::Discard(card_index) => {
                if let MoveResult::Discard(_, drawn) = mv_result {
                    replace_slot(&mut self.other_players_hand, *card_index, *drawn);
                }
                if self.hints_remaining < 8 {
                    self.hints_remaining = self.hints_remaining + 1;
                }
            },
            _ => {
                if self.hints_remaining > 0 {
                    self.hints_remaining = self.hints_remaining - 1;
                }
            },
        }
    }
}

impl RandomOnlyPlay {
    /// A random slot of the agent's hand to play; the first slot where the
    /// hand is empty.
    pub fn choose_move(&self) -> (r: Move)
        ensures
            r matches Move::Play(i) && (self.own_hand_size > 0 ==> i < self.own_hand_size),
    {
        let possible_moves = self.possible_moves();
        match choose_random(&possible_moves) {
            Some(mv) => {
                proof {
                    let k = choose|k: int| 0 <= k < possible_moves@.len() && possible_moves@[k] == mv;
                }
                mv
            },
            None => Move::Play(0),
        }
    }
}

impl Strategy for RandomOnlyPlay {
    open spec fn wf(&self) -> bool {
        &&& self.hints_remaining <= 8
        &&& hand_wf(self.other_players_hand@)
    }

    fn initialize(&mut self, other_player_hand: &Vec<Card>)
        ensures
            final(self).other_players_hand@ == other_player_hand@,
            final(self).own_hand_size == 5,
            final(self).hints_remaining == 8,
    {
        self.own_hand_size = 5;
        self.other_players_hand = other_player_hand.clone();
        assert(self.other_players_hand@ =~= other_player_hand@);
        self.hints_remaining = 8;
    }

    fn decide_move(&mut self) -> (r: Move)
        ensures
            *final(self) == *old(self),
            r matches Move::Play(i) && (old(self).own_hand_size > 0 ==> i < old(self).own_hand_size),
    {
        self.choose_move()
    }

    fn update_after_own_move(&mut self, mv: &Move, mv_result: &MoveResult, got_new_card: bool) {
        RandomOnlyPlay::update_after_own_move(self, mv, mv_result, got_new_card)
    }

    fn update_after_other_player_move(&mut self, mv: &Move, mv_result: &MoveResult) {
        RandomOnlyPlay::update_after_other_player_move(self, mv, mv_result)
    }
}

} // verus!
