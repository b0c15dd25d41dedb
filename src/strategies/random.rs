use vstd::prelude::*;
use rand::seq::IndexedRandom;
use crate::card::Card;
use crate::enums::{Move, MoveResult};
use crate::game::{legal_moves_for, move_allowed};
use crate::hint::hand_wf;
use crate::strategy::{Strategy, result_wf};
use crate::board::{hints_after_discard, hints_after_hint, tracked_hand_after, replace_slot};

verus! {

/// Relies on rand's `IndexedRandom::choose`: `None` for an empty slice, else
/// one of its elements.
#[verifier::external_body]
pub(crate) fn choose_random(moves: &Vec<Move>) -> (r: Option<Move>)
    ensures
        moves@.len() == 0 <==> r is None,
        r matches Some(m) ==> moves@.contains(m),
{
    moves.choose(&mut rand::rng()).copied()
}

/// An agent that picks uniformly among the moves it knows to be legal.
pub struct RandomStrategy {
    pub hints_remaining: u8,
    pub own_hand_size: u8,
    pub other_players_hand: Vec<Card>,
}

impl RandomStrategy {
    pub fn new() -> (r: RandomStrategy)
        ensures
            r.hints_remaining == 8,
            r.own_hand_size == 5,
            r.other_players_hand@.len() == 0,
    {
        RandomStrategy { hints_remaining: 8, own_hand_size: 5, other_players_hand: Vec::new() }
    }

    /// The moves legal by the agent's own record: a play and a discard for each
    /// slot, and the hints that name a card of the partner's hand while a token is left.
    pub fn possible_moves(&self) -> (r: Vec<Move>)
        requires
            hand_wf(self.other_players_hand@),
        ensures
            forall|mv: Move| #[trigger]
                r@.contains(mv) <==> move_allowed(
                    self.own_hand_size as int,
                    self.hints_remaining as int,
                    self.other_players_hand@,
                    mv,
                ),
    {
        legal_moves_for(self.own_hand_size as usize, self.hints_remaining, &self.other_players_hand)
    }
}

impl RandomStrategy {
    /// Learns the result of its own move: a play or discard without a drawn card
    /// shrinks the hand, a discard regains a token and a hint spends one.
    pub fn update_after_own_move(&mut self, mv: &Move, mv_result: &MoveResult, got_new_card: bool)
        ensures
            final(self).other_players_hand == old(self).other_players_hand,
            final(self).own_hand_size == if !(mv is HintColor || mv is HintValue) && !got_new_card
                && old(self).own_hand_size > 0 {
                (old(self).own_hand_size - 1) as u8
            } else {
                old(self).own_hand_size
            },
            final(self).hints_remaining == match *mv {
                Move::Play(_) => old(self).hints_remaining,
                Move::Discard(_) => hints_after_discard(old(self).hints_remaining),
                _ => hints_after_hint(old(self).hints_remaining),
            },
    {
        match mv {
            Move::Play(_) => {
                if !got_new_card && self.own_hand_size > 0 {
                    self.own_hand_size = self.own_hand_size - 1;
                }
            },
            Move::Discard(_) => {
                if !got_new_card && self.own_hand_size > 0 {
                    self.own_hand_size = self.own_hand_size - 1;
                }
                if self.hints_remaining < 8 {
                    self.hints_remaining = self.hints_remaining + 1;
                }
            },
            _ => {
                if self.hints_remaining > 0 {
                    self.hints_remaining = self.hints_remaining - 1;
                }
            },
        }
    }

    /// Learns the partner's move: a played or discarded card leaves the tracked
    /// hand and the drawn card joins it; a discard regains a token and a hint
    /// spends one.
    pub fn update_after_other_player_move(&mut self, mv: &Move, mv_result: &MoveResult)
        requires
            hand_wf(old(self).other_players_hand@),
            result_wf(*mv_result),
        ensures
            hand_wf(final(self).other_players_hand@),
            final(self).own_hand_size == old(self).own_hand_size,
            final(self).other_players_hand@ == match (*mv, *mv_result) {
                (Move::Play(idx), MoveResult::Play(_, _, drawn)) => tracked_hand_after(
                    old(self).other_players_hand@,
                    idx,
                    drawn,
                ),
                (Move::Discard(idx), MoveResult::Discard(_, drawn)) => tracked_hand_after(
                    old(self).other_players_hand@,
                    idx,
                    drawn,
                ),
                _ => old(self).other_players_hand@,
            },
            final(self).hints_remaining == match *mv {
                Move::Play(_) => old(self).hints_remaining,
                Move::Discard(_) => hints_after_discard(old(self).hints_remaining),
                _ => hints_after_hint(old(self).hints_remaining),
            },
    {
        match mv {
            Move::Play(card_index) => {
                if let MoveResult::Play(_, _, drawn) = mv_result {
                    replace_slot(&mut self.other_players_hand, *card_index, *drawn);
                }
            },
            Move::Discard(card_index) => {
                if let MoveResult::Discard(_, drawn) = mv_result {
                    replace_slot(&mut self.other_players_hand, *card_index, *drawn);
                }
                if self.hints_remaining < 8 {
                    self.hints_remaining = self.hints_remaining + 1;
                }
            },
            _ => {
                if self.hints_remaining > 0 {
                    self.hints_remaining = self.hints_remaining - 1;
                }
            },
        }
    }
}

impl RandomStrategy {
    /// One of the possible moves at random. Where the agent knows of none it
    /// discards the first slot.
    pub fn choose_move(&self) -> (r: Move)
        requires
            hand_wf(self.other_players_hand@),
        ensures
            (exists|m: Move|
                move_allowed(
                    self.own_hand_size as int,
                    self.hints_remaining as int,
                    self.other_players_hand@,
                    m,
                )) ==> move_allowed(
                self.own_hand_size as int,
                self.hints_remaining as int,
                self.other_players_hand@,
                r,
            ),
    {
        let possible_moves = self.possible_moves();
        match choose_random(&possible_moves) {
            Some(mv) => mv,
            None => {
                proof {
                    if exists|m: Move|
                        move_allowed(
                            self.own_hand_size as int,
                            self.hints_remaining as int,
                            self.other_players_hand@,
                            m,
                        ) {
                        let m = choose|m: Move|
                            move_allowed(
                                self.own_hand_size as int,
                                self.hints_remaining as int,
                                self.other_players_hand@,
                                m,
                            );
                        assert(possible_moves@.contains(m));
                    }
                }
                Move::Discard(0)
            },
        }
    }
}

impl Strategy for RandomStrategy {
    open spec fn wf(&self) -> bool {
        &&& self.hints_remaining <= 8
        &&& hand_wf(self.other_players_hand@)
    }

    fn initialize(&mut self, other_player_hand: &Vec<Card>)
        ensures
            final(self).other_players_hand@ == other_player_hand@,
            final(self).own_hand_size == 5,
            final(self).hints_remaining == 8,
    {
        self.own_hand_size = 5;
        self.other_players_hand = other_player_hand.clone();
        assert(self.other_players_hand@ =~= other_player_hand@);
        self.hints_remaining = 8;
    }

    fn decide_move(&mut self) -> (r: Move)
        ensures
            *final(self) == *old(self),
            (exists|m: Move|
                move_allowed(
                    old(self).own_hand_size as int,
                    old(self).hints_remaining as int,
                    old(self).other_players_hand@,
                    m,
                )) ==> move_allowed(
                old(self).own_hand_size as int,
                old(self).hints_remaining as int,
                old(self).other_players_hand@,
                r,
            ),
    {
        self.choose_move()
    }

    fn update_after_own_move(&mut self, mv: &Move, mv_result: &MoveResult, got_new_card: bool) {
        RandomStrategy::update_after_own_move(self, mv, mv_result, got_new_card)
    }

    fn update_after_other_player_move(&mut self, mv: &Move, mv_result: &MoveResult) {
        RandomStrategy::update_after_other_player_move(self, mv, mv_result)
    }
}

} // verus!
