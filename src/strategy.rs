use vstd::prelude::*;
use crate::card::Card;
use crate::enums::{Move, MoveResult};
use crate::hint::hand_wf;

verus! {

/// A move whose fields are in range: a value hint names a value from 1 to 5.
pub open spec fn move_wf(mv: Move) -> bool {
    match mv {
        Move::HintValue(v) => 1 <= v <= 5,
        _ => true,
    }
}

/// A move result whose cards are card identities of the deck.
pub open spec fn result_wf(r: MoveResult) -> bool {
    match r {
        MoveResult::Play(_, c, d) => c.wf() && (d matches Some(x) ==> x.wf()),
        MoveResult::Discard(c, d) => c.wf() && (d matches Some(x) ==> x.wf()),
        MoveResult::Hint(_) => true,
    }
}

/// An agent that plays one seat of a game. The game calls `initialize` once after
/// dealing, `decide_move` on the agent's turn, and one of the two update methods
/// after every move. A conforming agent returns only moves that are legal.
pub trait Strategy {
    /// The agent's own consistency condition, which every method keeps. An agent
    /// that needs none keeps this default.
    open spec fn wf(&self) -> bool {
        true
    }

    /// Receives the partner's hand as dealt.
    fn initialize(&mut self, other_player_hand: &Vec<Card>)
        requires
            old(self).wf(),
            hand_wf(other_player_hand@),
        ensures
            final(self).wf(),
    ;

    /// Chooses the next move.
    fn decide_move(&mut self) -> (r: Move)
        requires
            old(self).wf(),
        ensures
            final(self).wf(),
    ;

    /// Learns the result of its own move. A drawn card is not shown to the mover:
    /// `got_new_card` only says whether one was drawn.
    fn update_after_own_move(&mut self, mv: &Move, mv_result: &MoveResult, got_new_card: bool)
        requires
            old(self).wf(),
            move_wf(*mv),
            result_wf(*mv_result),
        ensures
            final(self).wf(),
    ;

    /// Learns the partner's move and its result, including the card the partner drew.
    fn update_after_other_player_move(&mut self, mv: &Move, mv_result: &MoveResult)
        requires
            old(self).wf(),
            move_wf(*mv),
            result_wf(*mv_result),
        ensures
            final(self).wf(),
    ;
}

} // verus!
