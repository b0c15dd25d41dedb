use vstd::prelude::*;
use crate::card::Card;
use crate::deck::Deck;

verus! {

/// A seat of the game: the hand it holds and the agent that plays it.
pub struct Player<S> {
    pub hand: Vec<Card>,
    pub strategy: S,
}

impl<S> Player<S> {
    /// A seat with an empty hand.
    pub fn new(strategy: S) -> (r: Player<S>)
        ensures
            r.hand@.len() == 0,
            r.strategy == strategy,
    {
        Player { hand: Vec::new(), strategy }
    }

    /// Moves the card at the end of the draw pile to the end of the hand, if the
    /// pile is not empty.
    pub fn draw(&mut self, deck: &mut Deck) -> (r: Option<Card>)
        ensures
            final(self).strategy == old(self).strategy,
            old(deck).cards@.len() == 0 ==> r is None && final(self).hand@ == old(self).hand@
                && final(deck).cards@ == old(deck).cards@,
            old(deck).cards@.len() > 0 ==> r == Some(old(deck).cards@.last()) && final(self).hand@
                == old(self).hand@.push(old(deck).cards@.last()) && final(deck).cards@ == old(
                deck,
            ).cards@.drop_last(),
    {
        let drawn = deck.draw();
        match drawn {
            Some(c) => {
                self.hand.push(c);
            },
            None => {},
        }
        drawn
    }
}

} // verus!
