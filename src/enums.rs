use vstd::prelude::*;
use crate::card::Card;

verus! {

/// The five suits of the game.
#[derive(Debug, Clone, Copy, PartialEq, Eq, Structural)]
pub enum Color {
    Red,
    Green,
    Blue,
    Yellow,
    White,
}

/// The position of a suit in the fixed suit order, 0 to 4.
pub open spec fn color_index_spec(c: Color) -> int {
    match c {
        Color::Red => 0,
        Color::Green => 1,
        Color::Blue => 2,
        Color::Yellow => 3,
        Color::White => 4,
    }
}

/// The suit at a position of the fixed suit order.
pub open spec fn color_at(i: int) -> Color {
    if i == 0 {
        Color::Red
    } else if i == 1 {
        Color::Green
    } else if i == 2 {
        Color::Blue
    } else if i == 3 {
        Color::Yellow
    } else {
        Color::White
    }
}

impl Color {
    /// The position of this suit in the fixed suit order.
    pub fn index(&self) -> (r: usize)
        ensures
            r as int == color_index_spec(*self),
            r < 5,
    {
        match self {
            Color::Red => 0,
            Color::Green => 1,
            Color::Blue => 2,
            Color::Yellow => 3,
            Color::White => 4,
        }
    }

    /// The suit at position `i` of the fixed suit order.
    pub fn from_index(i: usize) -> (r: Color)
        requires
            i < 5,
        ensures
            color_index_spec(r) == i,
            r == color_at(i as int),
    {
        if i == 0 {
            Color::Red
        } else if i == 1 {
            Color::Green
        } else if i == 2 {
            Color::Blue
        } else if i == 3 {
            Color::Yellow
        } else {
            Color::White
        }
    }
}

/// A move of the player whose turn it is. Slot indices address the mover's
/// own hand; hints are given about the partner's hand.
#[derive(Debug, Clone, Copy, PartialEq, Eq, Structural)]
pub enum Move {
    Play(usize),
    Discard(usize),
    HintColor(Color),
    HintValue(u8),
}

/// What a move brought about.
#[derive(Debug, Clone)]
pub enum MoveResult {
    /// Whether the play succeeded, the card played, and the card drawn if any.
    Play(bool, Card, Option<Card>),
    /// The card discarded, and the card drawn if any.
    Discard(Card, Option<Card>),
    /// The slots of the partner's hand that the hint touched, in increasing order.
    Hint(Vec<usize>),
}

} // verus!
