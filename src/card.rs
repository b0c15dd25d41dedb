use vstd::prelude::*;
use crate::enums::{Color, color_index_spec, color_at};

verus! {

/// Number of distinct card identities: five suits of ten cards each.
pub const DECK_SIZE: u8 = 50;

/// The value (1 to 5) of a card identity: the units digit of the identity
/// maps 0-2 to 1, 3-4 to 2, 5-6 to 3, 7-8 to 4 and 9 to 5.
pub open spec fn value_of(id: int) -> int {
    let b = id % 10;
    if b <= 2 {
        1
    } else if b <= 4 {
        2
    } else if b <= 6 {
        3
    } else if b <= 8 {
        4
    } else {
        5
    }
}

/// The suit position (0 to 4) of a card identity: its tens digit.
pub open spec fn suit_of(id: int) -> int {
    id / 10
}

/// How many cards of a value each suit holds: three 1s, two each of 2 to 4, one 5.
pub open spec fn copies_of_value(v: int) -> int {
    if v == 1 {
        3
    } else if 2 <= v <= 4 {
        2
    } else if v == 5 {
        1
    } else {
        0
    }
}

/// A card, encoded as `suit * 10 + bucket`, where the bucket selects the value.
/// The 50 identities below `DECK_SIZE` are the 50 physical cards.
#[derive(Copy, Clone, Debug, PartialEq, Eq, Structural)]
pub struct Card(pub u8);

impl Card {
    /// A card identity of the deck.
    pub open spec fn wf(self) -> bool {
        self.0 < 50
    }

    pub open spec fn suit(self) -> int {
        suit_of(self.0 as int)
    }

    pub open spec fn value(self) -> int {
        value_of(self.0 as int)
    }

    pub fn new(encoded: u8) -> (r: Card)
        ensures
            r.0 == encoded,
    {
        Card(encoded)
    }

    /// The card of identity `encoded`, or `None` where no card has it.
    pub fn decode(encoded: u8) -> (r: Option<Card>)
        ensures
            encoded < 50 ==> r == Some(Card(encoded)),
            encoded >= 50 ==> r is None,
    {
        if encoded < DECK_SIZE {
            Some(Card(encoded))
        } else {
            None
        }
    }

    pub fn get_color(&self) -> (r: Color)
        requires
            self.wf(),
        ensures
            color_index_spec(r) == self.suit(),
            r == color_at(self.suit()),
    {
        let s = self.0 / 10;
        if s == 0 {
            Color::Red
        } else if s == 1 {
            Color::Green
        } else if s == 2 {
            Color::Blue
        } else if s == 3 {
            Color::Yellow
        } else {
            Color::White
        }
    }

    /// The suit position of this card, 0 to 4.
    pub fn color_index(&self) -> (r: usize)
        requires
            self.wf(),
        ensures
            r as int == self.suit(),
            r < 5,
    {
        (self.0 / 10) as usize
    }

    pub fn get_value(&self) -> (r: u8)
        ensures
            r as int == self.value(),
            1 <= r <= 5,
    {
        let b = self.0 % 10;
        if b <= 2 {
            1
        } else if b <= 4 {
            2
        } else if b <= 6 {
            3
        } else if b <= 8 {
            4
        } else {
            5
        }
    }

    /// The lowest identity of the cards of a suit position and a value.
    pub fn from_value_color_idx(value: u8, color_idx: usize) -> (r: Card)
        requires
            1 <= value <= 5,
            color_idx < 5,
        ensures
            r.wf(),
            r.suit() == color_idx,
            r.value() == value,
    {
        let bucket: u8 = if value == 1 {
            0
        } else if value == 2 {
            3
        } else if value == 3 {
            5
        } else if value == 4 {
            7
        } else {
            9
        };
        Card(color_idx as u8 * 10 + bucket)
    }
}

} // verus!
