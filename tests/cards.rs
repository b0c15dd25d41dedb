use hanabi::card::Card;
use hanabi::deck::Deck;
use hanabi::decksubset::DeckSubset;
use hanabi::enums::{Color, Move};
use hanabi::knowledge::Knowledge;

const COLORS: [Color; 5] = [Color::Red, Color::Green, Color::Blue, Color::Yellow, Color::White];

#[test]
fn card_decodes_suit_and_value() {
    assert_eq!(Card::new(0).get_color(), Color::Red);
    assert_eq!(Card::new(0).get_value(), 1);
    assert_eq!(Card::new(2).get_value(), 1);
    assert_eq!(Card::new(3).get_value(), 2);
    assert_eq!(Card::new(6).get_value(), 3);
    assert_eq!(Card::new(8).get_value(), 4);
    assert_eq!(Card::new(9).get_value(), 5);
    assert_eq!(Card::new(13).get_color(), Color::Green);
    assert_eq!(Card::new(25).get_color(), Color::Blue);
    assert_eq!(Card::new(37).get_color(), Color::Yellow);
    assert_eq!(Card::new(49).get_color(), Color::White);
    assert_eq!(Card::new(49).get_value(), 5);
    assert_eq!(Card::new(49).color_index(), 4);
}

#[test]
fn card_decode_rejects_out_of_range_ids() {
    assert_eq!(Card::decode(49), Some(Card(49)));
    assert_eq!(Card::decode(0), Some(Card(0)));
    assert_eq!(Card::decode(50), None);
    assert_eq!(Card::decode(255), None);
}

#[test]
fn card_from_value_and_suit_index() {
    assert_eq!(Card::from_value_color_idx(1, 0), Card(0));
    assert_eq!(Card::from_value_color_idx(2, 1), Card(13));
    assert_eq!(Card::from_value_color_idx(5, 4), Card(49));
    for v in 1..=5u8 {
        for c in 0..5usize {
            let card = Card::from_value_color_idx(v, c);
            assert_eq!(card.get_value(), v);
            assert_eq!(card.color_index(), c);
        }
    }
}

#[test]
fn suit_masks_are_bit_exact() {
    assert_eq!(DeckSubset::from_color(Color::Red).0, 0b1111111111);
    assert_eq!(DeckSubset::from_color(Color::Green).0, 0b1111111111 << 10);
    assert_eq!(DeckSubset::from_color(Color::Blue).0, 0b1111111111 << 20);
    assert_eq!(DeckSubset::from_color(Color::Yellow).0, 0b1111111111 << 30);
    assert_eq!(DeckSubset::from_color(Color::White).0, 0b1111111111 << 40);
}

#[test]
fn value_masks_are_bit_exact() {
    assert_eq!(DeckSubset::from_value(1).0, 0b0000000000000000000001110000000111000000011100000001110000000111);
    assert_eq!(DeckSubset::from_value(2).0, 0b0000000000000000000110000000011000000001100000000110000000011000);
    assert_eq!(DeckSubset::from_value(3).0, 0b0000000000000000011000000001100000000110000000011000000001100000);
    assert_eq!(DeckSubset::from_value(4).0, 0b0000000000000001100000000110000000011000000001100000000110000000);
    assert_eq!(DeckSubset::from_value(5).0, 0b0000000000000010000000001000000000100000000010000000001000000000);
}

#[test]
fn masks_partition_the_universe() {
    let full = DeckSubset::new_full();
    assert_eq!(full.0, (1u64 << 50) - 1);
    assert_eq!(full.count(), 50);
    let mut union = DeckSubset::new_empty();
    for (i, a) in COLORS.iter().enumerate() {
        union = union.union(&DeckSubset::from_color(*a));
        for (j, b) in COLORS.iter().enumerate() {
            let both = DeckSubset::from_color(*a).intersect(&DeckSubset::from_color(*b));
            if i != j {
                assert_eq!(both.count(), 0);
            }
        }
        assert_eq!(DeckSubset::from_color(*a).count(), 10);
    }
    assert_eq!(union, full);
    let mut union = DeckSubset::new_empty();
    for v in 1..=5u8 {
        union = union.union(&DeckSubset::from_value(v));
        for w in 1..=5u8 {
            if v != w {
                assert_eq!(DeckSubset::from_value(v).intersect(&DeckSubset::from_value(w)).count(), 0);
            }
        }
    }
    assert_eq!(union, full);
    assert_eq!(DeckSubset::from_value(1).count(), 15);
    assert_eq!(DeckSubset::from_value(5).count(), 5);
}

#[test]
fn single_card_mask_counts_one() {
    for id in 0..50u8 {
        let mut s = DeckSubset::new_empty();
        s.add_card(Card(id));
        assert_eq!(s.count(), 1);
        assert!(s.has_card(Card(id)));
    }
}

#[test]
fn inverted_masks_are_complements_within_the_universe() {
    let full = DeckSubset::new_full();
    for c in COLORS {
        let inv = DeckSubset::from_color_inverted(c);
        assert_eq!(inv.count(), 40);
        assert_eq!(inv.union(&DeckSubset::from_color(c)), full);
        assert_eq!(inv.intersect(&DeckSubset::from_color(c)).count(), 0);
        assert_eq!(inv.0 >> 50, 0);
    }
    for v in 1..=5u8 {
        let inv = DeckSubset::from_value_inverted(v);
        assert_eq!(inv.union(&DeckSubset::from_value(v)), full);
        assert_eq!(inv.0 >> 50, 0);
    }
    assert_eq!(DeckSubset::from_value_inverted(1).count(), 35);
}

#[test]
fn card_mask_round_trip() {
    for id in 0..50u8 {
        let card = Card::decode(id).unwrap();
        let kind = DeckSubset::from_card(card);
        let expected = DeckSubset::from_color(card.get_color()).intersect(&DeckSubset::from_value(card.get_value()));
        assert_eq!(kind, expected);
        assert!(kind.has_card(card));
        let mut single = DeckSubset::new_empty();
        single.add_card(card);
        assert_eq!(kind == single, card.get_value() == 5);
    }
    assert_eq!(DeckSubset::from_card(Card(0)).count(), 3);
    assert_eq!(DeckSubset::from_card(Card(13)).count(), 2);
    assert_eq!(DeckSubset::from_card(Card(49)).count(), 1);
}

#[test]
fn membership_add_remove_and_subset() {
    let mut s = DeckSubset::new_empty();
    assert!(s.is_empty());
    s.add_card(Card(7));
    s.add_card(Card(42));
    assert!(s.has_card(Card(7)));
    assert!(s.has_card(Card(42)));
    assert!(!s.has_card(Card(8)));
    assert_eq!(s.count(), 2);
    assert!(s.is_subset(&DeckSubset::new_full()));
    assert!(!DeckSubset::new_full().is_subset(&s));
    s.remove_card(Card(7));
    assert!(!s.has_card(Card(7)));
    assert_eq!(s.count(), 1);
    assert!(s.is_subset(&DeckSubset::from_color(Color::White)));
    assert!(!s.is_subset(&DeckSubset::from_color(Color::Red)));
    s.remove_card(Card(42));
    assert!(s.is_empty());
}

#[test]
fn knowledge_operations() {
    let mut k = Knowledge::new_full();
    assert!(k.has_card(Card(0)));
    assert!(k.has_card(Card(49)));
    k = k.intersect(&Knowledge::from_color(Color::Blue));
    assert!(k.has_card(Card(25)));
    assert!(!k.has_card(Card(15)));
    k = k.intersect(&Knowledge::from_value(2));
    assert!(k.has_card(Card(23)));
    assert!(k.has_card(Card(24)));
    assert!(!k.has_card(Card(25)));
    k.remove_card(Card(23));
    assert!(!k.has_card(Card(23)));
    k.add_card(Card(23));
    assert!(k.has_card(Card(23)));
}

#[test]
fn truthful_hints_never_exclude_the_true_card() {
    let hints = [
        Move::HintColor(Color::Red),
        Move::HintValue(2),
        Move::HintColor(Color::Blue),
        Move::HintValue(5),
        Move::HintValue(4),
        Move::HintColor(Color::Yellow),
        Move::HintValue(1),
        Move::HintColor(Color::Green),
        Move::HintValue(3),
    ];
    for id in 0..50u8 {
        let card = Card(id);
        let mut k = DeckSubset::new_full();
        for h in hints {
            let touched = match h {
                Move::HintColor(c) => card.get_color() == c,
                Move::HintValue(v) => card.get_value() == v,
                _ => unreachable!(),
            };
            k = k.narrow(h, touched);
            assert!(k.has_card(card));
        }
        assert_eq!(k, DeckSubset::from_card(card));
    }
}

#[test]
fn new_deck_holds_every_identity_in_order() {
    let deck = Deck::new_full_deck();
    assert_eq!(deck.len(), 50);
    for (i, c) in deck.cards.iter().enumerate() {
        assert_eq!(c.0 as usize, i);
    }
}

#[test]
fn shuffled_deck_holds_every_identity_once() {
    let mut deck = Deck::new_full_deck();
    deck.shuffle();
    assert_eq!(deck.len(), 50);
    let mut ids: Vec<u8> = deck.cards.iter().map(|c| c.0).collect();
    let in_order = ids.iter().enumerate().all(|(i, id)| *id as usize == i);
    assert!(!in_order);
    ids.sort();
    assert_eq!(ids, (0..50u8).collect::<Vec<u8>>());
}

#[test]
fn fifty_draws_empty_the_deck_and_the_next_yields_nothing() {
    let mut deck = Deck::new_full_deck();
    deck.shuffle();
    for _ in 0..50 {
        assert!(deck.draw().is_some());
    }
    assert!(deck.is_empty());
    assert_eq!(deck.draw(), None);
}
