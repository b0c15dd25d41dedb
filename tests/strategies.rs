use hanabi::card::Card;
use hanabi::decksubset::DeckSubset;
use hanabi::enums::{Color, Move, MoveResult};
use hanabi::strategies::cheater::{CheatSharedState, Cheater};
use hanabi::strategies::chatgpt::ChatGPT;
use hanabi::strategies::gemini::Gemini;
use hanabi::strategies::random::RandomStrategy;
use hanabi::strategies::random_only_play::RandomOnlyPlay;
use hanabi::strategies::robert2::Robert2;
use hanabi::strategy::Strategy;

fn cards(ids: &[u8]) -> Vec<Card> {
    ids.iter().map(|i| Card(*i)).collect()
}

#[test]
fn robert2_starts_with_nothing_known() {
    let r = Robert2::new();
    assert_eq!(r.hints_remaining, 8);
    assert_eq!(r.mistakes_made, 0);
    assert_eq!(r.fireworks, [0; 5]);
    assert_eq!(r.my_hand_knowledge.len(), 5);
    assert!(r.my_hand_knowledge.iter().all(|k| *k == DeckSubset::new_full()));
    assert_eq!(r.cards_not_seen.count(), 50);
    assert_eq!(r.focused_hint, None);
}

#[test]
fn robert2_initialize_sees_the_partner_hand() {
    let mut r = Robert2::new();
    r.initialize(&cards(&[0, 1, 2, 13, 49]));
    assert_eq!(r.partner_hand, cards(&[0, 1, 2, 13, 49]));
    assert_eq!(r.partner_hand_knowledge.len(), 5);
    assert_eq!(r.cards_not_seen.count(), 45);
    assert!(!r.cards_not_seen.has_card(Card(13)));
    assert!(r.cards_not_seen.has_card(Card(14)));
}

#[test]
fn robert2_probabilities_count_unseen_identities() {
    let mut r = Robert2::new();
    r.initialize(&cards(&[0, 1, 2, 13, 49]));
    // All 1s are playable at the start; 12 of the 45 unseen cards are 1s.
    assert_eq!(r.probability_playable(0), (12, 45));
    assert_eq!(r.probability_discardable(0), (0, 45));
    assert_eq!(r.playable_cards(), DeckSubset::from_value(1));
    assert_eq!(r.discardable_cards().count(), 0);
    // The partner has seen nothing of its own hand.
    assert_eq!(r.partner_probability_playable(0, None), (12, 45));
    assert_eq!(r.partner_probability_playable(0, Some(Move::HintValue(1))), (12, 12));
    assert_eq!(r.partner_probability_discardable(0, None), (0, 45));
}

#[test]
fn robert2_exact_card_after_hints() {
    let mut r = Robert2::new();
    r.initialize(&cards(&[0, 1, 2, 13, 49]));
    assert_eq!(r.exact_card_if_known(0), None);
    r.update_after_other_player_move(&Move::HintColor(Color::Blue), &MoveResult::Hint(vec![0]));
    assert_eq!(r.focused_hint, Some(0));
    assert_eq!(r.hints_remaining, 7);
    assert_eq!(r.my_hand_knowledge[0], DeckSubset::from_color(Color::Blue));
    assert_eq!(r.my_hand_knowledge[1], DeckSubset::from_color_inverted(Color::Blue));
    assert_eq!(r.exact_card_if_known(0), None);
    r.update_after_other_player_move(&Move::HintValue(2), &MoveResult::Hint(vec![0, 3]));
    assert_eq!(r.focused_hint, Some(0));
    assert_eq!(r.exact_card_if_known(0), Some(Card(23)));
    assert_eq!(r.exact_card_if_known(1), None);
}

#[test]
fn robert2_only_card_left_probability() {
    let mut r = Robert2::new();
    r.initialize(&cards(&[0, 1, 2, 13, 49]));
    r.update_after_other_player_move(&Move::HintValue(5), &MoveResult::Hint(vec![4]));
    // Slot 4 is a 5; the white 5 is seen, four unseen 5s remain, each the last of its kind.
    assert_eq!(r.probability_only_card_left_of_its_kind(4), (4, 4));
}

#[test]
fn robert2_counts_identities_a_hint_rules_out() {
    let mut r = Robert2::new();
    r.initialize(&cards(&[0, 1, 2, 13, 49]));
    // Red touches slots 0 to 2: each loses the 38 unseen non-red cards; the
    // others lose the 7 unseen red ones.
    assert_eq!(r.number_of_cards_excluded_by_color_hint(Color::Red), [38, 38, 38, 7, 7]);
    // The value 5 hint touches slot 4 only: it loses the 41 unseen cards that are not 5s.
    assert_eq!(r.number_of_cards_excluded_by_value_hint(5), [4, 4, 4, 4, 41]);
}

#[test]
fn robert2_own_moves_update_the_belief() {
    let mut r = Robert2::new();
    r.initialize(&cards(&[0, 1, 2, 13, 49]));
    r.update_after_other_player_move(&Move::HintColor(Color::Blue), &MoveResult::Hint(vec![3]));
    assert_eq!(r.focused_hint, Some(3));
    r.update_after_own_move(&Move::Play(1), &MoveResult::Play(true, Card(20), None), true);
    assert_eq!(r.fireworks, [0, 0, 1, 0, 0]);
    assert_eq!(r.focused_hint, Some(2));
    assert_eq!(r.my_hand_knowledge.len(), 5);
    assert_eq!(r.my_hand_knowledge[4], DeckSubset::new_full());
    assert!(!r.cards_not_seen.has_card(Card(20)));
    r.update_after_own_move(&Move::Discard(2), &MoveResult::Discard(Card(31), None), false);
    assert_eq!(r.focused_hint, None);
    assert_eq!(r.my_hand_knowledge.len(), 4);
    assert_eq!(r.hints_remaining, 8);
    r.update_after_own_move(&Move::Play(0), &MoveResult::Play(false, Card(9), None), false);
    assert_eq!(r.mistakes_made, 1);
    r.update_after_own_move(&Move::HintValue(1), &MoveResult::Hint(vec![0, 1, 2]), false);
    assert_eq!(r.hints_remaining, 7);
    assert_eq!(r.partner_hand_knowledge[0], DeckSubset::from_value(1));
    assert_eq!(r.partner_hand_knowledge[3], DeckSubset::from_value_inverted(1));
}

#[test]
fn robert2_partner_moves_update_the_belief() {
    let mut r = Robert2::new();
    r.initialize(&cards(&[0, 1, 2, 13, 49]));
    r.update_after_other_player_move(&Move::Play(0), &MoveResult::Play(true, Card(0), Some(Card(30))));
    assert_eq!(r.fireworks, [1, 0, 0, 0, 0]);
    assert_eq!(r.partner_hand, cards(&[1, 2, 13, 49, 30]));
    assert!(!r.cards_not_seen.has_card(Card(30)));
    r.update_after_other_player_move(&Move::Discard(3), &MoveResult::Discard(Card(49), None));
    assert_eq!(r.partner_hand, cards(&[1, 2, 13, 30]));
    assert_eq!(r.partner_hand_knowledge.len(), 4);
}

#[test]
fn robert2_lists_all_candidate_moves() {
    let mut r = Robert2::new();
    let moves = r.all_possible_moves();
    assert_eq!(moves.len(), 20);
    assert_eq!(moves[0], Move::Play(0));
    assert_eq!(moves[1], Move::Discard(0));
    assert_eq!(moves[10], Move::HintValue(1));
    assert_eq!(moves[19], Move::HintColor(Color::White));
    r.hints_remaining = 0;
    assert_eq!(r.all_possible_moves().len(), 10);
}

#[test]
fn random_strategy_picks_a_possible_move() {
    let mut s = RandomStrategy::new();
    s.initialize(&cards(&[0, 10, 20, 33, 49]));
    let possible = s.possible_moves();
    assert_eq!(possible.len(), 10 + 5 + 3);
    assert!(!possible.contains(&Move::HintValue(4)));
    for _ in 0..20 {
        let mv = s.decide_move();
        assert!(possible.contains(&mv));
    }
}

#[test]
fn random_only_play_picks_a_play() {
    let mut s = RandomOnlyPlay::new();
    s.initialize(&cards(&[0, 10, 20, 30, 40]));
    assert_eq!(s.possible_moves(), vec![Move::Play(0), Move::Play(1), Move::Play(2), Move::Play(3), Move::Play(4)]);
    let mv = s.decide_move();
    assert!(matches!(mv, Move::Play(i) if i < 5));
    s.update_after_own_move(&Move::Play(0), &MoveResult::Play(true, Card(0), None), false);
    assert_eq!(s.own_hand_size, 4);
}

fn table(my: &[u8], partner: &[u8], deck: &[u8], fireworks: [u8; 5], hints: u8) -> CheatSharedState {
    CheatSharedState {
        my_hand: cards(my),
        partner_hand: cards(partner),
        deck_cards: cards(deck),
        fireworks,
        hints_remaining: hints,
    }
}

#[test]
fn cheater_discard_danger() {
    let fw = [1, 0, 0, 0, 0];
    let my = cards(&[0, 5, 5, 9]);
    // 0 is a red 1 with red at 1: dead.
    assert_eq!(Cheater::get_discard_score(&Card(0), &my, &vec![], &vec![], &fw), 0);
    // The hand holds card 5 twice.
    assert_eq!(Cheater::get_discard_score(&Card(5), &my, &vec![], &vec![], &fw), 1);
    // 9 is the red 5, with no other copy: critical.
    assert_eq!(Cheater::get_discard_score(&Card(9), &my, &vec![], &vec![], &fw), 3);
    assert_eq!(Cheater::get_discard_score(&Card(3), &cards(&[3]), &cards(&[3]), &vec![], &fw), 2);
    assert_eq!(Cheater::get_discard_score(&Card(3), &cards(&[3]), &vec![], &cards(&[3]), &fw), 2);
    assert_eq!(Cheater::find_best_discard(&cards(&[9, 0, 6]), &vec![], &vec![], &fw), (1, 0));
    assert_eq!(Cheater::find_best_discard(&cards(&[9, 6]), &vec![], &vec![], &fw), (0, 3));
    assert_eq!(Cheater::find_best_discard(&vec![], &vec![], &vec![], &fw), (0, 4));
    assert_eq!(Cheater::get_stall_move(&cards(&[23])), Move::HintColor(Color::Blue));
    assert_eq!(Cheater::get_stall_move(&vec![]), Move::HintValue(1));
}

#[test]
fn cheater_choices() {
    // A playable card is played.
    assert_eq!(Cheater::choose_move(&table(&[9, 10], &[], &[1], [0; 5], 3)), Move::Play(1));
    // No token: discard the safest card.
    assert_eq!(Cheater::choose_move(&table(&[9, 13, 14], &[], &[1], [0; 5], 0)), Move::Discard(0));
    assert_eq!(Cheater::choose_move(&table(&[9, 0], &[], &[1], [1, 0, 0, 0, 0], 0)), Move::Discard(1));
    // Full tokens: pass with a hint on the partner's first card.
    assert_eq!(Cheater::choose_move(&table(&[9, 13], &[23], &[1], [0; 5], 8)), Move::HintColor(Color::Blue));
    // The partner can play: pass.
    assert_eq!(Cheater::choose_move(&table(&[9, 13], &[40], &[1], [0; 5], 4)), Move::HintColor(Color::White));
    // A dead card to discard.
    assert_eq!(Cheater::choose_move(&table(&[9, 0], &[49], &[1], [1, 0, 0, 0, 0], 4)), Move::Discard(1));
    // Only last copies on both sides: pass the turn.
    assert_eq!(Cheater::choose_move(&table(&[9, 13], &[49], &[1], [0; 5], 4)), Move::HintColor(Color::White));
    let mut c = Cheater::new(table(&[9, 10], &[], &[1], [0; 5], 3));
    assert_eq!(c.decide_move(), Move::Play(1));
}

#[test]
fn chatgpt_predicates() {
    let mut s = ChatGPT::new();
    s.initialize(&cards(&[0, 10, 20, 33, 49]));
    assert!(s.is_playable(&Card(0)));
    assert!(!s.is_playable(&Card(3)));
    assert!(!s.is_dead(&Card(0)));
    assert!(s.is_critical(&Card(9)));
    assert!(!s.is_critical(&Card(3)));
    assert_eq!(s.count_in_discard(&Card(3)), 0);
    assert!(!s.is_slot_certainly_playable(0));
    assert!(!s.is_slot_certainly_dead(0));
    assert_eq!(s.calculate_expected_distance(7), (999, 1));
    s.update_after_other_player_move(&Move::HintValue(1), &MoveResult::Hint(vec![2]));
    assert!(s.is_slot_certainly_playable(2));
    assert!(s.knowledge_implies_playable(&DeckSubset::from_value(1)));
    assert_eq!(s.calculate_expected_distance(2), (0, 12));
    assert_eq!(s.decide_move(), Move::Play(2));
}

#[test]
fn chatgpt_discards_and_criticality() {
    let mut s = ChatGPT::new();
    s.initialize(&cards(&[0, 10, 20, 33, 49]));
    s.update_after_other_player_move(&Move::Discard(3), &MoveResult::Discard(Card(33), Some(Card(34))));
    assert_eq!(s.count_in_discard(&Card(34)), 1);
    assert!(s.is_critical(&Card(34)));
    assert_eq!(s.hints_remaining, 8);
}

#[test]
fn gemini_predicates() {
    let mut s = Gemini::new();
    s.initialize(&cards(&[0, 10, 20, 33, 49]));
    assert!(s.is_playable(&Card(10)));
    assert!(!s.is_useless(&Card(9)));
    assert_eq!(s.get_distance(&Card(9)), 4);
    assert_eq!(s.get_distance(&Card(0)), 0);
    assert!(s.is_card_critical(&Card(9)));
    assert!(!s.is_card_critical(&Card(0)));
    assert_eq!(s.count_in_discard(Color::Red, 1), 0);
    assert!(!s.is_slot_hinted(0));
    assert!(!s.is_slot_certainly_playable(0));
    assert!(!s.is_slot_certainly_useless(0));
    assert_eq!(s.calculate_discard_score(9), -9999);
    s.update_after_other_player_move(&Move::HintValue(1), &MoveResult::Hint(vec![1]));
    assert!(s.is_slot_hinted(1));
    assert!(s.is_slot_certainly_playable(1));
    assert_eq!(s.calculate_discard_score(1), -1000);
    assert_eq!(s.decide_move(), Move::Play(1));
    assert!(s.knowledge_implies_playable(&DeckSubset::from_value(1)));
    assert!(s.knowledge_implies_critical(&DeckSubset::from_value(5)));
    assert!(!s.knowledge_implies_critical(&DeckSubset::from_value(1)));
}

#[test]
fn gemini_usefulness_follows_the_discards() {
    let mut s = Gemini::new();
    s.initialize(&cards(&[0, 10, 20, 33, 49]));
    // Discarding both red 2s leaves every red card above 2 useless.
    s.update_after_other_player_move(&Move::Discard(0), &MoveResult::Discard(Card(0), Some(Card(3))));
    s.update_after_other_player_move(&Move::Discard(4), &MoveResult::Discard(Card(3), Some(Card(4))));
    s.update_after_other_player_move(&Move::Discard(4), &MoveResult::Discard(Card(4), None));
    assert!(s.is_useless(&Card(5)));
    assert!(s.is_useless(&Card(9)));
    assert!(!s.is_useless(&Card(1)));
    assert_eq!(s.get_distance(&Card(9)), 255);
    s.mark_board_change(&Card(1));
    assert!(!s.my_view_unknowns.has_card(Card(1)));
    assert!(!s.public_unknowns.has_card(Card(1)));
    s.mark_partner_hand(&Card(2));
    assert!(!s.my_view_unknowns.has_card(Card(2)));
    assert!(s.public_unknowns.has_card(Card(2)));
}

#[test]
fn gemini_discard_score_formula() {
    let mut s = Gemini::new();
    s.initialize(&cards(&[0, 10, 20, 33, 49]));
    // 45 unseen identities, 4 of them critical (the unseen 5s), distances
    // summing to 75: 100 - 5000 * 4 / 45 + 75 / 45.
    assert_eq!(s.calculate_discard_score(0), 100 - 444 + 1);
}

#[test]
fn chatgpt_expected_distance_formula() {
    let mut s = ChatGPT::new();
    s.initialize(&cards(&[0, 10, 20, 33, 49]));
    assert_eq!(s.calculate_expected_distance(0), (75, 45));
}

#[test]
fn robert2_partner_slots_and_hint_effects() {
    let mut r = Robert2::new();
    r.initialize(&cards(&[0, 1, 2, 13, 49]));
    assert_eq!(r.partner_slots_of_kind(0, 1), vec![0, 1, 2]);
    assert_eq!(r.partner_slots_of_kind(1, 2), vec![3]);
    assert_eq!(r.partner_slots_of_kind(4, 5), vec![4]);
    assert_eq!(r.partner_slots_of_kind(2, 1), Vec::<usize>::new());
    // A value 1 hint leaves only unseen 1s, all playable at the start.
    assert_eq!(r.hint_makes_certain(0, Move::HintValue(1)), (true, false));
    assert_eq!(r.hint_makes_certain(3, Move::HintColor(Color::Green)), (false, false));
}

#[test]
fn agents_choose_legal_moves_from_their_record() {
    let mut g = Gemini::new();
    g.initialize(&cards(&[0, 10, 20, 33, 49]));
    let mv = g.decide_move();
    assert!(matches!(mv, Move::HintColor(_) | Move::HintValue(_) | Move::Play(0..=4) | Move::Discard(0..=4)));
    if let Move::HintValue(v) = mv {
        assert!(g.partner_hand.iter().any(|c| c.get_value() == v));
    }
    let mut c = ChatGPT::new();
    c.initialize(&cards(&[0, 10, 20, 33, 49]));
    let mv = c.decide_move();
    if let Move::HintValue(v) = mv {
        assert!(c.partner_hand.iter().any(|card| card.get_value() == v));
    }
    if let Move::HintColor(col) = mv {
        assert!(c.partner_hand.iter().any(|card| card.get_color() == col));
    }
}
