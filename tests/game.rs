use hanabi::card::Card;
use hanabi::deck::Deck;
use hanabi::enums::{Color, Move, MoveResult};
use hanabi::strategy::Strategy;
use hanabi::game::Game;
use hanabi::player::Player;
use hanabi::strategies::chatgpt::ChatGPT;
use hanabi::strategies::gemini::Gemini;
use hanabi::strategies::random::RandomStrategy;
use hanabi::strategies::random_only_play::RandomOnlyPlay;

/// Dealt from the full deck in identity order: the first player holds
/// 49 47 45 43 41, the second 48 46 44 42 40, all white, and 39 is on top.
fn ordered_game() -> Game<RandomStrategy> {
    Game::with_deck(
        Player::new(RandomStrategy::new()),
        Player::new(RandomStrategy::new()),
        Deck::new_full_deck(),
    )
}

fn ids(hand: &Vec<Card>) -> Vec<u8> {
    hand.iter().map(|c| c.0).collect()
}

#[test]
fn new_game_deals_five_cards_each() {
    let game = Game::new(Player::new(RandomStrategy::new()), Player::new(RandomStrategy::new()));
    assert_eq!(game.hand(0).len(), 5);
    assert_eq!(game.hand(1).len(), 5);
    assert_eq!(game.deck_size(), 40);
    assert_eq!(game.hints_remaining(), 8);
    assert_eq!(game.mistakes_made(), 0);
    assert_eq!(game.fireworks(), [0, 0, 0, 0, 0]);
    assert_eq!(game.player_to_move(), 0);
    assert_eq!(game.game_over(), None);
    let mut all: Vec<u8> = ids(game.hand(0));
    all.extend(ids(game.hand(1)));
    all.sort();
    all.dedup();
    assert_eq!(all.len(), 10);
}

#[test]
fn deal_alternates_from_the_end_of_the_deck() {
    let game = ordered_game();
    assert_eq!(ids(game.hand(0)), vec![49, 47, 45, 43, 41]);
    assert_eq!(ids(game.hand(1)), vec![48, 46, 44, 42, 40]);
    assert_eq!(game.deck_size(), 40);
}

#[test]
fn successful_play_raises_the_firework_by_one() {
    let mut game = ordered_game();
    game.apply_move(Move::Play(4));
    assert_eq!(game.fireworks(), [0, 0, 0, 0, 1]);
    assert_eq!(game.mistakes_made(), 0);
    assert_eq!(ids(game.hand(0)), vec![49, 47, 45, 43, 39]);
    assert_eq!(game.deck_size(), 39);
    assert_eq!(game.player_to_move(), 1);
}

#[test]
fn failed_play_adds_one_mistake() {
    let mut game = ordered_game();
    game.apply_move(Move::Play(0));
    assert_eq!(game.mistakes_made(), 1);
    assert_eq!(game.fireworks(), [0, 0, 0, 0, 0]);
    assert_eq!(ids(game.hand(0)), vec![47, 45, 43, 41, 39]);
}

#[test]
fn discard_with_full_tokens_keeps_eight() {
    let mut game = ordered_game();
    game.apply_move(Move::Discard(2));
    assert_eq!(game.hints_remaining(), 8);
    assert_eq!(ids(game.hand(0)), vec![49, 47, 43, 41, 39]);
}

#[test]
fn discard_regains_a_token() {
    let mut game = ordered_game();
    game.apply_move(Move::HintValue(1));
    assert_eq!(game.hints_remaining(), 7);
    game.apply_move(Move::Discard(0));
    assert_eq!(game.hints_remaining(), 8);
}

#[test]
fn hint_spends_a_token_and_passes_the_turn() {
    let mut game = ordered_game();
    game.apply_move(Move::HintColor(Color::White));
    assert_eq!(game.hints_remaining(), 7);
    assert_eq!(game.player_to_move(), 1);
    assert_eq!(game.hand(1).len(), 5);
    assert_eq!(game.deck_size(), 40);
}

#[test]
fn absent_color_is_not_a_legal_hint() {
    let game = ordered_game();
    let moves = game.legal_moves();
    assert!(!moves.contains(&Move::HintColor(Color::Red)));
    assert!(!moves.contains(&Move::HintColor(Color::Blue)));
    assert!(moves.contains(&Move::HintColor(Color::White)));
    assert!(moves.contains(&Move::HintValue(1)));
    assert!(moves.contains(&Move::HintValue(4)));
    assert!(!moves.contains(&Move::HintValue(5)));
    assert!(!game.is_legal_move(Move::HintColor(Color::Red)));
    for i in 0..5 {
        assert!(moves.contains(&Move::Play(i)));
        assert!(moves.contains(&Move::Discard(i)));
    }
    assert!(!moves.contains(&Move::Play(5)));
    assert_eq!(moves.len(), 10 + 1 + 4);
}

#[test]
fn no_hint_is_legal_without_tokens() {
    let mut game = ordered_game();
    for _ in 0..8 {
        game.apply_move(Move::HintColor(Color::White));
    }
    assert_eq!(game.hints_remaining(), 0);
    let moves = game.legal_moves();
    assert_eq!(moves.len(), 10);
    assert!(moves.iter().all(|m| matches!(m, Move::Play(_) | Move::Discard(_))));
}

#[test]
fn three_mistakes_end_the_game() {
    let mut game = ordered_game();
    game.apply_move(Move::Play(4));
    assert_eq!(game.game_over(), None);
    game.apply_move(Move::Play(0));
    game.apply_move(Move::Play(0));
    assert_eq!(game.mistakes_made(), 2);
    assert_eq!(game.game_over(), None);
    game.apply_move(Move::Play(0));
    assert_eq!(game.mistakes_made(), 3);
    assert_eq!(game.game_over(), Some(1));
}

#[test]
fn empty_deck_and_four_cards_each_end_the_game() {
    let mut game = ordered_game();
    for _ in 0..40 {
        game.apply_move(Move::Discard(0));
    }
    assert_eq!(game.deck_size(), 0);
    assert_eq!(game.game_over(), None);
    game.apply_move(Move::Discard(0));
    assert_eq!(game.game_over(), None);
    game.apply_move(Move::Discard(0));
    assert_eq!(game.hand(0).len(), 4);
    assert_eq!(game.hand(1).len(), 4);
    assert_eq!(game.game_over(), Some(0));
}

#[test]
fn random_games_end_within_the_move_bound() {
    for _ in 0..50 {
        let mut game = Game::new(Player::new(RandomStrategy::new()), Player::new(RandomStrategy::new()));
        let mut moves = 0;
        while game.game_over().is_none() {
            match game.advance() {
                Ok(_) => moves += 1,
                Err(_) => break,
            }
            assert!(moves <= 108);
        }
    }
}

/// Plays a game to its end and checks that every refused move came from an
/// agent with no card or no legal move left.
fn run_to_end<S: Strategy>(game: &mut Game<S>) -> Option<u8> {
    loop {
        if let Some(score) = game.game_over() {
            return Some(score);
        }
        let mover = game.player_to_move();
        let legal = game.legal_moves();
        match game.advance() {
            Ok(mv) => assert!(legal.contains(&mv)),
            Err(mv) => {
                assert!(game.hand(mover).is_empty() || legal.is_empty(), "refused {:?}", mv);
                return None;
            }
        }
    }
}

#[test]
fn play_until_over_reports_the_score() {
    for _ in 0..20 {
        let mut game = Game::new(Player::new(Gemini::new()), Player::new(Gemini::new()));
        if let Some(score) = run_to_end(&mut game) {
            assert!(score <= 25);
        }
        let mut game = Game::new(Player::new(ChatGPT::new()), Player::new(ChatGPT::new()));
        if let Some(score) = run_to_end(&mut game) {
            assert!(score <= 25);
        }
        let mut game = Game::new(Player::new(Gemini::new()), Player::new(Gemini::new()));
        if let Some(score) = game.play_until_over() {
            let fw = game.fireworks();
            assert_eq!(score, fw.iter().sum::<u8>());
            assert!(game.game_over() == Some(score) || game.legal_moves().is_empty());
        }
        let mut game = Game::new(Player::new(RandomOnlyPlay::new()), Player::new(RandomOnlyPlay::new()));
        let score = game.play_until_over();
        assert!(score.is_some());
        assert!(game.game_over() == score || game.legal_moves().is_empty());
    }
}

#[test]
fn play_until_over_on_a_finished_game_asks_no_agent() {
    let mut game = ordered_game();
    game.apply_move(Move::Play(0));
    game.apply_move(Move::Play(0));
    game.apply_move(Move::Play(0));
    assert_eq!(game.game_over(), Some(0));
    let hand = ids(game.hand(1));
    assert_eq!(game.play_until_over(), Some(0));
    assert_eq!(ids(game.hand(1)), hand);
    assert_eq!(game.player_to_move(), 1);
}

#[test]
fn apply_move_reports_what_the_agents_see() {
    let mut game = ordered_game();
    let out = game.apply_move(Move::Play(4));
    assert!(matches!(out.own, MoveResult::Play(true, Card(41), None)));
    assert!(matches!(out.other, MoveResult::Play(true, Card(41), Some(Card(39)))));
    assert!(out.got_new_card);
    let out = game.apply_move(Move::HintValue(5));
    assert!(matches!(&out.own, MoveResult::Hint(ix) if *ix == vec![0, 4]));
    assert!(matches!(&out.other, MoveResult::Hint(ix) if *ix == vec![0, 4]));
    assert!(!out.got_new_card);
    let out = game.apply_move(Move::Discard(0));
    assert!(matches!(out.own, MoveResult::Discard(Card(49), None)));
    assert!(matches!(out.other, MoveResult::Discard(Card(49), Some(Card(38)))));
}

#[test]
fn apply_if_legal_refuses_an_illegal_move() {
    let mut game = ordered_game();
    assert_eq!(game.apply_if_legal(Move::HintColor(Color::Red)), Err(Move::HintColor(Color::Red)));
    assert_eq!(game.apply_if_legal(Move::Play(5)), Err(Move::Play(5)));
    assert_eq!(game.player_to_move(), 0);
    assert_eq!(game.apply_if_legal(Move::Play(4)), Ok(Move::Play(4)));
    assert_eq!(game.fireworks(), [0, 0, 0, 0, 1]);
    assert_eq!(game.player_to_move(), 1);
}

#[test]
fn advance_applies_a_legal_move_of_the_agent() {
    let mut game = ordered_game();
    let before = game.legal_moves();
    let mv = game.advance().unwrap();
    assert!(before.contains(&mv));
    assert_eq!(game.player_to_move(), 1);
}
