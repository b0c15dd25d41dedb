use vstd::prelude::*;
use vstd::seq_lib::lemma_seq_contains_after_push;
use crate::card::{Card, value_of};
use crate::deck::{Deck, full_deck_seq, lemma_deck_invariant};
use crate::enums::{Color, Move, MoveResult, color_index_spec};
use crate::hint::{hint_names, hand_wf, hinted_indices, hand_has_match, touched_slots};
use crate::player::Player;
use crate::strategy::{Strategy, move_wf, result_wf};

verus! {

/// Cards dealt to each player.
pub const HAND_SIZE: usize = 5;

/// Hint tokens at the start, and the most there can be.
pub const MAX_HINTS: u8 = 8;

/// Mistakes that end the game.
pub const MAX_MISTAKES: u8 = 3;

/// Whether a move is allowed to a player with `n` cards, with `hints` tokens
/// left, facing the partner's hand `partner`: play and discard address a slot;
/// a hint needs a token and a card of the partner's hand that it names.
pub open spec fn move_allowed(n: int, hints: int, partner: Seq<Card>, mv: Move) -> bool {
    match mv {
        Move::Play(i) => i < n,
        Move::Discard(i) => i < n,
        _ => hints > 0 && exists|j: int|
            0 <= j < partner.len() && hint_names(mv, #[trigger] partner[j]),
    }
}

/// The moves allowed to a player with `n` cards and `hints` tokens facing the
/// hand `partner`: a play and a discard for each slot, then, while a token is
/// left, a color hint for each suit and a value hint for each value that the
/// partner's hand holds.
pub fn legal_moves_for(n: usize, hints: u8, partner: &Vec<Card>) -> (r: Vec<Move>)
    requires
        hand_wf(partner@),
    ensures
        forall|mv: Move| #[trigger] r@.contains(mv) <==> move_allowed(n as int, hints as int, partner@, mv),
{
    let mut r: Vec<Move> = Vec::new();
    let mut i: usize = 0;
    while i < n
        invariant
            i <= n,
            forall|mv: Move| #[trigger]
                r@.contains(mv) <==> match mv {
                    Move::Play(j) => j < i,
                    Move::Discard(j) => j < i,
                    _ => false,
                },
        decreases n - i,
    {
        let ghost r0 = r@;
        r.push(Move::Play(i));
        r.push(Move::Discard(i));
        proof {
            assert forall|mv: Move| #[trigger]
                r@.contains(mv) <==> match mv {
                    Move::Play(j) => j < i + 1,
                    Move::Discard(j) => j < i + 1,
                    _ => false,
                } by {
                lemma_seq_contains_after_push(r0.push(Move::Play(i)), Move::Discard(i), mv);
                lemma_seq_contains_after_push(r0, Move::Play(i), mv);
            }
        }
        i = i + 1;
    }
    if hints > 0 {
        let mut c: usize = 0;
        while c < 5
            invariant
                c <= 5,
                hints > 0,
                hand_wf(partner@),
                forall|mv: Move| #[trigger]
                    r@.contains(mv) <==> match mv {
                        Move::Play(j) => j < n,
                        Move::Discard(j) => j < n,
                        Move::HintColor(col) => color_index_spec(col) < c && move_allowed(
                            n as int,
                            hints as int,
                            partner@,
                            mv,
                        ),
                        _ => false,
                    },
            decreases 5 - c,
        {
            let mv = Move::HintColor(Color::from_index(c));
            let ghost r0 = r@;
            if hand_has_match(partner, mv) {
                r.push(mv);
            }
            proof {
                assert forall|m: Move| #[trigger]
                    r@.contains(m) <==> match m {
                        Move::Play(j) => j < n,
                        Move::Discard(j) => j < n,
                        Move::HintColor(col) => color_index_spec(col) < c + 1 && move_allowed(
                            n as int,
                            hints as int,
                            partner@,
                            m,
                        ),
                        _ => false,
                    } by {
                    lemma_seq_contains_after_push(r0, mv, m);
                }
            }
            c = c + 1;
        }
        let mut v: u8 = 1;
        while v <= 5
            invariant
                1 <= v <= 6,
                hints > 0,
                hand_wf(partner@),
                forall|mv: Move| #[trigger]
                    r@.contains(mv) <==> match mv {
                        Move::Play(j) => j < n,
                        Move::Discard(j) => j < n,
                        Move::HintColor(_) => move_allowed(n as int, hints as int, partner@, mv),
                        Move::HintValue(w) => w < v && move_allowed(
                            n as int,
                            hints as int,
                            partner@,
                            mv,
                        ),
                    },
            decreases 6 - v,
        {
            let mv = Move::HintValue(v);
            let ghost r0 = r@;
            if hand_has_match(partner, mv) {
                r.push(mv);
            }
            proof {
                assert forall|m: Move| #[trigger]
                    r@.contains(m) <==> match m {
                        Move::Play(j) => j < n,
                        Move::Discard(j) => j < n,
                        Move::HintColor(_) => move_allowed(n as int, hints as int, partner@, m),
                        Move::HintValue(w) => w < v + 1 && move_allowed(
                            n as int,
                            hints as int,
                            partner@,
                            m,
                        ),
                    } by {
                    lemma_seq_contains_after_push(r0, mv, m);
                }
            }
            v = v + 1;
        }
        assert forall|mv: Move| #[trigger]
            r@.contains(mv) <==> move_allowed(n as int, hints as int, partner@, mv) by {
            if let Move::HintValue(w) = mv {
                if move_allowed(n as int, hints as int, partner@, mv) {
                    let j = choose|j: int| 0 <= j < partner@.len() && hint_names(mv, #[trigger] partner@[j]);
                    assert(value_of(partner@[j].0 as int) <= 5);
                }
            }
        }
    }
    r
}

/// What a move tells the two agents: the result handed to the mover, the result
/// handed to the partner, and whether the mover drew a card.
pub struct MoveOutcome {
    pub own: MoveResult,
    pub other: MoveResult,
    pub got_new_card: bool,
}

/// The state of a game as mathematical values.
pub struct GameModel {
    pub hand0: Seq<Card>,
    pub hand1: Seq<Card>,
    pub deck: Seq<Card>,
    pub fireworks: Seq<u8>,
    pub hints: int,
    pub mistakes: int,
    pub turn: int,
    /// The cards played or discarded so far, in order.
    pub gone: Seq<Card>,
}

impl GameModel {
    pub open spec fn hand(self, p: int) -> Seq<Card> {
        if p == 0 {
            self.hand0
        } else {
            self.hand1
        }
    }

    /// The same state with the hand of player `p` replaced.
    pub open spec fn with_hand(self, p: int, h: Seq<Card>) -> GameModel {
        if p == 0 {
            GameModel { hand0: h, ..self }
        } else {
            GameModel { hand1: h, ..self }
        }
    }

    /// The same state with another player to move.
    pub open spec fn with_turn(self, t: int) -> GameModel {
        GameModel { turn: t, ..self }
    }

    /// The same state after the mover drew the card at the end of the pile.
    pub open spec fn after_mover_draw(self) -> GameModel {
        GameModel { deck: self.deck.drop_last(), ..self.with_hand(self.turn, self.mover_hand().push(self.deck.last())) }
    }

    /// The hand of the player whose turn it is.
    pub open spec fn mover_hand(self) -> Seq<Card> {
        self.hand(self.turn)
    }

    /// The hand of the other player.
    pub open spec fn partner_hand(self) -> Seq<Card> {
        self.hand(1 - self.turn)
    }

    pub open spec fn wf(self) -> bool {
        &&& 0 <= self.turn < 2
        &&& 0 <= self.hints <= 8
        &&& 0 <= self.mistakes <= 3
        &&& self.fireworks.len() == 5
        &&& forall|s: int| 0 <= s < 5 ==> #[trigger] self.fireworks[s] <= 5
        &&& hand_wf(self.hand0)
        &&& hand_wf(self.hand1)
        &&& hand_wf(self.deck)
        &&& self.hand0.len() <= 5
        &&& self.hand1.len() <= 5
        &&& self.deck.len() <= 50
        &&& self.all_cards().to_multiset() == full_deck_seq().to_multiset()
    }

    /// The hands, the pile and the cards that left the game, together.
    pub open spec fn all_cards(self) -> Seq<Card> {
        self.hand0 + self.hand1 + self.deck + self.gone
    }

    /// The state right after dealing: five cards each from the end of the pile,
    /// nothing played, all hint tokens, no mistake, the first player to move. The
    /// hands and the pile together hold each card of the deck once.
    pub open spec fn is_initial(self) -> bool {
        &&& self.hand0.len() == 5
        &&& self.hand1.len() == 5
        &&& self.deck.len() == 40
        &&& self.fireworks == seq![0u8, 0u8, 0u8, 0u8, 0u8]
        &&& self.hints == 8
        &&& self.mistakes == 0
        &&& self.turn == 0
        &&& self.gone.len() == 0
        &&& (self.hand0 + self.hand1 + self.deck).to_multiset() == full_deck_seq().to_multiset()
    }

    /// Play and discard address a slot of the mover's hand; a hint needs a token
    /// and a card of the partner's hand that it names.
    pub open spec fn is_legal(self, mv: Move) -> bool {
        move_allowed(self.mover_hand().len() as int, self.hints, self.partner_hand(), mv)
    }

    /// The mover's hand after slot `i` leaves it and a card is drawn, if one is left.
    pub open spec fn hand_after_removal(self, i: int) -> Seq<Card> {
        if self.deck.len() > 0 {
            self.mover_hand().remove(i).push(self.deck.last())
        } else {
            self.mover_hand().remove(i)
        }
    }

    pub open spec fn deck_after_draw(self) -> Seq<Card> {
        if self.deck.len() > 0 {
            self.deck.drop_last()
        } else {
            self.deck
        }
    }

    /// Whether playing slot `i` succeeds: its value is one more than its suit's firework.
    pub open spec fn play_succeeds(self, i: int) -> bool {
        let card = self.mover_hand()[i];
        self.fireworks[card.suit()] + 1 == card.value()
    }

    /// The state after a move; the turn passes to the other player.
    pub open spec fn step(self, mv: Move) -> GameModel {
        let next_turn = 1 - self.turn;
        match mv {
            Move::Play(i) => {
                let card = self.mover_hand()[i as int];
                let s = card.suit();
                let success = self.play_succeeds(i as int);
                let h = self.hand_after_removal(i as int);
                GameModel {
                    hand0: if self.turn == 0 {
                        h
                    } else {
                        self.hand0
                    },
                    hand1: if self.turn == 0 {
                        self.hand1
                    } else {
                        h
                    },
                    deck: self.deck_after_draw(),
                    fireworks: if success {
                        self.fireworks.update(s, (self.fireworks[s] + 1) as u8)
                    } else {
                        self.fireworks
                    },
                    hints: self.hints,
                    mistakes: if success {
                        self.mistakes
                    } else {
                        self.mistakes + 1
                    },
                    turn: next_turn,
                    gone: self.gone.push(card),
                }
            },
            Move::Discard(i) => {
                let h = self.hand_after_removal(i as int);
                let card = self.mover_hand()[i as int];
                GameModel {
                    hand0: if self.turn == 0 {
                        h
                    } else {
                        self.hand0
                    },
                    hand1: if self.turn == 0 {
                        self.hand1
                    } else {
                        h
                    },
                    deck: self.deck_after_draw(),
                    fireworks: self.fireworks,
                    hints: if self.hints < 8 {
                        self.hints + 1
                    } else {
                        self.hints
                    },
                    mistakes: self.mistakes,
                    turn: next_turn,
                    gone: self.gone.push(card),
                }
            },
            _ => GameModel {
                hand0: self.hand0,
                hand1: self.hand1,
                deck: self.deck,
                fireworks: self.fireworks,
                hints: self.hints - 1,
                mistakes: self.mistakes,
                turn: next_turn,
                gone: self.gone,
            },
        }
    }

    /// Whether `o` is what a move tells the agents in this state. A play or a
    /// discard shows both agents the card that left slot `i`, and the partner
    /// also the card drawn from the end of the pile, if one was left; the mover
    /// only learns whether a card was drawn. A hint shows both agents the slots
    /// of the partner's hand that it touches.
    pub open spec fn reports(self, mv: Move, o: MoveOutcome) -> bool {
        let drawn = if self.deck.len() > 0 {
            Some(self.deck.last())
        } else {
            None
        };
        match mv {
            Move::Play(i) => {
                let card = self.mover_hand()[i as int];
                let ok = self.play_succeeds(i as int);
                &&& o.own == MoveResult::Play(ok, card, None)
                &&& o.other == MoveResult::Play(ok, card, drawn)
                &&& o.got_new_card == (self.deck.len() > 0)
            },
            Move::Discard(i) => {
                let card = self.mover_hand()[i as int];
                &&& o.own == MoveResult::Discard(card, None)
                &&& o.other == MoveResult::Discard(card, drawn)
                &&& o.got_new_card == (self.deck.len() > 0)
            },
            _ => {
                &&& !o.got_new_card
                &&& (match o.own {
                    MoveResult::Hint(ix) => ix@ == touched_slots(self.partner_hand(), mv),
                    _ => false,
                })
                &&& (match o.other {
                    MoveResult::Hint(ix) => ix@ == touched_slots(self.partner_hand(), mv),
                    _ => false,
                })
            },
        }
    }

    /// Whether the player to move has a legal move.
    pub open spec fn can_move(self) -> bool {
        exists|mv: Move| self.is_legal(mv)
    }

    /// Cards not yet played or discarded.
    pub open spec fn cards_left(self) -> nat {
        self.deck.len() + self.hand0.len() + self.hand1.len()
    }

    /// Twice the cards left plus the hint tokens: every legal move lowers it.
    pub open spec fn measure(self) -> nat {
        2 * self.cards_left() + self.hints as nat
    }

    /// The sum of the fireworks.
    pub open spec fn score(self) -> int {
        self.fireworks[0] + self.fireworks[1] + self.fireworks[2] + self.fireworks[3]
            + self.fireworks[4]
    }

    /// Three mistakes, five complete fireworks, or an empty pile with both hands down to four.
    pub open spec fn is_over(self) -> bool {
        ||| self.mistakes >= 3
        ||| forall|s: int| 0 <= s < 5 ==> #[trigger] self.fireworks[s] == 5
        ||| (self.deck.len() == 0 && self.hand0.len() == 4 && self.hand1.len() == 4)
    }
}

/// A legal move, in a game not lost, keeps the state well formed and lowers its
/// measure. A play or a discard takes one card out of the game, a hint spends
/// a token and leaves the cards. A game starts with 50 cards left (the 40 of
/// the pile and five in each hand) and 8 hint tokens, so however the players
/// choose among legal moves, it has at most 50 plays and discards and lasts at
/// most 108 moves.
pub proof fn lemma_legal_move_progress(m: GameModel, mv: Move)
    requires
        m.wf(),
        m.is_legal(mv),
        m.mistakes < 3,
    ensures
        m.step(mv).wf(),
        m.step(mv).measure() < m.measure(),
        (mv is Play || mv is Discard) ==> m.step(mv).cards_left() + 1 == m.cards_left(),
        !(mv is Play || mv is Discard) ==> m.step(mv).cards_left() == m.cards_left()
            && m.step(mv).hints + 1 == m.hints,
        move_wf(mv),
{
    let n = m.step(mv);
    match mv {
        Move::Play(i) => {
            lemma_leave_keeps_cards(m, mv);
            let h = m.hand_after_removal(i as int);
            assert(hand_wf(m.mover_hand().remove(i as int)));
            if m.deck.len() > 0 {
                assert(m.deck.last() == m.deck[m.deck.len() - 1]);
                assert(hand_wf(h));
            }
            let card = m.mover_hand()[i as int];
            assert(card.wf());
            assert forall|s: int| 0 <= s < 5 implies #[trigger] n.fireworks[s] <= 5 by {
                assert(value_of(card.0 as int) <= 5);
            }
        },
        Move::Discard(i) => {
            lemma_leave_keeps_cards(m, mv);
            let h = m.hand_after_removal(i as int);
            assert(hand_wf(m.mover_hand().remove(i as int)));
            if m.deck.len() > 0 {
                assert(m.deck.last() == m.deck[m.deck.len() - 1]);
                assert(hand_wf(h));
            }
        },
        Move::HintValue(v) => {
            let j = choose|j: int|
                0 <= j < m.partner_hand().len() && hint_names(mv, #[trigger] m.partner_hand()[j]);
            assert(value_of(m.partner_hand()[j].0 as int) <= 5);
        },
        _ => {},
    }
}

proof fn lemma_multiset_of_four(a: Seq<Card>, b: Seq<Card>, c: Seq<Card>, d: Seq<Card>)
    ensures
        (a + b + c + d).to_multiset() == a.to_multiset().add(b.to_multiset()).add(
            c.to_multiset(),
        ).add(d.to_multiset()),
{
    vstd::seq_lib::lemma_multiset_commutative(a + b + c, d);
    vstd::seq_lib::lemma_multiset_commutative(a + b, c);
    vstd::seq_lib::lemma_multiset_commutative(a, b);
}

/// A card that leaves a hand, and the card drawn for it, keep each card of the
/// deck in exactly one place.
proof fn lemma_leave_keeps_cards(m: GameModel, mv: Move)
    requires
        m.wf(),
        m.is_legal(mv),
        mv is Play || mv is Discard,
    ensures
        m.step(mv).all_cards().to_multiset() == m.all_cards().to_multiset(),
{
    broadcast use vstd::seq_lib::group_to_multiset_ensures;
    broadcast use vstd::multiset::group_multiset_axioms;

    let i: int = match mv {
        Move::Play(k) => k as int,
        Move::Discard(k) => k as int,
        _ => 0,
    };
    let n = m.step(mv);
    let h = m.mover_hand();
    let card = h[i];
    let rest = h.remove(i);
    assert(rest.to_multiset() == h.to_multiset().remove(card));
    assert(h.contains(card));
    assert(h.to_multiset().count(card) > 0);
    if m.deck.len() > 0 {
        assert(m.deck =~= m.deck.drop_last().push(m.deck.last()));
    }
    lemma_multiset_of_four(n.hand0, n.hand1, n.deck, n.gone);
    lemma_multiset_of_four(m.hand0, m.hand1, m.deck, m.gone);
    assert(n.all_cards().to_multiset() =~= m.all_cards().to_multiset());
}

/// The state after dealing has 50 cards left, the bound on the plays and
/// discards of a game, and measure 108, the bound on its length.
pub proof fn lemma_initial_measure(m: GameModel)
    requires
        m.is_initial(),
    ensures
        m.cards_left() == 50,
        m.measure() == 108,
{
}

/// Whether a state was dealt from the arrangement `s` of the full deck: five
/// cards to each seat in turn, the first seat first, from the end of `s`, the
/// rest of `s` left as the pile.
pub open spec fn dealt_from(m: GameModel, s: Seq<Card>) -> bool {
    &&& s.len() == 50
    &&& s.to_multiset() == full_deck_seq().to_multiset()
    &&& forall|k: int| 0 <= k < 5 ==> #[trigger] m.hand0[k] == s[49 - 2 * k]
    &&& forall|k: int| 0 <= k < 5 ==> #[trigger] m.hand1[k] == s[48 - 2 * k]
    &&& m.deck == s.subrange(0, 40)
}

/// A game: two seats, the draw pile, the fireworks, the hint tokens, the
/// mistakes and whose turn it is.
pub struct Game<S> {
    player0: Player<S>,
    player1: Player<S>,
    deck: Deck,
    fireworks: [u8; 5],
    hints_remaining: u8,
    mistakes_made: u8,
    player_to_move: usize,
    /// The cards played or discarded so far.
    gone: Ghost<Seq<Card>>,
}

impl<S> View for Game<S> {
    type V = GameModel;

    closed spec fn view(&self) -> GameModel {
        GameModel {
            hand0: self.player0.hand@,
            hand1: self.player1.hand@,
            deck: self.deck.cards@,
            fireworks: self.fireworks@,
            hints: self.hints_remaining as int,
            mistakes: self.mistakes_made as int,
            turn: self.player_to_move as int,
            gone: self.gone@,
        }
    }
}

proof fn lemma_draw_keeps_multiset(a: Seq<Card>, b: Seq<Card>, deck: Seq<Card>)
    requires
        deck.len() > 0,
    ensures
        (a.push(deck.last()) + b + deck.drop_last()).to_multiset() == (a + b + deck).to_multiset(),
{
    broadcast use vstd::seq_lib::group_to_multiset_ensures;

    let x = deck.last();
    let d = deck.drop_last();
    assert(deck =~= d.push(x));
    vstd::seq_lib::lemma_multiset_commutative(a.push(x) + b, d);
    vstd::seq_lib::lemma_multiset_commutative(a.push(x), b);
    vstd::seq_lib::lemma_multiset_commutative(a + b, deck);
    vstd::seq_lib::lemma_multiset_commutative(a, b);
}

proof fn lemma_multiset_of_three(a: Seq<Card>, b: Seq<Card>, c: Seq<Card>)
    ensures
        (a + b + c).to_multiset() == a.to_multiset().add(b.to_multiset()).add(c.to_multiset()),
{
    vstd::seq_lib::lemma_multiset_commutative(a + b, c);
    vstd::seq_lib::lemma_multiset_commutative(a, b);
}

impl<S: Strategy> Game<S> {
    /// The state is well formed and so are both agents.
    pub closed spec fn wf(&self) -> bool {
        &&& self@.wf()
        &&& self.player0.strategy.wf()
        &&& self.player1.strategy.wf()
    }

    /// Shuffles a full deck, deals five cards to each seat in turn and shows each
    /// agent its partner's hand. Cards the seats held before are dropped.
    pub fn new(player1: Player<S>, player2: Player<S>) -> (r: Game<S>)
        requires
            player1.strategy.wf(),
            player2.strategy.wf(),
        ensures
            r.wf(),
            r@.is_initial(),
            exists|s: Seq<Card>| dealt_from(r@, s),
    {
        let mut deck = Deck::new_full_deck();
        deck.shuffle();
        let ghost s = deck.cards@;
        proof {
            lemma_deck_invariant(deck);
        }
        let r = Self::with_deck(player1, player2, deck);
        assert(dealt_from(r@, s));
        r
    }

    /// Deals from the end of a given arrangement of the full deck, five cards to
    /// each seat in turn starting with the first, and shows each agent its
    /// partner's hand. Cards the seats held before are dropped.
    pub fn with_deck(player1: Player<S>, player2: Player<S>, deck: Deck) -> (r: Game<S>)
        requires
            player1.strategy.wf(),
            player2.strategy.wf(),
            deck.is_permutation_of_full(),
        ensures
            r.wf(),
            r@.is_initial(),
            forall|k: int| 0 <= k < 5 ==> #[trigger] r@.hand0[k] == deck.cards@[49 - 2 * k],
            forall|k: int| 0 <= k < 5 ==> #[trigger] r@.hand1[k] == deck.cards@[48 - 2 * k],
            r@.deck == deck.cards@.subrange(0, 40),
    {
        broadcast use vstd::seq_lib::group_to_multiset_ensures;

        let ghost dealt_from = deck.cards@;
        let mut deck = deck;
        proof {
            lemma_deck_invariant(deck);
        }
        let mut p0 = Player::new(player1.strategy);
        let mut p1 = Player::new(player2.strategy);
        let mut k: usize = 0;
        while k < HAND_SIZE
            invariant
                k <= 5,
                p0.hand@.len() == k,
                p1.hand@.len() == k,
                deck.cards@.len() == 50 - 2 * k,
                hand_wf(p0.hand@),
                hand_wf(p1.hand@),
                hand_wf(deck.cards@),
                p0.strategy.wf(),
                p1.strategy.wf(),
                dealt_from.len() == 50,
                deck.cards@ == dealt_from.subrange(0, 50 - 2 * k),
                forall|j: int| 0 <= j < k ==> #[trigger] p0.hand@[j] == dealt_from[49 - 2 * j],
                forall|j: int| 0 <= j < k ==> #[trigger] p1.hand@[j] == dealt_from[48 - 2 * j],
                (p0.hand@ + p1.hand@ + deck.cards@).to_multiset() == full_deck_seq().to_multiset(),
            decreases 5 - k,
        {
            let ghost h0 = p0.hand@;
            let ghost h1 = p1.hand@;
            let ghost d0 = deck.cards@;
            p0.draw(&mut deck);
            proof {
                assert(d0.last() == d0[d0.len() - 1]);
                lemma_draw_keeps_multiset(h0, h1, d0);
                assert(hand_wf(p0.hand@));
            }
            let ghost d1 = deck.cards@;
            p1.draw(&mut deck);
            proof {
                assert(d1.last() == d1[d1.len() - 1]);
                lemma_draw_keeps_multiset(h1, p0.hand@, d1);
                lemma_multiset_of_three(p0.hand@, h1, d1);
                lemma_multiset_of_three(h1, p0.hand@, d1);
                lemma_multiset_of_three(p0.hand@, p1.hand@, deck.cards@);
                lemma_multiset_of_three(p1.hand@, p0.hand@, deck.cards@);
                assert((p0.hand@ + p1.hand@ + deck.cards@).to_multiset() =~= (p1.hand@ + p0.hand@
                    + deck.cards@).to_multiset());
                assert((p0.hand@ + h1 + d1).to_multiset() =~= (h1 + p0.hand@ + d1).to_multiset());
                assert(hand_wf(p1.hand@));
            }
            k = k + 1;
        }
        p0.strategy.initialize(&p1.hand);
        p1.strategy.initialize(&p0.hand);
        let r = Game {
            player0: p0,
            player1: p1,
            deck,
            fireworks: [0u8; 5],
            hints_remaining: MAX_HINTS,
            mistakes_made: 0,
            player_to_move: 0,
            gone: Ghost(Seq::empty()),
        };
        assert(r@.all_cards() =~= r@.hand0 + r@.hand1 + r@.deck);
        assert(r@.fireworks =~= seq![0u8, 0u8, 0u8, 0u8, 0u8]);
        r
    }
}

impl<S: Strategy> Game<S> {
    /// Removes slot `i` of the mover's hand.
    fn take_from_mover(&mut self, i: usize) -> (r: Card)
        requires
            old(self)@.turn < 2,
            hand_wf(old(self)@.mover_hand()),
            i < old(self)@.mover_hand().len(),
        ensures
            final(self).player0.strategy == old(self).player0.strategy,
            final(self).player1.strategy == old(self).player1.strategy,
            r == old(self)@.mover_hand()[i as int],
            r.wf(),
            final(self)@ == old(self)@.with_hand(old(self)@.turn, old(self)@.mover_hand().remove(i as int)),
    {
        if self.player_to_move == 0 {
            self.player0.hand.remove(i)
        } else {
            self.player1.hand.remove(i)
        }
    }

    /// Draws for the mover, if the pile is not empty.
    fn draw_for_mover(&mut self) -> (r: Option<Card>)
        requires
            old(self)@.turn < 2,
            hand_wf(old(self)@.deck),
        ensures
            final(self).player0.strategy == old(self).player0.strategy,
            final(self).player1.strategy == old(self).player1.strategy,
            r matches Some(c) ==> c.wf(),
            old(self)@.deck.len() == 0 ==> r is None && final(self)@ == old(self)@,
            old(self)@.deck.len() > 0 ==> r == Some(old(self)@.deck.last()) && final(self)@
                == old(self)@.after_mover_draw(),
    {
        if self.player_to_move == 0 {
            self.player0.draw(&mut self.deck)
        } else {
            self.player1.draw(&mut self.deck)
        }
    }

    /// Tells the mover and the partner about a move.
    fn notify(&mut self, mv: &Move, own: &MoveResult, other: &MoveResult, got_new_card: bool)
        requires
            old(self).wf(),
            move_wf(*mv),
            result_wf(*own),
            result_wf(*other),
        ensures
            final(self).wf(),
            final(self)@ == old(self)@,
    {
        if self.player_to_move == 0 {
            self.player0.strategy.update_after_own_move(mv, own, got_new_card);
            self.player1.strategy.update_after_other_player_move(mv, other);
        } else {
            self.player1.strategy.update_after_own_move(mv, own, got_new_card);
            self.player0.strategy.update_after_other_player_move(mv, other);
        }
    }

    fn play(&mut self, i: usize) -> (r: MoveOutcome)
        requires
            old(self).wf(),
            i < old(self)@.mover_hand().len(),
            old(self)@.mistakes < 3,
        ensures
            final(self).wf(),
            old(self)@.reports(Move::Play(i), r),
            final(self)@ == old(self)@.step(Move::Play(i)).with_turn(old(self)@.turn),
    {
        let ghost m = self@;
        let card = self.take_from_mover(i);
        self.gone = Ghost(self.gone@.push(card));
        let drawn = self.draw_for_mover();
        let got_new_card = drawn.is_some();
        let s = card.color_index();
        let success = self.fireworks[s] + 1 == card.get_value();
        if success {
            self.fireworks[s] = self.fireworks[s] + 1;
        } else {
            self.mistakes_made = self.mistakes_made + 1;
        }
        let mv = Move::Play(i);
        proof {
            lemma_legal_move_progress(m, mv);
            let n = m.step(mv).with_turn(m.turn);
            assert(self@.fireworks =~= n.fireworks);
            if m.deck.len() > 0 {
                assert(self@.hand0 =~= n.hand0);
                assert(self@.hand1 =~= n.hand1);
            }
            assert(self@ == n);
        }
        let outcome = MoveOutcome {
            own: MoveResult::Play(success, card, None),
            other: MoveResult::Play(success, card, drawn),
            got_new_card,
        };
        self.notify(&mv, &outcome.own, &outcome.other, outcome.got_new_card);
        outcome
    }

    fn discard(&mut self, i: usize) -> (r: MoveOutcome)
        requires
            old(self).wf(),
            i < old(self)@.mover_hand().len(),
            old(self)@.mistakes < 3,
        ensures
            final(self).wf(),
            old(self)@.reports(Move::Discard(i), r),
            final(self)@ == old(self)@.step(Move::Discard(i)).with_turn(old(self)@.turn),
    {
        let ghost m = self@;
        let card = self.take_from_mover(i);
        self.gone = Ghost(self.gone@.push(card));
        if self.hints_remaining < MAX_HINTS {
            self.hints_remaining = self.hints_remaining + 1;
        }
        let drawn = self.draw_for_mover();
        let got_new_card = drawn.is_some();
        let mv = Move::Discard(i);
        proof {
            lemma_legal_move_progress(m, mv);
            let n = m.step(mv).with_turn(m.turn);
            if m.deck.len() > 0 {
                assert(self@.hand0 =~= n.hand0);
                assert(self@.hand1 =~= n.hand1);
            }
            assert(self@ == n);
        }
        let outcome = MoveOutcome {
            own: MoveResult::Discard(card, None),
            other: MoveResult::Discard(card, drawn),
            got_new_card,
        };
        self.notify(&mv, &outcome.own, &outcome.other, outcome.got_new_card);
        outcome
    }

    fn give_hint(&mut self, mv: Move) -> (r: MoveOutcome)
        requires
            old(self).wf(),
            old(self)@.hints > 0,
            old(self)@.is_legal(mv),
            old(self)@.mistakes < 3,
            mv is HintColor || mv is HintValue,
        ensures
            final(self).wf(),
            old(self)@.reports(mv, r),
            final(self)@ == old(self)@.step(mv).with_turn(old(self)@.turn),
    {
        proof {
            lemma_legal_move_progress(self@, mv);
        }
        self.hints_remaining = self.hints_remaining - 1;
        let outcome = MoveOutcome {
            own: MoveResult::Hint(hinted_indices(self.partner_hand(), mv)),
            other: MoveResult::Hint(hinted_indices(self.partner_hand(), mv)),
            got_new_card: false,
        };
        self.notify(&mv, &outcome.own, &outcome.other, outcome.got_new_card);
        outcome
    }

    /// Applies a legal move with all its effects, tells both agents, and passes
    /// the turn. Returns what the two agents were told.
    pub fn apply_move(&mut self, mv: Move) -> (r: MoveOutcome)
        requires
            old(self).wf(),
            old(self)@.is_legal(mv),
            old(self)@.mistakes < 3,
        ensures
            final(self).wf(),
            final(self)@ == old(self)@.step(mv),
            old(self)@.reports(mv, r),
    {
        proof {
            lemma_legal_move_progress(self@, mv);
        }
        let outcome = match mv {
            Move::Play(i) => self.play(i),
            Move::Discard(i) => self.discard(i),
            _ => self.give_hint(mv),
        };
        self.player_to_move = if self.player_to_move == 0 {
            1
        } else {
            0
        };
        outcome
    }
}

impl<S: Strategy> Game<S> {
    fn partner_hand(&self) -> (r: &Vec<Card>)
        requires
            self.wf(),
        ensures
            r@ == self@.partner_hand(),
    {
        if self.player_to_move == 0 {
            &self.player1.hand
        } else {
            &self.player0.hand
        }
    }

    fn mover_hand_len(&self) -> (r: usize)
        ensures
            r == self@.mover_hand().len(),
    {
        if self.player_to_move == 0 {
            self.player0.hand.len()
        } else {
            self.player1.hand.len()
        }
    }

    /// Whether a move is legal for the player to move.
    pub fn is_legal_move(&self, mv: Move) -> (r: bool)
        requires
            self.wf(),
        ensures
            r == self@.is_legal(mv),
    {
        match mv {
            Move::Play(i) => i < self.mover_hand_len(),
            Move::Discard(i) => i < self.mover_hand_len(),
            _ => self.hints_remaining > 0 && hand_has_match(self.partner_hand(), mv),
        }
    }

    /// The legal moves of the player to move: a play and a discard for each slot,
    /// then, while a hint token is left, a color hint for each suit and a value
    /// hint for each value that the partner's hand holds.
    pub fn legal_moves(&self) -> (r: Vec<Move>)
        requires
            self.wf(),
        ensures
            forall|mv: Move| #[trigger] r@.contains(mv) <==> self@.is_legal(mv),
    {
        legal_moves_for(self.mover_hand_len(), self.hints_remaining, self.partner_hand())
    }

    /// The score, once the game is over: three mistakes, five complete fireworks,
    /// or an empty pile with both hands down to four cards.
    pub fn game_over(&self) -> (r: Option<u8>)
        requires
            self.wf(),
        ensures
            r == (if self@.is_over() {
                Some(self@.score() as u8)
            } else {
                None
            }),
    {
        let f = &self.fireworks;
        let all_complete = f[0] == 5 && f[1] == 5 && f[2] == 5 && f[3] == 5 && f[4] == 5;
        proof {
            if self@.is_over() && self@.mistakes < 3 && !(self@.deck.len() == 0
                && self@.hand0.len() == 4 && self@.hand1.len() == 4) {
                assert(self@.fireworks[0] == 5);
                assert(self@.fireworks[1] == 5);
                assert(self@.fireworks[2] == 5);
                assert(self@.fireworks[3] == 5);
                assert(self@.fireworks[4] == 5);
            }
        }
        if self.mistakes_made >= MAX_MISTAKES || all_complete || (self.deck.is_empty()
            && self.player0.hand.len() == 4 && self.player1.hand.len() == 4) {
            proof {
                assert(self@.fireworks[0] <= 5);
                assert(self@.fireworks[1] <= 5);
                assert(self@.fireworks[2] <= 5);
                assert(self@.fireworks[3] <= 5);
                assert(self@.fireworks[4] <= 5);
            }
            Some(f[0] + f[1] + f[2] + f[3] + f[4])
        } else {
            None
        }
    }

    /// The sum of the fireworks.
    fn score_now(&self) -> (r: u8)
        requires
            self.wf(),
        ensures
            r == self@.score(),
    {
        proof {
            self.lemma_state_wf();
        }
        let f = &self.fireworks;
        f[0] + f[1] + f[2] + f[3] + f[4]
    }

    /// Asks the agent whose turn it is for a move and applies it if it is legal.
    /// An illegal move is handed back in `Err` and nothing changes.
    pub fn advance(&mut self) -> (r: Result<Move, Move>)
        requires
            old(self).wf(),
            old(self)@.mistakes < 3,
        ensures
            final(self).wf(),
            match r {
                Ok(mv) => old(self)@.is_legal(mv) && final(self)@ == old(self)@.step(mv),
                Err(mv) => !old(self)@.is_legal(mv) && final(self)@ == old(self)@,
            },
    {
        let mv = if self.player_to_move == 0 {
            self.player0.strategy.decide_move()
        } else {
            self.player1.strategy.decide_move()
        };
        self.apply_if_legal(mv)
    }

    /// Applies `mv` if it is legal and hands it back in `Ok`; hands an illegal
    /// move back in `Err` and changes nothing.
    pub fn apply_if_legal(&mut self, mv: Move) -> (r: Result<Move, Move>)
        requires
            old(self).wf(),
            old(self)@.mistakes < 3,
        ensures
            final(self).wf(),
            old(self)@.is_legal(mv) ==> r == Ok::<Move, Move>(mv) && final(self)@ == old(
                self,
            )@.step(mv),
            !old(self)@.is_legal(mv) ==> r == Err::<Move, Move>(mv) && final(self)@ == old(self)@,
    {
        if self.is_legal_move(mv) {
            self.apply_move(mv);
            Ok(mv)
        } else {
            Err(mv)
        }
    }

    /// Lets the agents play until the game is over, or until the player to move
    /// has no legal move left (hands can shrink unevenly once the pile is
    /// empty), and returns the score; `None` as soon as an agent chooses an
    /// illegal move while a legal one exists. A game already over asks no agent.
    pub fn play_until_over(&mut self) -> (r: Option<u8>)
        requires
            old(self).wf(),
        ensures
            final(self).wf(),
            old(self)@.is_over() ==> r == Some(old(self)@.score() as u8) && final(self)@ == old(
                self,
            )@,
            r is Some ==> (final(self)@.is_over() || !final(self)@.can_move()) && r == Some(
                final(self)@.score() as u8,
            ),
            r is None ==> !final(self)@.is_over() && final(self)@.can_move(),
    {
        loop
            invariant
                self.wf(),
                old(self)@.is_over() ==> self@ == old(self)@,
            decreases self@.measure(),
        {
            let over = self.game_over();
            if over.is_some() {
                return over;
            }
            let legal = self.legal_moves();
            if legal.len() == 0 {
                proof {
                    if self@.can_move() {
                        let mv = choose|mv: Move| self@.is_legal(mv);
                        assert(legal@.contains(mv));
                    }
                }
                return Some(self.score_now());
            }
            proof {
                assert(legal@.contains(legal@[0]));
            }
            let ghost before = self@;
            match self.advance() {
                Ok(mv) => {
                    proof {
                        lemma_legal_move_progress(before, mv);
                    }
                },
                Err(_) => {
                    return None;
                },
            }
        }
    }

    /// A well-formed game holds a well-formed state: at most 8 tokens and 3
    /// mistakes, fireworks at most 5 and so a score of at most 25, card
    /// identities in the hands and the pile, each of the 50 in exactly one place.
    pub proof fn lemma_state_wf(&self)
        requires
            self.wf(),
        ensures
            self@.wf(),
            0 <= self@.score() <= 25,
    {
        assert(self@.fireworks[0] <= 5);
        assert(self@.fireworks[1] <= 5);
        assert(self@.fireworks[2] <= 5);
        assert(self@.fireworks[3] <= 5);
        assert(self@.fireworks[4] <= 5);
    }

    /// The hand of player `p`.
    pub fn hand(&self, p: usize) -> (r: &Vec<Card>)
        requires
            p < 2,
        ensures
            r@ == self@.hand(p as int),
    {
        if p == 0 {
            &self.player0.hand
        } else {
            &self.player1.hand
        }
    }

    pub fn fireworks(&self) -> (r: [u8; 5])
        ensures
            r@ == self@.fireworks,
    {
        self.fireworks
    }

    pub fn hints_remaining(&self) -> (r: u8)
        ensures
            r == self@.hints,
    {
        self.hints_remaining
    }

    pub fn mistakes_made(&self) -> (r: u8)
        ensures
            r == self@.mistakes,
    {
        self.mistakes_made
    }

    pub fn player_to_move(&self) -> (r: usize)
        ensures
            r == self@.turn,
    {
        self.player_to_move
    }

    /// The number of cards left in the draw pile.
    pub fn deck_size(&self) -> (r: usize)
        ensures
            r == self@.deck.len(),
    {
        self.deck.len()
    }
}

} // verus!
