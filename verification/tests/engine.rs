use blackjack_engine::Card;
use blackjack_engine::Deck;
use blackjack_engine::Decision;
use blackjack_engine::EngineError;
use blackjack_engine::Game;
use blackjack_engine::Hand;
use blackjack_engine::HandState;
use blackjack_engine::Player;
use blackjack_engine::Rank;
use blackjack_engine::Suit;
use blackjack_engine::create_game;

const RANKS: [Rank; 13] = [
    Rank::Ace,
    Rank::Two,
    Rank::Three,
    Rank::Four,
    Rank::Five,
    Rank::Six,
    Rank::Seven,
    Rank::Eight,
    Rank::Nine,
    Rank::Ten,
    Rank::Jack,
    Rank::Queen,
    Rank::King,
];

const SUITS: [Suit; 4] = [Suit::Clubs, Suit::Diamonds, Suit::Hearts, Suit::Spades];

fn card(rank: Rank, suit: Suit) -> Card {
    Card::new(rank, suit)
}

fn hand_of(cards: Vec<Card>) -> Hand {
    Hand::from_cards(cards)
}

/// A one-deck shoe that will deal exactly `draws`, in that order.
fn shoe(draws: Vec<Card>) -> Deck {
    let mut cards = draws;
    cards.reverse();
    Deck::with_cards(1, cards)
}

#[test]
fn card_point_values() {
    assert_eq!(card(Rank::Ace, Suit::Clubs).blackjack_value(), 11);
    assert_eq!(card(Rank::Two, Suit::Hearts).blackjack_value(), 2);
    assert_eq!(card(Rank::Nine, Suit::Spades).blackjack_value(), 9);
    assert_eq!(card(Rank::Ten, Suit::Diamonds).blackjack_value(), 10);
    assert_eq!(card(Rank::Jack, Suit::Clubs).blackjack_value(), 10);
    assert_eq!(card(Rank::Queen, Suit::Hearts).blackjack_value(), 10);
    assert_eq!(card(Rank::King, Suit::Spades).blackjack_value(), 10);
}

#[test]
fn card_labels() {
    assert_eq!(card(Rank::Ace, Suit::Spades).label(), "AS");
    assert_eq!(card(Rank::Ten, Suit::Clubs).label(), "10C");
    assert_eq!(card(Rank::Queen, Suit::Hearts).label(), "QH");
    assert_eq!(card(Rank::Two, Suit::Diamonds).label(), "2D");
}

#[test]
fn hand_values_with_zero_to_four_aces() {
    assert_eq!(hand_of(vec![]).value(), 0);
    assert_eq!(hand_of(vec![card(Rank::Ten, Suit::Clubs), card(Rank::Nine, Suit::Hearts)]).value(), 19);
    assert_eq!(hand_of(vec![card(Rank::Ace, Suit::Clubs)]).value(), 11);
    assert_eq!(
        hand_of(vec![card(Rank::Ace, Suit::Clubs), card(Rank::Ace, Suit::Hearts)]).value(),
        12
    );
    assert_eq!(
        hand_of(vec![
            card(Rank::Ace, Suit::Clubs),
            card(Rank::Ace, Suit::Hearts),
            card(Rank::Ace, Suit::Spades)
        ])
        .value(),
        13
    );
    assert_eq!(
        hand_of(vec![
            card(Rank::Ace, Suit::Clubs),
            card(Rank::Ace, Suit::Hearts),
            card(Rank::Ace, Suit::Spades),
            card(Rank::Ace, Suit::Diamonds)
        ])
        .value(),
        14
    );
    // A soft hand keeps one ace high while that still fits.
    assert_eq!(
        hand_of(vec![card(Rank::Ace, Suit::Clubs), card(Rank::Five, Suit::Hearts)]).value(),
        16
    );
    // Both aces demoted: 1 + 1 + 9 + 10 = 21.
    assert_eq!(
        hand_of(vec![
            card(Rank::Ace, Suit::Clubs),
            card(Rank::Ace, Suit::Hearts),
            card(Rank::Nine, Suit::Spades),
            card(Rank::Ten, Suit::Diamonds)
        ])
        .value(),
        21
    );
}

#[test]
fn bust_hand_reports_minimum_total() {
    let h = hand_of(vec![
        card(Rank::Ten, Suit::Hearts),
        card(Rank::Nine, Suit::Clubs),
        card(Rank::Five, Suit::Diamonds),
    ]);
    assert!(h.is_bust());
    assert_eq!(h.value(), 24);
    let h2 = hand_of(vec![
        card(Rank::Ten, Suit::Hearts),
        card(Rank::Ten, Suit::Clubs),
        card(Rank::Ace, Suit::Diamonds),
        card(Rank::Ace, Suit::Spades),
    ]);
    assert!(h2.is_bust());
    assert_eq!(h2.value(), 22);
}

#[test]
fn two_card_ace_and_ten_is_blackjack() {
    for ten in [Rank::Ten, Rank::Jack, Rank::Queen, Rank::King] {
        let h = hand_of(vec![card(Rank::Ace, Suit::Spades), card(ten, Suit::Clubs)]);
        assert!(h.is_blackjack());
        assert_eq!(h.value(), 21);
        let swapped = hand_of(vec![card(ten, Suit::Clubs), card(Rank::Ace, Suit::Spades)]);
        assert!(swapped.is_blackjack());
    }
}

#[test]
fn twenty_one_on_three_or_more_cards_is_not_blackjack() {
    let h = hand_of(vec![
        card(Rank::Seven, Suit::Clubs),
        card(Rank::Seven, Suit::Hearts),
        card(Rank::Seven, Suit::Spades),
    ]);
    assert_eq!(h.value(), 21);
    assert!(!h.is_blackjack());
    // The same two cards as the natural, reached with a third card present.
    let h2 = hand_of(vec![
        card(Rank::Five, Suit::Clubs),
        card(Rank::Ace, Suit::Spades),
        card(Rank::Five, Suit::Hearts),
    ]);
    assert_eq!(h2.value(), 21);
    assert!(!h2.is_blackjack());
}

fn drain(deck: &mut Deck) -> Vec<Card> {
    let mut out = Vec::new();
    loop {
        match deck.draw() {
            Ok(c) => out.push(c),
            Err(e) => {
                assert_eq!(e, EngineError::DeckExhausted);
                return out;
            }
        }
    }
}

fn assert_full_composition(cards: &[Card], copies: usize) {
    assert_eq!(cards.len(), 52 * copies);
    for r in RANKS {
        for s in SUITS {
            let count = cards.iter().filter(|c| **c == card(r, s)).count();
            assert_eq!(count, copies);
        }
    }
}

#[test]
fn fresh_deck_holds_every_card_once() {
    let mut deck = Deck::new(1);
    assert_eq!(deck.remaining(), 52);
    let cards = drain(&mut deck);
    assert_full_composition(&cards, 1);
}

#[test]
fn reset_deals_every_card_exactly_n_times() {
    for n in [1usize, 2, 3] {
        let mut deck = Deck::new(n);
        // Burn a few cards so reset really refills.
        let _ = deck.draw();
        let _ = deck.draw();
        deck.reset();
        assert_eq!(deck.remaining(), 52 * n);
        let cards = drain(&mut deck);
        assert_full_composition(&cards, n);
    }
}

#[test]
fn draw_on_empty_deck_is_reported() {
    let mut deck = Deck::with_cards(1, vec![card(Rank::Two, Suit::Clubs)]);
    assert!(deck.draw().is_ok());
    assert_eq!(deck.draw(), Err(EngineError::DeckExhausted));
    assert_eq!(deck.remaining(), 0);
}

#[test]
fn arranged_shoe_deals_in_order() {
    let mut deck = shoe(vec![
        card(Rank::Ace, Suit::Spades),
        card(Rank::Ten, Suit::Clubs),
    ]);
    assert_eq!(deck.draw(), Ok(card(Rank::Ace, Suit::Spades)));
    assert_eq!(deck.draw(), Ok(card(Rank::Ten, Suit::Clubs)));
}

#[test]
fn bet_rejects_bad_amounts_and_leaves_balance_unchanged() {
    let mut deck = Deck::new(1);
    let mut p = Player::new("Seat".to_string(), false, 1000);
    assert_eq!(p.bet(0, &mut deck), Err(EngineError::InvalidBet));
    assert_eq!(p.get_balance(), 1000);
    assert_eq!(p.bet(-5, &mut deck), Err(EngineError::InvalidBet));
    assert_eq!(p.get_balance(), 1000);
    assert_eq!(p.bet(1001, &mut deck), Err(EngineError::InvalidBet));
    assert_eq!(p.get_balance(), 1000);
    assert_eq!(deck.remaining(), 52);
    assert_eq!(p.bet(1000, &mut deck), Ok(()));
    assert_eq!(p.get_balance(), 0);
    assert_eq!(deck.remaining(), 50);
}

#[test]
fn bet_mid_round_is_rejected() {
    let mut deck = Deck::new(1);
    let mut p = Player::new("Seat".to_string(), false, 1000);
    assert_eq!(p.bet(100, &mut deck), Ok(()));
    assert_eq!(p.bet(100, &mut deck), Err(EngineError::InvalidDecision));
    assert_eq!(p.get_balance(), 900);
}

#[test]
fn bet_on_exhausted_shoe_is_rejected_atomically() {
    let mut deck = Deck::with_cards(1, vec![card(Rank::Two, Suit::Clubs)]);
    let mut p = Player::new("Seat".to_string(), false, 1000);
    assert_eq!(p.bet(100, &mut deck), Err(EngineError::DeckExhausted));
    assert_eq!(p.get_balance(), 1000);
    assert_eq!(deck.remaining(), 1);
}

#[test]
fn hit_draws_and_busts_over_21() {
    let mut deck = shoe(vec![
        card(Rank::Ten, Suit::Hearts),
        card(Rank::Nine, Suit::Clubs),
        card(Rank::Five, Suit::Diamonds),
    ]);
    let mut p = Player::new("Seat".to_string(), false, 1000);
    assert_eq!(p.bet(100, &mut deck), Ok(()));
    assert_eq!(p.hands[0].value(), 19);
    assert!(p.is_playing());
    assert_eq!(p.hit(&mut deck), Ok(()));
    assert_eq!(p.hands[0].value(), 24);
    assert_eq!(p.hands[0].state, HandState::Busted);
    assert!(!p.is_playing());
    assert!(p.has_lost());
    // Terminal hands take no further decisions.
    assert_eq!(p.hit(&mut deck), Err(EngineError::InvalidDecision));
    assert_eq!(p.stand(), Err(EngineError::InvalidDecision));
    assert_eq!(p.surrender(), Err(EngineError::InvalidDecision));
}

#[test]
fn hit_on_exhausted_shoe_is_rejected() {
    let mut deck = shoe(vec![
        card(Rank::Ten, Suit::Hearts),
        card(Rank::Nine, Suit::Clubs),
    ]);
    let mut p = Player::new("Seat".to_string(), false, 1000);
    assert_eq!(p.bet(100, &mut deck), Ok(()));
    assert_eq!(p.hit(&mut deck), Err(EngineError::DeckExhausted));
    assert_eq!(p.hands[0].state, HandState::Playing);
    assert_eq!(p.hands[0].cards().len(), 2);
}

#[test]
fn stand_freezes_the_hand() {
    let mut deck = Deck::new(1);
    let mut p = Player::new("Seat".to_string(), false, 1000);
    assert_eq!(p.bet(100, &mut deck), Ok(()));
    assert_eq!(p.stand(), Ok(()));
    assert_eq!(p.hands[0].state, HandState::Standing);
    assert!(!p.is_playing());
}

#[test]
fn dealer_stands_at_seventeen_without_drawing() {
    let mut deck = shoe(vec![
        card(Rank::Ten, Suit::Spades),
        card(Rank::Nine, Suit::Clubs),
        card(Rank::Two, Suit::Hearts),
    ]);
    let mut dealer = Player::new("Dealer".to_string(), true, -1);
    assert_eq!(dealer.bet(0, &mut deck), Ok(()));
    assert_eq!(dealer.bet(0, &mut deck), Ok(()));
    assert_eq!(dealer.hands[0].value(), 19);
    let before = deck.remaining();
    let v = dealer.play_as_dealer(&mut deck);
    assert_eq!(v, 19);
    // Already at 17 or more: not a single further draw.
    assert_eq!(deck.remaining(), before);
    assert_eq!(dealer.hands[0].state, HandState::Standing);
}

#[test]
fn dealer_draws_to_seventeen_and_stops() {
    let mut dealer = Player::new("Dealer".to_string(), true, -1);
    let mut deck = shoe(vec![
        card(Rank::Two, Suit::Clubs),
        card(Rank::Three, Suit::Clubs),
        card(Rank::Four, Suit::Clubs),
        card(Rank::Five, Suit::Clubs),
        card(Rank::Six, Suit::Clubs),
        card(Rank::Ten, Suit::Clubs),
    ]);
    assert_eq!(dealer.bet(0, &mut deck), Ok(()));
    // 2, then draws 3, 4, 5, 6 to reach 20; the 10 must stay in the shoe.
    let v = dealer.play_as_dealer(&mut deck);
    assert_eq!(v, 20);
    assert_eq!(deck.remaining(), 1);
    assert_eq!(dealer.hands[0].state, HandState::Standing);
}

#[test]
fn dealer_stops_at_bust_and_never_draws_after() {
    let mut dealer = Player::new("Dealer".to_string(), true, -1);
    let mut deck = shoe(vec![
        card(Rank::Ten, Suit::Clubs),
        card(Rank::Six, Suit::Clubs),
        card(Rank::Ten, Suit::Hearts),
        card(Rank::Two, Suit::Clubs),
    ]);
    assert_eq!(dealer.bet(0, &mut deck), Ok(()));
    assert_eq!(dealer.bet(0, &mut deck), Ok(()));
    // 16, draws a ten and busts at 26; the last card must stay in the shoe.
    let v = dealer.play_as_dealer(&mut deck);
    assert_eq!(v, 26);
    assert_eq!(dealer.hands[0].state, HandState::Busted);
    assert_eq!(deck.remaining(), 1);
}

#[test]
fn settlement_is_idempotent() {
    let mut deck = shoe(vec![
        card(Rank::Nine, Suit::Diamonds),
        card(Rank::Eight, Suit::Clubs),
    ]);
    let mut p = Player::new("Seat".to_string(), false, 1000);
    assert_eq!(p.bet(100, &mut deck), Ok(()));
    assert_eq!(p.stand(), Ok(()));
    // Dealer stands at 18: the seat's 17 loses its wager.
    assert_eq!(p.game_over(18, false), Ok(()));
    assert_eq!(p.get_balance(), 900);
    assert_eq!(p.hands[0].state, HandState::Settled);
    // Settling again is rejected and pays nothing more.
    assert_eq!(p.game_over(18, false), Err(EngineError::AlreadySettled));
    assert_eq!(p.get_balance(), 900);
    assert_eq!(p.game_over(2, true), Err(EngineError::AlreadySettled));
    assert_eq!(p.get_balance(), 900);
}

#[test]
fn settlement_while_in_play_is_rejected() {
    let mut deck = Deck::new(1);
    let mut p = Player::new("Seat".to_string(), false, 1000);
    assert_eq!(p.bet(100, &mut deck), Ok(()));
    assert_eq!(p.game_over(17, false), Err(EngineError::InvalidDecision));
    assert_eq!(p.get_balance(), 900);
    assert_eq!(p.hands[0].state, HandState::Playing);
}

#[test]
fn settlement_pays_the_payout_table() {
    // Plain win at 1:1.
    let mut deck = shoe(vec![
        card(Rank::Ten, Suit::Clubs),
        card(Rank::Nine, Suit::Clubs),
    ]);
    let mut p = Player::new("Seat".to_string(), false, 1000);
    assert_eq!(p.bet(100, &mut deck), Ok(()));
    assert_eq!(p.stand(), Ok(()));
    assert_eq!(p.game_over(18, false), Ok(()));
    assert_eq!(p.get_balance(), 1100);

    // Win against a busted dealer, 1:1, even at a lower total.
    let mut deck = shoe(vec![
        card(Rank::Ten, Suit::Clubs),
        card(Rank::Two, Suit::Clubs),
    ]);
    let mut p = Player::new("Seat".to_string(), false, 1000);
    assert_eq!(p.bet(100, &mut deck), Ok(()));
    assert_eq!(p.stand(), Ok(()));
    assert_eq!(p.game_over(22, false), Ok(()));
    assert_eq!(p.get_balance(), 1100);

    // Natural blackjack pays 3:2.
    let mut deck = shoe(vec![
        card(Rank::Ace, Suit::Spades),
        card(Rank::King, Suit::Clubs),
    ]);
    let mut p = Player::new("Seat".to_string(), false, 1000);
    assert_eq!(p.bet(100, &mut deck), Ok(()));
    assert_eq!(p.stand(), Ok(()));
    assert_eq!(p.game_over(20, false), Ok(()));
    assert_eq!(p.get_balance(), 1150);

    // Blackjack against a dealer blackjack is a push.
    let mut deck = shoe(vec![
        card(Rank::Ace, Suit::Spades),
        card(Rank::King, Suit::Clubs),
    ]);
    let mut p = Player::new("Seat".to_string(), false, 1000);
    assert_eq!(p.bet(100, &mut deck), Ok(()));
    assert_eq!(p.stand(), Ok(()));
    assert_eq!(p.game_over(21, true), Ok(()));
    assert_eq!(p.get_balance(), 1000);
}

#[test]
fn create_game_builds_a_fresh_single_deck_table() {
    let g = create_game();
    let mut deck = g.deck;
    assert_eq!(deck.remaining(), 52);
    let cards = drain(&mut deck);
    assert_full_composition(&cards, 1);
    assert_eq!(g.player.get_balance(), 1000);
    assert!(!g.player.is_dealer);
    assert!(g.dealer.is_dealer);
    assert_eq!(g.dealer.get_balance(), -1);
}

#[test]
fn unsupported_decisions_are_rejected() {
    let mut game = Game::new();
    assert!(game.make_bet(100));
    assert_eq!(
        game.player_decision(Decision::Double),
        Err(EngineError::InvalidDecision)
    );
    assert_eq!(
        game.player_decision(Decision::Split),
        Err(EngineError::InvalidDecision)
    );
    assert_eq!(game.player_balance(), 900);
}

#[test]
fn make_bet_rejects_over_balance_and_non_positive() {
    let mut game = Game::new();
    assert!(!game.make_bet(0));
    assert!(!game.make_bet(-1));
    assert!(!game.make_bet(1001));
    assert_eq!(game.player_balance(), 1000);
    assert!(!game.is_player_playing());
    assert!(game.make_bet(1000));
    assert_eq!(game.player_balance(), 0);
}

/// Fresh single-deck round; the arranged shoe gives the seat a ten and an
/// ace: blackjack is reported immediately on the first two cards.
#[test]
fn scenario_natural_blackjack_on_the_deal() {
    let mut game = Game::new();
    game.actors.deck = shoe(vec![
        card(Rank::Ten, Suit::Clubs),
        card(Rank::Ace, Suit::Spades),
        card(Rank::Ten, Suit::Hearts),
        card(Rank::Nine, Suit::Hearts),
    ]);
    assert!(game.make_bet(100));
    let hand = &game.actors.player.hands[0];
    assert_eq!(hand.cards().len(), 2);
    assert_eq!(hand.value(), 21);
    assert!(hand.is_blackjack());
    assert_eq!(game.player_hand(), vec!["10C".to_string(), "AS".to_string()]);
    // Dealer plays to 19; the natural still pays 3:2.
    assert_eq!(game.player_decision(Decision::Stand), Ok(()));
    assert_eq!(game.dealer_draw_card(), Ok(()));
    let dealer_value = game.dealer_play_as_dealer();
    assert_eq!(dealer_value, 19);
    assert_eq!(game.game_over(dealer_value), Ok(()));
    assert_eq!(game.player_balance(), 1150);
}

/// Seat stands on 17; the dealer draws to 17 as well: a push, the balance
/// net of the returned wager is unchanged.
#[test]
fn scenario_push_at_seventeen() {
    let mut game = Game::new();
    game.actors.deck = shoe(vec![
        card(Rank::Nine, Suit::Diamonds),
        card(Rank::Eight, Suit::Clubs),
        card(Rank::Seven, Suit::Hearts),
        card(Rank::Ten, Suit::Spades),
    ]);
    assert!(game.make_bet(100));
    assert_eq!(game.player_balance(), 900);
    assert_eq!(game.player_decision(Decision::Stand), Ok(()));
    assert_eq!(game.dealer_draw_card(), Ok(()));
    let dealer_value = game.dealer_play_as_dealer();
    assert_eq!(dealer_value, 17);
    assert_eq!(
        game.dealer_hand(),
        vec!["7H".to_string(), "10S".to_string()]
    );
    assert_eq!(game.game_over(dealer_value), Ok(()));
    assert_eq!(game.player_balance(), 1000);
}

/// Seat hits 19, draws a five and busts at 24: the wager is lost and dealer
/// play is skipped for the seat.
#[test]
fn scenario_bust_loses_wager_and_skips_dealer() {
    let mut game = Game::new();
    game.actors.deck = shoe(vec![
        card(Rank::Ten, Suit::Hearts),
        card(Rank::Nine, Suit::Clubs),
        card(Rank::Five, Suit::Diamonds),
    ]);
    assert!(game.make_bet(100));
    assert_eq!(game.player_decision(Decision::Hit), Ok(()));
    assert_eq!(game.actors.player.hands[0].value(), 24);
    assert!(game.has_player_lost());
    assert!(!game.is_player_playing());
    // Dealer play is skipped: settle directly; the dealer hand was never
    // dealt and is simply left alone.
    assert_eq!(game.game_over(0), Ok(()));
    assert_eq!(game.player_balance(), 900);
    assert_eq!(game.actors.player.hands[0].state, HandState::Settled);
}

/// Seat surrenders on 16 before any hit: exactly half the wager is lost and
/// the hand is terminal.
#[test]
fn scenario_surrender_loses_half_the_wager() {
    let mut game = Game::new();
    game.actors.deck = shoe(vec![
        card(Rank::Ten, Suit::Spades),
        card(Rank::Six, Suit::Diamonds),
    ]);
    assert!(game.make_bet(100));
    assert_eq!(game.actors.player.hands[0].value(), 16);
    assert_eq!(game.player_decision(Decision::Surrender), Ok(()));
    assert_eq!(game.actors.player.hands[0].state, HandState::Surrendered);
    assert!(!game.is_player_playing());
    assert_eq!(
        game.player_decision(Decision::Hit),
        Err(EngineError::InvalidDecision)
    );
    assert_eq!(game.game_over(0), Ok(()));
    assert_eq!(game.player_balance(), 950);
}

#[test]
fn game_over_twice_reports_already_settled() {
    let mut game = Game::new();
    game.actors.deck = shoe(vec![
        card(Rank::Ten, Suit::Spades),
        card(Rank::Nine, Suit::Diamonds),
        card(Rank::Ten, Suit::Hearts),
        card(Rank::Eight, Suit::Clubs),
    ]);
    assert!(game.make_bet(100));
    assert_eq!(game.player_decision(Decision::Stand), Ok(()));
    assert_eq!(game.dealer_draw_card(), Ok(()));
    let dealer_value = game.dealer_play_as_dealer();
    assert_eq!(dealer_value, 18);
    assert_eq!(game.game_over(dealer_value), Ok(()));
    assert_eq!(game.player_balance(), 1100);
    assert_eq!(
        game.game_over(dealer_value),
        Err(EngineError::AlreadySettled)
    );
    assert_eq!(game.player_balance(), 1100);
}

#[test]
fn next_round_can_start_after_settlement() {
    let mut game = Game::new();
    game.actors.deck = shoe(vec![
        card(Rank::Ten, Suit::Spades),
        card(Rank::Nine, Suit::Diamonds),
        card(Rank::Two, Suit::Clubs),
        card(Rank::Three, Suit::Clubs),
    ]);
    assert!(game.make_bet(100));
    assert_eq!(game.player_decision(Decision::Stand), Ok(()));
    assert_eq!(game.game_over(20), Ok(()));
    assert_eq!(game.player_balance(), 900);
    // The balance persists and a fresh bet opens a new hand.
    assert!(game.make_bet(200));
    assert_eq!(game.player_balance(), 700);
    assert_eq!(game.actors.player.hands[0].cards().len(), 2);
    assert_eq!(game.actors.player.hands[0].state, HandState::Playing);
}
