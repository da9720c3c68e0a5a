//! A single-deck (or multi-deck shoe) blackjack round engine: cards, a
//! drawable shoe, hand valuation with soft-ace handling, the player decision
//! state machine, dealer auto-play, and round settlement.

use vstd::prelude::*;

pub mod card;
pub mod deck;
pub mod game;
pub mod hand;
pub mod player;

pub use card::Card;
pub use card::Rank;
pub use card::Suit;
pub use deck::Deck;
pub use deck::MAX_DECKS;
pub use deck::full_shoe;
pub use deck::single_deck;
pub use deck::lemma_full_shoe_count;
pub use hand::Hand;
pub use hand::HandState;
pub use player::Player;
pub use game::Game;
pub use game::GameActors;
pub use game::Decision;
pub use game::create_game;
pub use player::DEALER_STAND_MIN;

verus! {

/// Every way an engine operation can be rejected. A rejected operation never
/// mutates engine state.
#[derive(Clone, Copy, PartialEq, Eq, Structural, Debug)]
pub enum EngineError {
    /// A bet with a non-positive amount, or one above the player's balance.
    InvalidBet,
    /// A decision submitted in a state where it is not allowed.
    InvalidDecision,
    /// A draw was requested from an empty shoe.
    DeckExhausted,
    /// Settlement was requested for hands that are all already settled.
    AlreadySettled,
}

} // verus!
