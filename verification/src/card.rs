//! Cards: an immutable rank and suit, and the blackjack point value of each
//! rank. An Ace is worth 11 or 1; which of the two applies is resolved by the
//! hand, not by the card, so the card reports 11 here.

use vstd::prelude::*;
use vstd::string::StringExecFns;

verus! {

/// One of the four french suits.
#[derive(Clone, Copy, PartialEq, Eq, Structural, Debug)]
pub enum Suit {
    Clubs,
    Diamonds,
    Hearts,
    Spades,
}

/// A card rank: Ace, the number cards 2..10, and the face cards.
#[derive(Clone, Copy, PartialEq, Eq, Structural, Debug)]
pub enum Rank {
    Ace,
    Two,
    Three,
    Four,
    Five,
    Six,
    Seven,
    Eight,
    Nine,
    Ten,
    Jack,
    Queen,
    King,
}

/// An immutable playing card.
#[derive(Clone, Copy, PartialEq, Eq, Structural, Debug)]
pub struct Card {
    pub rank: Rank,
    pub suit: Suit,
}

/// The blackjack point value of a rank, with an Ace counted high (11).
/// Number cards score their face value and J/Q/K score 10.
pub open spec fn spec_points(rank: Rank) -> int {
    match rank {
        Rank::Ace => 11,
        Rank::Two => 2,
        Rank::Three => 3,
        Rank::Four => 4,
        Rank::Five => 5,
        Rank::Six => 6,
        Rank::Seven => 7,
        Rank::Eight => 8,
        Rank::Nine => 9,
        Rank::Ten => 10,
        Rank::Jack => 10,
        Rank::Queen => 10,
        Rank::King => 10,
    }
}

/// The blackjack point value of a rank with every Ace counted low (1).
pub open spec fn spec_min_points(rank: Rank) -> int {
    if rank == Rank::Ace {
        1
    } else {
        spec_points(rank)
    }
}

/// The short text label of a rank: `A`, the digits `2`..`10`, `J`, `Q`, `K`.
pub open spec fn spec_rank_label(r: Rank) -> Seq<char> {
    match r {
        Rank::Ace => "A"@,
        Rank::Two => "2"@,
        Rank::Three => "3"@,
        Rank::Four => "4"@,
        Rank::Five => "5"@,
        Rank::Six => "6"@,
        Rank::Seven => "7"@,
        Rank::Eight => "8"@,
        Rank::Nine => "9"@,
        Rank::Ten => "10"@,
        Rank::Jack => "J"@,
        Rank::Queen => "Q"@,
        Rank::King => "K"@,
    }
}

/// The short text label of a suit: its initial letter.
pub open spec fn spec_suit_label(s: Suit) -> Seq<char> {
    match s {
        Suit::Clubs => "C"@,
        Suit::Diamonds => "D"@,
        Suit::Hearts => "H"@,
        Suit::Spades => "S"@,
    }
}

/// The short text label of a card: its rank label then its suit label.
pub open spec fn spec_card_label(c: Card) -> Seq<char> {
    spec_rank_label(c.rank) + spec_suit_label(c.suit)
}

impl Card {
    /// Builds the card with the given rank and suit.
    pub fn new(rank: Rank, suit: Suit) -> (c: Card)
        ensures
            c == (Card { rank, suit }),
    {
        Card { rank, suit }
    }

    /// The rank of the card.
    pub fn rank(&self) -> (r: Rank)
        ensures
            r == self.rank,
    {
        self.rank
    }

    /// The suit of the card.
    pub fn suit(&self) -> (s: Suit)
        ensures
            s == self.suit,
    {
        self.suit
    }

    /// The point value of the card with an Ace counted high: an integer in
    /// 2..=11. Pure and total over all 52 rank/suit combinations.
    pub fn blackjack_value(&self) -> (v: u32)
        ensures
            v == spec_points(self.rank),
            2 <= v <= 11,
    {
        match self.rank {
            Rank::Ace => 11,
            Rank::Two => 2,
            Rank::Three => 3,
            Rank::Four => 4,
            Rank::Five => 5,
            Rank::Six => 6,
            Rank::Seven => 7,
            Rank::Eight => 8,
            Rank::Nine => 9,
            Rank::Ten => 10,
            Rank::Jack => 10,
            Rank::Queen => 10,
            Rank::King => 10,
        }
    }

    /// The short text label of the card, rank then suit: `AS` is the ace of
    /// spades, `10C` the ten of clubs.
    pub fn label(&self) -> (s: String)
        ensures
            s@ == spec_card_label(*self),
    {
        let rank_part: &str = match self.rank {
            Rank::Ace => "A",
            Rank::Two => "2",
            Rank::Three => "3",
            Rank::Four => "4",
            Rank::Five => "5",
            Rank::Six => "6",
            Rank::Seven => "7",
            Rank::Eight => "8",
            Rank::Nine => "9",
            Rank::Ten => "10",
            Rank::Jack => "J",
            Rank::Queen => "Q",
            Rank::King => "K",
        };
        let suit_part: &str = match self.suit {
            Suit::Clubs => "C",
            Suit::Diamonds => "D",
            Suit::Hearts => "H",
            Suit::Spades => "S",
        };
        let mut s = rank_part.to_owned();
        s.append(suit_part);
        s
    }
}

} // verus!
