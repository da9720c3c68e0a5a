//! The shoe: an ordered, drawable pool of one or more full 52-card decks.
//! `new` builds the shoe in a fixed order, `reset` refills it and deals it
//! into a fresh random order, and `draw` removes one card from the drawing
//! end. Exhaustion is reported, never silently reshuffled: the reshuffle
//! policy belongs to the round, not to the shoe.

use vstd::prelude::*;
use vstd::arithmetic::div_mod::lemma_fundamental_div_mod_converse;
use vstd::seq_lib::lemma_multiset_commutative;
use vstd::seq_lib::group_to_multiset_ensures;
use vstd::multiset::Multiset;

use crate::card::Card;
use crate::card::Rank;
use crate::card::Suit;
use crate::EngineError;

verus! {

/// The most physical decks one shoe may merge. This keeps every count the
/// shoe works with comfortably inside the machine integer types.
pub const MAX_DECKS: usize = 1000;

/// The rank dealt at offset `i` within one 13-card suit run.
pub open spec fn spec_rank_of_index(i: int) -> Rank {
    if i == 0 {
        Rank::Ace
    } else if i == 1 {
        Rank::Two
    } else if i == 2 {
        Rank::Three
    } else if i == 3 {
        Rank::Four
    } else if i == 4 {
        Rank::Five
    } else if i == 5 {
        Rank::Six
    } else if i == 6 {
        Rank::Seven
    } else if i == 7 {
        Rank::Eight
    } else if i == 8 {
        Rank::Nine
    } else if i == 9 {
        Rank::Ten
    } else if i == 10 {
        Rank::Jack
    } else if i == 11 {
        Rank::Queen
    } else {
        Rank::King
    }
}

/// The suit of the `i`-th 13-card run within one 52-card deck.
pub open spec fn spec_suit_of_index(i: int) -> Suit {
    if i == 0 {
        Suit::Clubs
    } else if i == 1 {
        Suit::Diamonds
    } else if i == 2 {
        Suit::Hearts
    } else {
        Suit::Spades
    }
}

/// The offset of a rank within a suit run; inverse of `spec_rank_of_index`.
pub open spec fn spec_rank_index(r: Rank) -> int {
    match r {
        Rank::Ace => 0,
        Rank::Two => 1,
        Rank::Three => 2,
        Rank::Four => 3,
        Rank::Five => 4,
        Rank::Six => 5,
        Rank::Seven => 6,
        Rank::Eight => 7,
        Rank::Nine => 8,
        Rank::Ten => 9,
        Rank::Jack => 10,
        Rank::Queen => 11,
        Rank::King => 12,
    }
}

/// The index of a suit run within one deck; inverse of `spec_suit_of_index`.
pub open spec fn spec_suit_index(s: Suit) -> int {
    match s {
        Suit::Clubs => 0,
        Suit::Diamonds => 1,
        Suit::Hearts => 2,
        Suit::Spades => 3,
    }
}

/// One full 52-card deck in its fixed reference order: the four suits in
/// turn, each running Ace..King.
pub open spec fn single_deck() -> Seq<Card> {
    Seq::new(
        52,
        |i: int| Card { rank: spec_rank_of_index(i % 13), suit: spec_suit_of_index(i / 13) },
    )
}

/// `n` full decks, one after the other, in the fixed reference order.
pub open spec fn full_shoe(n: nat) -> Seq<Card>
    decreases n,
{
    if n == 0 {
        Seq::<Card>::empty()
    } else {
        full_shoe((n - 1) as nat) + single_deck()
    }
}

/// One 52-card deck holds each of the 52 rank/suit pairs exactly once.
pub proof fn lemma_single_deck_count(c: Card)
    ensures
        single_deck().to_multiset().count(c) == 1,
{
    broadcast use group_to_multiset_ensures;

    let d = single_deck();
    let k = 13 * spec_suit_index(c.suit) + spec_rank_index(c.rank);
    lemma_fundamental_div_mod_converse(k, 13, spec_suit_index(c.suit), spec_rank_index(c.rank));
    assert(d[k] == c);
    assert(d.contains(c));
    assert forall|i: int, j: int|
        0 <= i < d.len() && 0 <= j < d.len() && i != j implies d[i] != d[j] by {
        if d[i] == d[j] {
            assert(spec_rank_of_index(i % 13) == spec_rank_of_index(j % 13));
            assert(spec_suit_of_index(i / 13) == spec_suit_of_index(j / 13));
            assert(i % 13 == j % 13) by {
                assert(0 <= i % 13 < 13 && 0 <= j % 13 < 13) by {
                    lemma_fundamental_div_mod_converse(i, 13, i / 13, i % 13);
                };
            };
            assert(i / 13 == j / 13) by {
                assert(0 <= i / 13 < 4 && 0 <= j / 13 < 4);
            };
            assert(i == 13 * (i / 13) + i % 13) by {
                vstd::arithmetic::div_mod::lemma_fundamental_div_mod(i, 13);
            };
            assert(j == 13 * (j / 13) + j % 13) by {
                vstd::arithmetic::div_mod::lemma_fundamental_div_mod(j, 13);
            };
            assert(false);
        }
    }
    d.lemma_multiset_has_no_duplicates();
}

/// A shoe of `n` decks holds each of the 52 rank/suit pairs exactly `n`
/// times: the distinctness half of the shoe-composition law.
pub proof fn lemma_full_shoe_count(n: nat, c: Card)
    ensures
        full_shoe(n).to_multiset().count(c) == n,
        full_shoe(n).len() == 52 * n,
    decreases n,
{
    broadcast use vstd::multiset::group_multiset_axioms;

    if n == 0 {
        assert(full_shoe(0).to_multiset() =~= Multiset::<Card>::empty()) by {
            broadcast use group_to_multiset_ensures;

        };
    } else {
        lemma_full_shoe_count((n - 1) as nat, c);
        lemma_single_deck_count(c);
        lemma_multiset_commutative(full_shoe((n - 1) as nat), single_deck());
    }
}

/// The shoe: the cards still to be drawn (the drawing end is the back), and
/// the fixed number of full decks it was built from.
pub struct Deck {
    pub cards: Vec<Card>,
    pub num_decks: usize,
}

/// Draws a uniformly random index below `bound`.
///
/// Relies on `rand::RngExt::random_range` over the range `..bound`, on the
/// thread-local generator: the sample is uniform on `0..bound`, and the call
/// panics only on an empty range, which the precondition rules out.
#[verifier::external_body]
fn random_below(bound: usize) -> (r: usize)
    requires
        bound > 0,
    ensures
        r < bound,
{
    rand::RngExt::random_range(&mut rand::rng(), ..bound)
}

/// Builds the cards of `num_decks` full decks in the fixed reference order.
fn fill_shoe(num_decks: usize) -> (cards: Vec<Card>)
    requires
        1 <= num_decks <= MAX_DECKS,
    ensures
        cards@ == full_shoe(num_decks as nat),
        cards@.len() == 52 * num_decks,
{
    proof {
        lemma_full_shoe_count(num_decks as nat, Card { rank: Rank::Ace, suit: Suit::Clubs });
    }
    let mut cards: Vec<Card> = Vec::new();
    let mut d: usize = 0;
    while d < num_decks
        invariant
            0 <= d <= num_decks <= MAX_DECKS,
            cards@ == full_shoe(d as nat),
            cards@.len() == 52 * d,
        decreases num_decks - d,
    {
        let ghost base = cards@;
        let mut s: usize = 0;
        while s < 4
            invariant
                0 <= s <= 4,
                cards@ == base + single_deck().take(13 * s),
                base.len() == 52 * d,
            decreases 4 - s,
        {
            let mut r: usize = 0;
            while r < 13
                invariant
                    0 <= s < 4,
                    0 <= r <= 13,
                    cards@ == base + single_deck().take(13 * s + r),
                    base.len() == 52 * d,
                decreases 13 - r,
            {
                let card = Card { rank: rank_of_index(r), suit: suit_of_index(s) };
                proof {
                    let k = 13 * (s as int) + r;
                    lemma_fundamental_div_mod_converse(k, 13, s as int, r as int);
                    assert(single_deck()[k] == card);
                    assert(single_deck().take(k + 1) =~= single_deck().take(k).push(
                        single_deck()[k],
                    ));
                    assert((base + single_deck().take(k)).push(card) =~= base + single_deck().take(
                        k + 1,
                    ));
                }
                cards.push(card);
                r = r + 1;
            }
            s = s + 1;
        }
        proof {
            assert(single_deck().take(52) =~= single_deck());
            assert(cards@ == full_shoe((d + 1) as nat));
        }
        d = d + 1;
    }
    cards
}

/// The rank at offset `i` of a suit run.
fn rank_of_index(i: usize) -> (r: Rank)
    requires
        i < 13,
    ensures
        r == spec_rank_of_index(i as int),
{
    if i == 0 {
        Rank::Ace
    } else if i == 1 {
        Rank::Two
    } else if i == 2 {
        Rank::Three
    } else if i == 3 {
        Rank::Four
    } else if i == 4 {
        Rank::Five
    } else if i == 5 {
        Rank::Six
    } else if i == 6 {
        Rank::Seven
    } else if i == 7 {
        Rank::Eight
    } else if i == 8 {
        Rank::Nine
    } else if i == 9 {
        Rank::Ten
    } else if i == 10 {
        Rank::Jack
    } else if i == 11 {
        Rank::Queen
    } else {
        Rank::King
    }
}

/// The suit of the `i`-th run of one deck.
fn suit_of_index(i: usize) -> (s: Suit)
    requires
        i < 4,
    ensures
        s == spec_suit_of_index(i as int),
{
    if i == 0 {
        Suit::Clubs
    } else if i == 1 {
        Suit::Diamonds
    } else if i == 2 {
        Suit::Hearts
    } else {
        Suit::Spades
    }
}

impl Deck {
    /// Internal consistency: a legal deck count, and never more cards than
    /// the full shoe holds.
    pub open spec fn wf(self) -> bool {
        &&& 1 <= self.num_decks <= MAX_DECKS
        &&& self.cards@.len() <= 52 * self.num_decks
    }

    /// Builds an unshuffled shoe of `num_decks` full decks in the fixed
    /// reference order.
    pub fn new(num_decks: usize) -> (d: Deck)
        requires
            1 <= num_decks <= MAX_DECKS,
        ensures
            d.wf(),
            d.num_decks == num_decks,
            d.cards@ == full_shoe(num_decks as nat),
            d.cards@.len() == 52 * num_decks,
    {
        let cards = fill_shoe(num_decks);
        Deck { cards, num_decks }
    }

    /// Builds a shoe that will deal exactly the given cards, the last one
    /// first: a deterministic shoe, so that play can be reproduced exactly
    /// instead of depending on the random shuffle.
    pub fn with_cards(num_decks: usize, cards: Vec<Card>) -> (d: Deck)
        requires
            1 <= num_decks <= MAX_DECKS,
            cards@.len() <= 52 * num_decks,
        ensures
            d.wf(),
            d.num_decks == num_decks,
            d.cards@ == cards@,
    {
        Deck { cards, num_decks }
    }

    /// How many cards remain to be drawn.
    pub fn remaining(&self) -> (n: usize)
        ensures
            n == self.cards@.len(),
    {
        self.cards.len()
    }

    /// Discards whatever remained, refills the shoe to its full `52 × n`
    /// composition and deals it into a random order: afterwards the shoe
    /// holds exactly the cards of `n` full decks, as a multiset.
    pub fn reset(&mut self)
        requires
            old(self).wf(),
        ensures
            final(self).wf(),
            final(self).num_decks == old(self).num_decks,
            final(self).cards@.len() == 52 * old(self).num_decks,
            final(self).cards@.to_multiset() == full_shoe(old(self).num_decks as nat).to_multiset(),
    {
        broadcast use group_to_multiset_ensures;

        let ghost n = self.num_decks as nat;
        let mut src = fill_shoe(self.num_decks);
        let mut dst: Vec<Card> = Vec::new();
        proof {
            assert(dst@.to_multiset() =~= Multiset::<Card>::empty());
            assert(dst@.to_multiset().add(src@.to_multiset()) =~= full_shoe(n).to_multiset()) by {
                broadcast use vstd::multiset::group_multiset_axioms;

            };
        }
        while src.len() > 0
            invariant
                dst@.to_multiset().add(src@.to_multiset()) == full_shoe(n).to_multiset(),
                dst@.len() + src@.len() == 52 * n,
            decreases src.len(),
        {
            broadcast use group_to_multiset_ensures;

            let j = random_below(src.len());
            let ghost old_src = src@;
            let ghost old_dst = dst@;
            let c = src.remove(j);
            dst.push(c);
            proof {
                broadcast use vstd::multiset::group_multiset_axioms;

                assert(src@.to_multiset() == old_src.to_multiset().remove(c));
                assert(dst@.to_multiset() == old_dst.to_multiset().insert(c));
                assert(old_src.to_multiset().count(c) > 0) by {
                    assert(old_src.contains(c));
                };
                assert(dst@.to_multiset().add(src@.to_multiset()) =~= old_dst.to_multiset().add(
                    old_src.to_multiset(),
                ));
            }
        }
        proof {
            assert(src@.to_multiset() =~= Multiset::<Card>::empty());
            assert(dst@.to_multiset() =~= full_shoe(n).to_multiset()) by {
                broadcast use vstd::multiset::group_multiset_axioms;

            };
        }
        self.cards = dst;
    }

    /// Removes and returns the next card from the drawing end, or reports an
    /// exhausted shoe — in which case nothing changes.
    pub fn draw(&mut self) -> (r: Result<Card, EngineError>)
        ensures
            final(self).num_decks == old(self).num_decks,
            old(self).cards@.len() == 0 ==> r == Err::<Card, EngineError>(
                EngineError::DeckExhausted,
            ) && final(self).cards@ == old(self).cards@,
            old(self).cards@.len() > 0 ==> r == Ok::<Card, EngineError>(old(self).cards@.last())
                && final(self).cards@ == old(self).cards@.drop_last(),
            old(self).wf() ==> final(self).wf(),
    {
        match self.cards.pop() {
            Some(c) => Ok(c),
            None => Err(EngineError::DeckExhausted),
        }
    }
}

} // verus!
