//! Hands: an ordered sequence of cards with a derived best value under the
//! ace rules, bust/blackjack detection, and the per-hand lifecycle state of
//! the player decision machine.

use vstd::prelude::*;

use crate::card::Card;
use crate::card::Rank;
use crate::card::spec_min_points;
use crate::card::spec_points;

verus! {

/// The lifecycle state of one hand under the decision state machine:
/// `Betting` until a wager is accepted, `Playing` while decisions are open,
/// then one terminal state, and `Settled` once the payout has been applied.
#[derive(Clone, Copy, PartialEq, Eq, Structural, Debug)]
pub enum HandState {
    Betting,
    Playing,
    Standing,
    Busted,
    Surrendered,
    Settled,
}

/// One seat's hand: its cards in draw order, the wager at risk on it, and
/// its lifecycle state. The numeric value is always derived from the cards,
/// never stored.
pub struct Hand {
    pub cards: Vec<Card>,
    pub wager: i32,
    pub state: HandState,
}

/// The total of a sequence of cards with every Ace counted low (1): the
/// minimum total the hand can make.
pub open spec fn spec_min_total(s: Seq<Card>) -> int
    decreases s.len(),
{
    if s.len() == 0 {
        0
    } else {
        spec_min_total(s.drop_last()) + spec_min_points(s.last().rank)
    }
}

/// How many Aces a sequence of cards holds.
pub open spec fn spec_num_aces(s: Seq<Card>) -> int
    decreases s.len(),
{
    if s.len() == 0 {
        0
    } else {
        spec_num_aces(s.drop_last()) + if s.last().rank == Rank::Ace {
            1int
        } else {
            0int
        }
    }
}

/// The best total at most 21 obtainable by counting any subset of the Aces
/// as 11 and the rest as 1; if no choice stays at or under 21 this is the
/// all-aces-low minimum total. At most one Ace can ever count as 11 (two
/// would already total 22), so the best value promotes one Ace exactly when
/// that still fits.
pub open spec fn spec_hand_value(s: Seq<Card>) -> int {
    if spec_num_aces(s) > 0 && spec_min_total(s) + 10 <= 21 {
        spec_min_total(s) + 10
    } else {
        spec_min_total(s)
    }
}

/// A hand is bust when even the all-aces-low total exceeds 21.
pub open spec fn spec_is_bust(s: Seq<Card>) -> bool {
    spec_hand_value(s) > 21
}

/// A natural: exactly two cards totalling 21. A 21 built from three or more
/// cards is a plain 21, never a blackjack.
pub open spec fn spec_is_blackjack(s: Seq<Card>) -> bool {
    s.len() == 2 && spec_hand_value(s) == 21
}

/// Every card is worth at least 1 and at most 11 low / high, so the minimum
/// total and the ace count grow within these bounds.
pub proof fn lemma_min_total_bounds(s: Seq<Card>)
    ensures
        s.len() <= spec_min_total(s) <= 10 * s.len(),
        0 <= spec_num_aces(s) <= s.len(),
    decreases s.len(),
{
    if s.len() > 0 {
        lemma_min_total_bounds(s.drop_last());
    }
}

/// The minimum total of a prefix never exceeds the minimum total of the
/// whole hand: cards only ever add points.
pub proof fn lemma_min_total_prefix(s: Seq<Card>, i: int)
    requires
        0 <= i <= s.len(),
    ensures
        spec_min_total(s.take(i)) <= spec_min_total(s),
    decreases s.len() - i,
{
    if i < s.len() {
        lemma_min_total_prefix(s, i + 1);
        assert(s.take(i + 1).drop_last() =~= s.take(i));
        lemma_min_total_bounds(s.take(i + 1));
    } else {
        assert(s.take(i) =~= s);
    }
}

/// The reported value is never negative, never below the minimum possible
/// total, stays at or under 21 on a non-bust hand, and on a bust hand it is
/// exactly the all-aces-low minimum total.
pub proof fn lemma_hand_value_bounds(s: Seq<Card>)
    ensures
        0 <= s.len() <= spec_min_total(s) <= spec_hand_value(s),
        !spec_is_bust(s) ==> spec_hand_value(s) <= 21,
        spec_is_bust(s) ==> spec_hand_value(s) == spec_min_total(s),
{
    lemma_min_total_bounds(s);
}

/// The reported value really is the best: no way of counting `k` of the
/// Aces as 11 that stays at or under 21 can beat it.
pub proof fn lemma_hand_value_is_best(s: Seq<Card>, k: int)
    requires
        0 <= k <= spec_num_aces(s),
        spec_min_total(s) + 10 * k <= 21,
    ensures
        spec_min_total(s) + 10 * k <= spec_hand_value(s) <= 21,
{
    lemma_min_total_bounds(s);
    if k >= 2 {
        // Two high Aces would need a minimum total of at most 1, yet two
        // Aces alone already contribute 2 to the minimum total.
        assert(spec_min_total(s) >= s.len() >= spec_num_aces(s) >= 2);
        assert(false);
    }
}

/// A two-card Ace plus ten-value hand is always a blackjack.
pub proof fn lemma_natural_is_blackjack(c1: Card, c2: Card)
    requires
        (c1.rank == Rank::Ace && spec_points(c2.rank) == 10) || (c2.rank == Rank::Ace
            && spec_points(c1.rank) == 10),
    ensures
        spec_is_blackjack(seq![c1, c2]),
        spec_hand_value(seq![c1, c2]) == 21,
{
    let s = seq![c1, c2];
    assert(s.drop_last() =~= seq![c1]);
    assert(seq![c1].drop_last() =~= Seq::<Card>::empty());
    assert(spec_min_total(Seq::<Card>::empty()) == 0);
    assert(spec_num_aces(Seq::<Card>::empty()) == 0);
    assert(spec_min_total(seq![c1]) == spec_min_points(c1.rank));
    assert(spec_num_aces(seq![c1]) == if c1.rank == Rank::Ace {
        1int
    } else {
        0int
    });
    assert(spec_min_total(s) == spec_min_points(c1.rank) + spec_min_points(c2.rank));
    assert(spec_min_total(s) == 11);
    assert(spec_num_aces(s) == 1);
}

/// The same two cards reached on a hand of three or more cards are never a
/// blackjack: a natural is judged on the first two cards alone.
pub proof fn lemma_late_twenty_one_is_not_blackjack(s: Seq<Card>)
    requires
        s.len() != 2,
    ensures
        !spec_is_blackjack(s),
{
}

impl Hand {
    /// Internal consistency of a hand: the wager at risk is never negative,
    /// the minimum total never passes 32 (a hand only draws while it can
    /// still be at 21, and one card adds at most 11), a hand still in play
    /// is not bust, and a hand awaiting its wager is empty.
    pub open spec fn wf(self) -> bool {
        &&& self.wager >= 0
        &&& spec_min_total(self.cards@) <= 32
        &&& (self.state == HandState::Playing ==> spec_hand_value(self.cards@) <= 21)
        &&& (self.state == HandState::Betting ==> self.cards@.len() == 0 && self.wager == 0)
    }

    /// A fresh empty hand, awaiting a wager.
    pub fn new() -> (h: Hand)
        ensures
            h.cards@ == Seq::<Card>::empty(),
            h.wager == 0,
            h.state == HandState::Betting,
            h.wf(),
    {
        Hand { cards: Vec::new(), wager: 0, state: HandState::Betting }
    }

    /// A frozen hand holding exactly the given cards, for inspecting
    /// valuations outside a round. The bound on the cards' minimum total is
    /// the one every hand reachable in play obeys.
    pub fn from_cards(cards: Vec<Card>) -> (h: Hand)
        requires
            spec_min_total(cards@) <= 32,
        ensures
            h.cards@ == cards@,
            h.wager == 0,
            h.state == HandState::Standing,
            h.wf(),
    {
        Hand { cards, wager: 0, state: HandState::Standing }
    }

    /// Appends one drawn card. Only a hand that can still be at 21 draws.
    pub(crate) fn add_card(&mut self, card: Card)
        requires
            spec_min_total(old(self).cards@) <= 21,
        ensures
            final(self).cards@ == old(self).cards@.push(card),
            final(self).wager == old(self).wager,
            final(self).state == old(self).state,
            spec_min_total(final(self).cards@) <= 32,
    {
        proof {
            assert(self.cards@.push(card).drop_last() =~= self.cards@);
        }
        self.cards.push(card);
    }

    /// The cards of the hand, in draw order.
    pub fn cards(&self) -> (cs: &Vec<Card>)
        ensures
            cs@ == self.cards@,
    {
        &self.cards
    }

    /// The best total at most 21, counting Aces as 11 where that fits and
    /// demoting them to 1 one at a time while the total exceeds 21; on a
    /// bust hand this is the all-aces-low minimum total.
    pub fn value(&self) -> (v: u32)
        requires
            spec_min_total(self.cards@) <= 32,
        ensures
            v == spec_hand_value(self.cards@),
            v <= 42,
    {
        let n = self.cards.len();
        let mut total: u32 = 0;
        let mut high_aces: u32 = 0;
        let mut i: usize = 0;
        while i < n
            invariant
                0 <= i <= n,
                n == self.cards@.len(),
                spec_min_total(self.cards@) <= 32,
                total == spec_min_total(self.cards@.take(i as int)) + 10 * spec_num_aces(
                    self.cards@.take(i as int),
                ),
                high_aces == spec_num_aces(self.cards@.take(i as int)),
            decreases n - i,
        {
            proof {
                lemma_min_total_prefix(self.cards@, i + 1);
                lemma_min_total_bounds(self.cards@.take(i + 1));
                assert(self.cards@.take(i + 1).drop_last() =~= self.cards@.take(i as int));
                assert(self.cards@.take(i + 1).last() == self.cards@[i as int]);
            }
            total = total + self.cards[i].blackjack_value();
            if matches!(self.cards[i].rank, Rank::Ace) {
                high_aces = high_aces + 1;
            }
            i = i + 1;
        }
        proof {
            assert(self.cards@.take(n as int) =~= self.cards@);
            lemma_min_total_bounds(self.cards@);
        }
        while total > 21 && high_aces > 0
            invariant
                total == spec_min_total(self.cards@) + 10 * high_aces,
                0 <= high_aces <= spec_num_aces(self.cards@),
                spec_min_total(self.cards@) <= 32,
                high_aces < spec_num_aces(self.cards@) ==> spec_min_total(self.cards@) + 10 * (
                high_aces + 1) > 21,
            decreases high_aces,
        {
            total = total - 10;
            high_aces = high_aces - 1;
        }
        proof {
            if high_aces >= 2 {
                lemma_min_total_bounds(self.cards@);
                assert(spec_min_total(self.cards@) >= spec_num_aces(self.cards@));
            }
        }
        total
    }

    /// Whether the hand is bust: even the minimum total exceeds 21.
    pub fn is_bust(&self) -> (b: bool)
        requires
            spec_min_total(self.cards@) <= 32,
        ensures
            b == spec_is_bust(self.cards@),
    {
        self.value() > 21
    }

    /// Whether the hand is a natural blackjack: exactly two cards whose
    /// value is 21.
    pub fn is_blackjack(&self) -> (b: bool)
        requires
            spec_min_total(self.cards@) <= 32,
        ensures
            b == spec_is_blackjack(self.cards@),
    {
        self.cards.len() == 2 && self.value() == 21
    }
}

} // verus!
