//! Players: one participant (a seat or the dealer) owning a balance, one or
//! more hands each with its wager, and the decision state machine that turns
//! bet/hit/stand/surrender and the dealer's fixed drawing policy into a
//! settled outcome. A rejected operation never mutates anything.

use vstd::prelude::*;

use crate::card::Card;
use crate::deck::Deck;
use crate::hand::Hand;
use crate::hand::HandState;
use crate::hand::spec_hand_value;
use crate::hand::spec_is_blackjack;
use crate::hand::spec_is_bust;
use crate::hand::spec_min_total;
use crate::hand::lemma_hand_value_bounds;
use crate::EngineError;

verus! {

/// The dealer draws strictly below this total and stands on every total at
/// or above it, soft or hard: the fixed "stand on all 17s" policy.
pub const DEALER_STAND_MIN: u32 = 17;

/// The index of the first hand still open for decisions, or -1 when none is.
pub open spec fn spec_first_playing(hands: Seq<Hand>) -> int
    decreases hands.len(),
{
    if hands.len() == 0 {
        -1
    } else if hands[0].state == HandState::Playing {
        0
    } else {
        let r = spec_first_playing(hands.drop_first());
        if r < 0 {
            -1
        } else {
            r + 1
        }
    }
}

/// What `spec_first_playing` finds: -1 exactly when no hand is in play, and
/// otherwise the first index whose hand is in play.
pub proof fn lemma_first_playing_props(hands: Seq<Hand>)
    ensures
        (spec_first_playing(hands) == -1 <==> (forall|i: int|
            0 <= i < hands.len() ==> (#[trigger] hands[i].state) != HandState::Playing)),
        spec_first_playing(hands) != -1 ==> 0 <= spec_first_playing(hands) < hands.len()
            && hands[spec_first_playing(hands)].state == HandState::Playing && (forall|j: int|
            0 <= j < spec_first_playing(hands) ==> (#[trigger] hands[j].state)
                != HandState::Playing),
    decreases hands.len(),
{
    if hands.len() > 0 && hands[0].state != HandState::Playing {
        let t = hands.drop_first();
        lemma_first_playing_props(t);
        assert(forall|i: int| 0 <= i < t.len() ==> (#[trigger] t[i]) == hands[i + 1]);
        let r = spec_first_playing(t);
        if r >= 0 {
            assert(hands[r + 1].state == HandState::Playing);
            assert forall|j: int| 0 <= j < r + 1 implies (#[trigger] hands[j].state)
                != HandState::Playing by {
                if j > 0 {
                    assert(t[j - 1].state != HandState::Playing);
                }
            }
        } else {
            assert forall|i: int| 0 <= i < hands.len() implies (#[trigger] hands[i].state)
                != HandState::Playing by {
                if i > 0 {
                    assert(t[i - 1].state != HandState::Playing);
                }
            }
        }
    }
}

/// Whether every hand may still take a fresh wager: nothing mid-round.
pub open spec fn spec_can_bet(hands: Seq<Hand>) -> bool {
    forall|i: int|
        0 <= i < hands.len() ==> (#[trigger] hands[i].state) == HandState::Betting || hands[i].state
            == HandState::Settled
}

/// Whether some hand is still open: awaiting its wager or in play.
pub open spec fn spec_any_open(hands: Seq<Hand>) -> bool {
    exists|i: int|
        0 <= i < hands.len() && ((#[trigger] hands[i].state) == HandState::Playing || hands[i].state
            == HandState::Betting)
}

/// Whether every hand has already been settled.
pub open spec fn spec_all_settled(hands: Seq<Hand>) -> bool {
    forall|i: int| 0 <= i < hands.len() ==> (#[trigger] hands[i].state) == HandState::Settled
}

/// Whether every hand is busted: the seat has lost outright and dealer play
/// may be skipped.
pub open spec fn spec_all_busted(hands: Seq<Hand>) -> bool {
    forall|i: int| 0 <= i < hands.len() ==> (#[trigger] hands[i].state) == HandState::Busted
}

/// The amount returned to the seat for one unsettled terminal hand, judged
/// against the dealer's final value: nothing on a bust, half the wager back
/// on a surrender, the wager back on a push, twice the wager on a plain win,
/// and two and a half times the wager on a natural blackjack (3:2). The
/// wager itself was already taken when the bet was placed.
pub open spec fn spec_payout(h: Hand, dealer_value: int, dealer_blackjack: bool) -> int {
    let w = h.wager as int;
    if h.state == HandState::Busted {
        0
    } else if h.state == HandState::Surrendered {
        w / 2
    } else if spec_is_blackjack(h.cards@) {
        if dealer_blackjack {
            w
        } else {
            2 * w + w / 2
        }
    } else if dealer_value > 21 {
        2 * w
    } else if spec_hand_value(h.cards@) > dealer_value {
        2 * w
    } else if spec_hand_value(h.cards@) == dealer_value {
        w
    } else {
        0
    }
}

/// The total returned across the hands not yet settled; settled hands have
/// been paid already and contribute nothing.
pub open spec fn spec_total_payout(hands: Seq<Hand>, dealer_value: int, dealer_blackjack: bool) -> int
    decreases hands.len(),
{
    if hands.len() == 0 {
        0
    } else {
        spec_total_payout(hands.drop_last(), dealer_value, dealer_blackjack) + if hands.last().state
            == HandState::Settled {
            0int
        } else {
            spec_payout(hands.last(), dealer_value, dealer_blackjack)
        }
    }
}

/// The hand as settlement leaves it: only the lifecycle state changes.
pub open spec fn spec_settled_hand(h: Hand) -> Hand {
    Hand { state: HandState::Settled, ..h }
}

/// A payout is never negative on a well-formed hand.
pub proof fn lemma_payout_nonneg(h: Hand, dealer_value: int, dealer_blackjack: bool)
    requires
        h.wf(),
    ensures
        spec_payout(h, dealer_value, dealer_blackjack) >= 0,
{
}

/// A settlement total over well-formed hands is never negative.
pub proof fn lemma_total_payout_nonneg(hands: Seq<Hand>, dealer_value: int, dealer_blackjack: bool)
    requires
        forall|j: int| 0 <= j < hands.len() ==> (#[trigger] hands[j]).wf(),
    ensures
        spec_total_payout(hands, dealer_value, dealer_blackjack) >= 0,
    decreases hands.len(),
{
    if hands.len() > 0 {
        lemma_total_payout_nonneg(hands.drop_last(), dealer_value, dealer_blackjack);
        lemma_payout_nonneg(hands.last(), dealer_value, dealer_blackjack);
    }
}

/// The total payout over a prefix never exceeds the total over the whole,
/// and neither is negative.
pub proof fn lemma_total_payout_prefix(
    hands: Seq<Hand>,
    i: int,
    dealer_value: int,
    dealer_blackjack: bool,
)
    requires
        0 <= i <= hands.len(),
        forall|j: int| 0 <= j < hands.len() ==> (#[trigger] hands[j]).wf(),
    ensures
        0 <= spec_total_payout(hands.take(i), dealer_value, dealer_blackjack) <= spec_total_payout(
            hands,
            dealer_value,
            dealer_blackjack,
        ),
    decreases hands.len() - i,
{
    assert(forall|j: int| 0 <= j < i ==> hands.take(i)[j] == hands[j]);
    lemma_total_payout_nonneg(hands.take(i), dealer_value, dealer_blackjack);
    if i < hands.len() {
        lemma_total_payout_prefix(hands, i + 1, dealer_value, dealer_blackjack);
        assert(hands.take(i + 1).drop_last() =~= hands.take(i));
        lemma_payout_nonneg(hands[i], dealer_value, dealer_blackjack);
    } else {
        assert(hands.take(i) =~= hands);
    }
}

/// Hands that are all settled pay nothing more, however often settlement is
/// judged against them, and settling them again changes nothing: settlement
/// is idempotent.
pub proof fn lemma_settlement_idempotent(
    hands: Seq<Hand>,
    dealer_value: int,
    dealer_blackjack: bool,
)
    ensures
        spec_all_settled(hands.map_values(|h: Hand| spec_settled_hand(h))),
        spec_total_payout(
            hands.map_values(|h: Hand| spec_settled_hand(h)),
            dealer_value,
            dealer_blackjack,
        ) == 0,
        hands.map_values(|h: Hand| spec_settled_hand(h)).map_values(
            |h: Hand| spec_settled_hand(h),
        ) == hands.map_values(|h: Hand| spec_settled_hand(h)),
    decreases hands.len(),
{
    let once = hands.map_values(|h: Hand| spec_settled_hand(h));
    assert(once.map_values(|h: Hand| spec_settled_hand(h)) =~= once);
    lemma_all_settled_pay_nothing(once, dealer_value, dealer_blackjack);
}

/// Settled hands contribute nothing to a settlement total.
pub proof fn lemma_all_settled_pay_nothing(
    hands: Seq<Hand>,
    dealer_value: int,
    dealer_blackjack: bool,
)
    requires
        spec_all_settled(hands),
    ensures
        spec_total_payout(hands, dealer_value, dealer_blackjack) == 0,
    decreases hands.len(),
{
    if hands.len() > 0 {
        lemma_all_settled_pay_nothing(hands.drop_last(), dealer_value, dealer_blackjack);
    }
}

/// Which way a seat's bet is decided: rejected for a bad amount, rejected
/// mid-round, rejected on a shoe too short for the initial deal, and
/// accepted otherwise.
pub open spec fn spec_bet_check(p: Player, amount: int, deck_len: int) -> Result<(), EngineError> {
    if amount <= 0 || amount > p.balance {
        Err(EngineError::InvalidBet)
    } else if !spec_can_bet(p.hands@) {
        Err(EngineError::InvalidDecision)
    } else if deck_len < 2 {
        Err(EngineError::DeckExhausted)
    } else {
        Ok(())
    }
}

/// Which way the dealer's no-wager draw is decided: only a zero wager, only
/// on a hand awaiting cards or in play, and only from a non-empty shoe.
pub open spec fn spec_dealer_draw_check(p: Player, amount: int, deck_len: int) -> Result<
    (),
    EngineError,
> {
    if amount != 0 {
        Err(EngineError::InvalidBet)
    } else if p.hands@[0].state != HandState::Betting && p.hands@[0].state != HandState::Playing {
        Err(EngineError::InvalidDecision)
    } else if deck_len == 0 {
        Err(EngineError::DeckExhausted)
    } else {
        Ok(())
    }
}

/// Which way a hit is decided: rejected when no hand is in play, rejected on
/// an empty shoe, and accepted otherwise.
pub open spec fn spec_hit_result(p: Player, deck_len: int) -> Result<(), EngineError> {
    if spec_first_playing(p.hands@) == -1 {
        Err(EngineError::InvalidDecision)
    } else if deck_len == 0 {
        Err(EngineError::DeckExhausted)
    } else {
        Ok(())
    }
}

/// What an accepted hit changes: the first hand in play gains the shoe's
/// next card and busts exactly when its new total exceeds 21; everything
/// else stays as it was.
pub open spec fn spec_hit_effect(oldp: Player, olddeck: Deck, newp: Player, newdeck: Deck) -> bool {
    let fp = spec_first_playing(oldp.hands@);
    &&& newdeck.cards@ == olddeck.cards@.drop_last()
    &&& newdeck.num_decks == olddeck.num_decks
    &&& newp.balance == oldp.balance
    &&& newp.name@ == oldp.name@
    &&& newp.is_dealer == oldp.is_dealer
    &&& newp.hands@.len() == oldp.hands@.len()
    &&& (forall|j: int|
        0 <= j < oldp.hands@.len() && j != fp ==> newp.hands@[j] == oldp.hands@[j])
    &&& newp.hands@[fp].cards@ == oldp.hands@[fp].cards@.push(olddeck.cards@.last())
    &&& newp.hands@[fp].wager == oldp.hands@[fp].wager
    &&& newp.hands@[fp].state == (if spec_is_bust(newp.hands@[fp].cards@) {
        HandState::Busted
    } else {
        HandState::Playing
    })
}

/// Which way a stand or surrender is decided: rejected exactly when no hand
/// is in play.
pub open spec fn spec_freeze_result(p: Player) -> Result<(), EngineError> {
    if spec_first_playing(p.hands@) == -1 {
        Err(EngineError::InvalidDecision)
    } else {
        Ok(())
    }
}

/// What an accepted stand or surrender changes: the first hand in play moves
/// to the given terminal state, cards and wager frozen; everything else
/// stays as it was.
pub open spec fn spec_freeze_effect(oldp: Player, newp: Player, state: HandState) -> bool {
    let fp = spec_first_playing(oldp.hands@);
    &&& newp.balance == oldp.balance
    &&& newp.name@ == oldp.name@
    &&& newp.is_dealer == oldp.is_dealer
    &&& newp.hands@.len() == oldp.hands@.len()
    &&& (forall|j: int|
        0 <= j < oldp.hands@.len() && j != fp ==> newp.hands@[j] == oldp.hands@[j])
    &&& newp.hands@[fp].cards@ == oldp.hands@[fp].cards@
    &&& newp.hands@[fp].wager == oldp.hands@[fp].wager
    &&& newp.hands@[fp].state == state
}

/// What the dealer's auto-play changes when its hand was in play: the hand
/// extends by the cards drawn from the shoe's drawing end, each drawn while
/// the value was still below the stand threshold and the hand not yet bust;
/// at the end the hand stands at 17 or more, has bust, or the shoe is empty,
/// and `r` reports the final value either way.
pub open spec fn spec_dealer_play_effect(
    oldp: Player,
    olddeck: Deck,
    newp: Player,
    newdeck: Deck,
    r: u32,
) -> bool {
    let oc = oldp.hands@[0].cards@;
    let nc = newp.hands@[0].cards@;
    let k = nc.len() - oc.len();
    let l = olddeck.cards@.len() as int;
    &&& newp.balance == oldp.balance
    &&& newp.name@ == oldp.name@
    &&& newp.is_dealer == oldp.is_dealer
    &&& newp.hands@.len() == oldp.hands@.len()
    &&& (forall|j: int| 1 <= j < oldp.hands@.len() ==> newp.hands@[j] == oldp.hands@[j])
    &&& newp.hands@[0].wager == oldp.hands@[0].wager
    &&& nc.len() >= oc.len()
    &&& k <= l
    &&& newdeck.num_decks == olddeck.num_decks
    &&& newdeck.cards@ == olddeck.cards@.take(l - k)
    &&& nc == oc + olddeck.cards@.subrange(l - k, l).reverse()
    &&& r == spec_hand_value(nc)
    &&& (forall|i: int|
        oc.len() <= i < nc.len() ==> spec_hand_value(#[trigger] nc.take(i)) < (
        DEALER_STAND_MIN as int) && !spec_is_bust(nc.take(i)))
    &&& (spec_hand_value(nc) >= DEALER_STAND_MIN as int || newdeck.cards@.len() == 0)
    &&& newp.hands@[0].state == (if spec_is_bust(nc) {
        HandState::Busted
    } else if spec_hand_value(nc) >= DEALER_STAND_MIN as int {
        HandState::Standing
    } else {
        HandState::Playing
    })
}

/// Which way a settlement is decided: rejected while any hand is still open,
/// rejected — never paid twice — when every hand is already settled, and
/// accepted otherwise.
pub open spec fn spec_settle_result(p: Player) -> Result<(), EngineError> {
    if spec_any_open(p.hands@) {
        Err(EngineError::InvalidDecision)
    } else if spec_all_settled(p.hands@) {
        Err(EngineError::AlreadySettled)
    } else {
        Ok(())
    }
}

/// What an accepted settlement changes: the balance grows by the total
/// payout of the hands not yet settled, and every hand is marked settled.
pub open spec fn spec_settle_effect(
    oldp: Player,
    newp: Player,
    dealer_value: int,
    dealer_blackjack: bool,
) -> bool {
    &&& newp.balance == oldp.balance + spec_total_payout(
        oldp.hands@,
        dealer_value,
        dealer_blackjack,
    )
    &&& newp.hands@ == oldp.hands@.map_values(|h: Hand| spec_settled_hand(h))
    &&& newp.name@ == oldp.name@
    &&& newp.is_dealer == oldp.is_dealer
}

/// What an accepted seat bet changes: the amount moves from the balance to
/// the wager of a fresh two-card hand in play, dealt the shoe's top two
/// cards in order.
pub open spec fn spec_bet_effect(
    oldp: Player,
    olddeck: Deck,
    newp: Player,
    newdeck: Deck,
    amount: int,
) -> bool {
    let l = olddeck.cards@.len() as int;
    &&& newp.balance == oldp.balance - amount
    &&& newp.name@ == oldp.name@
    &&& newp.is_dealer == oldp.is_dealer
    &&& newp.hands@.len() == 1
    &&& newp.hands@[0].cards@ == seq![olddeck.cards@[l - 1], olddeck.cards@[l - 2]]
    &&& newp.hands@[0].wager == amount
    &&& newp.hands@[0].state == HandState::Playing
    &&& newdeck.num_decks == olddeck.num_decks
    &&& newdeck.cards@ == olddeck.cards@.take(l - 2)
}

/// What the dealer's accepted no-wager draw changes: its hand gains the
/// shoe's next card at a zero wager and busts exactly when the new total
/// exceeds 21; everything else stays as it was.
pub open spec fn spec_dealer_draw_effect(
    oldp: Player,
    olddeck: Deck,
    newp: Player,
    newdeck: Deck,
) -> bool {
    &&& newp.balance == oldp.balance
    &&& newp.name@ == oldp.name@
    &&& newp.is_dealer == oldp.is_dealer
    &&& newp.hands@.len() == oldp.hands@.len()
    &&& (forall|j: int| 1 <= j < oldp.hands@.len() ==> newp.hands@[j] == oldp.hands@[j])
    &&& newp.hands@[0].cards@ == oldp.hands@[0].cards@.push(olddeck.cards@.last())
    &&& newp.hands@[0].wager == oldp.hands@[0].wager
    &&& newp.hands@[0].state == (if spec_is_bust(newp.hands@[0].cards@) {
        HandState::Busted
    } else {
        HandState::Playing
    })
    &&& newdeck.num_decks == olddeck.num_decks
    &&& newdeck.cards@ == olddeck.cards@.drop_last()
}

/// One participant: a named seat or the dealer, its balance (persistent
/// across rounds; the dealer's is an untracked sentinel), and its hands.
pub struct Player {
    pub name: String,
    pub is_dealer: bool,
    pub balance: i32,
    pub hands: Vec<Hand>,
}

impl Player {
    /// Internal consistency: at least one hand, every hand well-formed.
    pub open spec fn wf(self) -> bool {
        &&& self.hands@.len() >= 1
        &&& forall|i: int| 0 <= i < self.hands@.len() ==> (#[trigger] self.hands@[i]).wf()
    }

    /// A fresh participant with one empty hand awaiting its wager.
    pub fn new(name: String, is_dealer: bool, balance: i32) -> (p: Player)
        ensures
            p.wf(),
            p.name@ == name@,
            p.is_dealer == is_dealer,
            p.balance == balance,
            p.hands@.len() == 1,
            p.hands@[0].state == HandState::Betting,
            p.hands@[0].cards@.len() == 0,
            p.hands@[0].wager == 0,
    {
        let mut hands: Vec<Hand> = Vec::new();
        hands.push(Hand::new());
        Player { name, is_dealer, balance, hands }
    }

    /// The seat's current balance.
    pub fn get_balance(&self) -> (b: i32)
        ensures
            b == self.balance,
    {
        self.balance
    }

    /// Whether any hand is still in play and awaiting a decision.
    pub fn is_playing(&self) -> (b: bool)
        ensures
            b == (spec_first_playing(self.hands@) != -1),
    {
        proof {
            lemma_first_playing_props(self.hands@);
        }
        let n = self.hands.len();
        let mut i: usize = 0;
        while i < n
            invariant
                0 <= i <= n,
                n == self.hands@.len(),
                forall|j: int| 0 <= j < i ==> (#[trigger] self.hands@[j].state) != HandState::Playing,
            decreases n - i,
        {
            if matches!(self.hands[i].state, HandState::Playing) {
                proof {
                    lemma_first_playing_props(self.hands@);
                }
                return true;
            }
            i = i + 1;
        }
        false
    }

    /// Whether every hand is busted: the seat has already lost the round.
    pub fn has_lost(&self) -> (b: bool)
        ensures
            b == spec_all_busted(self.hands@),
    {
        let n = self.hands.len();
        let mut i: usize = 0;
        while i < n
            invariant
                0 <= i <= n,
                n == self.hands@.len(),
                forall|j: int| 0 <= j < i ==> (#[trigger] self.hands@[j].state) == HandState::Busted,
            decreases n - i,
        {
            if !matches!(self.hands[i].state, HandState::Busted) {
                return false;
            }
            i = i + 1;
        }
        true
    }

    /// Whether some hand is still open: awaiting its wager or in play.
    pub fn has_open_hand(&self) -> (b: bool)
        ensures
            b == spec_any_open(self.hands@),
    {
        let n = self.hands.len();
        let mut i: usize = 0;
        while i < n
            invariant
                0 <= i <= n,
                n == self.hands@.len(),
                forall|j: int|
                    0 <= j < i ==> (#[trigger] self.hands@[j].state) != HandState::Playing
                        && self.hands@[j].state != HandState::Betting,
            decreases n - i,
        {
            if matches!(self.hands[i].state, HandState::Playing) || matches!(
                self.hands[i].state,
                HandState::Betting,
            ) {
                return true;
            }
            i = i + 1;
        }
        false
    }

    /// Whether every hand has been settled already.
    pub fn all_hands_settled(&self) -> (b: bool)
        ensures
            b == spec_all_settled(self.hands@),
    {
        let n = self.hands.len();
        let mut i: usize = 0;
        while i < n
            invariant
                0 <= i <= n,
                n == self.hands@.len(),
                forall|j: int| 0 <= j < i ==> (#[trigger] self.hands@[j].state) == HandState::Settled,
            decreases n - i,
        {
            if !matches!(self.hands[i].state, HandState::Settled) {
                return false;
            }
            i = i + 1;
        }
        true
    }

    /// Whether a fresh wager may be taken now: no hand is mid-round.
    fn can_bet_now(&self) -> (b: bool)
        ensures
            b == spec_can_bet(self.hands@),
    {
        let n = self.hands.len();
        let mut i: usize = 0;
        while i < n
            invariant
                0 <= i <= n,
                n == self.hands@.len(),
                forall|j: int|
                    0 <= j < i ==> (#[trigger] self.hands@[j].state) == HandState::Betting
                        || self.hands@[j].state == HandState::Settled,
            decreases n - i,
        {
            if !matches!(self.hands[i].state, HandState::Betting) && !matches!(
                self.hands[i].state,
                HandState::Settled,
            ) {
                return false;
            }
            i = i + 1;
        }
        true
    }

    /// The index of the first hand still in play, if any.
    fn find_playing(&self) -> (r: Option<usize>)
        ensures
            match r {
                Some(i) => i == spec_first_playing(self.hands@) && i < self.hands@.len()
                    && self.hands@[i as int].state == HandState::Playing,
                None => spec_first_playing(self.hands@) == -1,
            },
    {
        proof {
            lemma_first_playing_props(self.hands@);
        }
        let n = self.hands.len();
        let mut i: usize = 0;
        while i < n
            invariant
                0 <= i <= n,
                n == self.hands@.len(),
                forall|j: int| 0 <= j < i ==> (#[trigger] self.hands@[j].state) != HandState::Playing,
            decreases n - i,
        {
            if matches!(self.hands[i].state, HandState::Playing) {
                proof {
                    lemma_first_playing_props(self.hands@);
                    let fp = spec_first_playing(self.hands@);
                    if fp < i {
                        assert(self.hands@[fp].state != HandState::Playing);
                    }
                    if fp > i || fp == -1 {
                        assert(self.hands@[i as int].state != HandState::Playing);
                    }
                }
                return Some(i);
            }
            i = i + 1;
        }
        None
    }

    /// Places a wager and deals the initial cards. For a seat: valid only
    /// between rounds, rejected without any change when the amount is not
    /// positive or exceeds the balance, or when fewer than two cards remain;
    /// on success the amount moves from the balance to a fresh two-card hand
    /// in play. For the dealer: a zero, no-op wager that draws one card into
    /// its own hand.
    pub fn bet(&mut self, amount: i32, deck: &mut Deck) -> (r: Result<(), EngineError>)
        requires
            old(self).wf(),
            old(deck).wf(),
        ensures
            final(self).wf(),
            final(deck).wf(),
            final(self).name@ == old(self).name@,
            final(self).is_dealer == old(self).is_dealer,
            final(deck).num_decks == old(deck).num_decks,
            r is Err ==> *final(self) == *old(self) && final(deck).cards@ == old(deck).cards@,
            !old(self).is_dealer ==> r == spec_bet_check(
                *old(self),
                amount as int,
                old(deck).cards@.len() as int,
            ),
            !old(self).is_dealer && r is Ok ==> final(self).balance == old(self).balance - amount
                && final(self).hands@.len() == 1 && final(self).hands@[0].cards@ == seq![
                old(deck).cards@[old(deck).cards@.len() - 1],
                old(deck).cards@[old(deck).cards@.len() - 2],
            ] && final(self).hands@[0].wager == amount && final(self).hands@[0].state
                == HandState::Playing && final(deck).cards@ == old(deck).cards@.take(
                old(deck).cards@.len() - 2,
            ),
            old(self).is_dealer ==> r == spec_dealer_draw_check(
                *old(self),
                amount as int,
                old(deck).cards@.len() as int,
            ),
            old(self).is_dealer && r is Ok ==> ({
                &&& final(self).balance == old(self).balance
                &&& final(self).hands@.len() == old(self).hands@.len()
                &&& (forall|j: int|
                    1 <= j < old(self).hands@.len() ==> final(self).hands@[j] == old(
                        self,
                    ).hands@[j])
                &&& final(self).hands@[0].cards@ == old(self).hands@[0].cards@.push(
                    old(deck).cards@.last(),
                )
                &&& final(self).hands@[0].wager == old(self).hands@[0].wager
                &&& final(self).hands@[0].state == (if spec_is_bust(final(self).hands@[0].cards@) {
                    HandState::Busted
                } else {
                    HandState::Playing
                })
                &&& final(deck).cards@ == old(deck).cards@.drop_last()
            }),
    {
        if self.is_dealer {
            if amount != 0 {
                return Err(EngineError::InvalidBet);
            }
            let st = self.hands[0].state;
            if !matches!(st, HandState::Betting) && !matches!(st, HandState::Playing) {
                return Err(EngineError::InvalidDecision);
            }
            let card = match deck.draw() {
                Ok(c) => c,
                Err(e) => {
                    return Err(e);
                },
            };
            let ghost old_hands = self.hands@;
            let mut h = self.hands.remove(0);
            proof {
                if h.state == HandState::Playing {
                    lemma_hand_value_bounds(h.cards@);
                }
            }
            h.add_card(card);
            let v = h.value();
            h.state = if v > 21 {
                HandState::Busted
            } else {
                HandState::Playing
            };
            self.hands.insert(0, h);
            proof {
                assert(self.hands@ =~= old_hands.update(0, h));
            }
            Ok(())
        } else {
            if amount <= 0 || amount > self.balance {
                return Err(EngineError::InvalidBet);
            }
            if !self.can_bet_now() {
                return Err(EngineError::InvalidDecision);
            }
            if deck.remaining() < 2 {
                return Err(EngineError::DeckExhausted);
            }
            let c1 = match deck.draw() {
                Ok(c) => c,
                Err(e) => {
                    return Err(e);
                },
            };
            let c2 = match deck.draw() {
                Ok(c) => c,
                Err(e) => {
                    return Err(e);
                },
            };
            let mut cards: Vec<Card> = Vec::new();
            cards.push(c1);
            cards.push(c2);
            proof {
                assert(cards@ =~= seq![c1, c2]);
                assert(seq![c1, c2].drop_last() =~= seq![c1]);
                assert(seq![c1].drop_last() =~= Seq::<Card>::empty());
                assert(spec_min_total(Seq::<Card>::empty()) == 0);
                assert(spec_min_total(seq![c1]) == crate::card::spec_min_points(c1.rank));
                assert(spec_min_total(cards@) <= 20);
            }
            let h = Hand { cards, wager: amount, state: HandState::Playing };
            let mut hands: Vec<Hand> = Vec::new();
            hands.push(h);
            self.hands = hands;
            self.balance = self.balance - amount;
            proof {
                assert(final(deck).cards@ =~= old(deck).cards@.take(old(deck).cards@.len() - 2));
            }
            Ok(())
        }
    }

    /// Draws one card into the first hand in play; the hand busts and
    /// becomes terminal when the new total exceeds 21, and stays in play
    /// otherwise. Rejected without any change when no hand is in play or
    /// the shoe is empty.
    pub fn hit(&mut self, deck: &mut Deck) -> (r: Result<(), EngineError>)
        requires
            old(self).wf(),
            old(deck).wf(),
        ensures
            final(self).wf(),
            final(deck).wf(),
            final(self).name@ == old(self).name@,
            final(self).is_dealer == old(self).is_dealer,
            final(self).balance == old(self).balance,
            final(deck).num_decks == old(deck).num_decks,
            r is Err ==> *final(self) == *old(self) && final(deck).cards@ == old(deck).cards@,
            r == (if spec_first_playing(old(self).hands@) == -1 {
                Err::<(), EngineError>(EngineError::InvalidDecision)
            } else if old(deck).cards@.len() == 0 {
                Err::<(), EngineError>(EngineError::DeckExhausted)
            } else {
                Ok::<(), EngineError>(())
            }),
            r is Ok ==> ({
                let fp = spec_first_playing(old(self).hands@);
                &&& final(deck).cards@ == old(deck).cards@.drop_last()
                &&& final(self).hands@.len() == old(self).hands@.len()
                &&& (forall|j: int|
                    0 <= j < old(self).hands@.len() && j != fp ==> final(self).hands@[j] == old(
                        self,
                    ).hands@[j])
                &&& final(self).hands@[fp].cards@ == old(self).hands@[fp].cards@.push(
                    old(deck).cards@.last(),
                )
                &&& final(self).hands@[fp].wager == old(self).hands@[fp].wager
                &&& final(self).hands@[fp].state == (if spec_is_bust(final(self).hands@[fp].cards@) {
                    HandState::Busted
                } else {
                    HandState::Playing
                })
            }),
    {
        let i = match self.find_playing() {
            Some(i) => i,
            None => {
                return Err(EngineError::InvalidDecision);
            },
        };
        let card = match deck.draw() {
            Ok(c) => c,
            Err(e) => {
                return Err(e);
            },
        };
        let ghost old_hands = self.hands@;
        let mut h = self.hands.remove(i);
        proof {
            lemma_hand_value_bounds(h.cards@);
        }
        h.add_card(card);
        let v = h.value();
        h.state = if v > 21 {
            HandState::Busted
        } else {
            HandState::Playing
        };
        self.hands.insert(i, h);
        proof {
            assert(self.hands@ =~= old_hands.update(i as int, h));
        }
        Ok(())
    }

    /// Freezes the first hand in play at its current value. Rejected without
    /// any change when no hand is in play.
    pub fn stand(&mut self) -> (r: Result<(), EngineError>)
        requires
            old(self).wf(),
        ensures
            final(self).wf(),
            final(self).name@ == old(self).name@,
            final(self).is_dealer == old(self).is_dealer,
            final(self).balance == old(self).balance,
            r is Err ==> *final(self) == *old(self),
            r == (if spec_first_playing(old(self).hands@) == -1 {
                Err::<(), EngineError>(EngineError::InvalidDecision)
            } else {
                Ok::<(), EngineError>(())
            }),
            r is Ok ==> ({
                let fp = spec_first_playing(old(self).hands@);
                &&& final(self).hands@.len() == old(self).hands@.len()
                &&& (forall|j: int|
                    0 <= j < old(self).hands@.len() && j != fp ==> final(self).hands@[j] == old(
                        self,
                    ).hands@[j])
                &&& final(self).hands@[fp].cards@ == old(self).hands@[fp].cards@
                &&& final(self).hands@[fp].wager == old(self).hands@[fp].wager
                &&& final(self).hands@[fp].state == HandState::Standing
            }),
    {
        self.freeze_first_playing(HandState::Standing)
    }

    /// Forfeits the first hand in play: at settlement half the wager is
    /// lost. Rejected without any change when no hand is in play.
    pub fn surrender(&mut self) -> (r: Result<(), EngineError>)
        requires
            old(self).wf(),
        ensures
            final(self).wf(),
            final(self).name@ == old(self).name@,
            final(self).is_dealer == old(self).is_dealer,
            final(self).balance == old(self).balance,
            r is Err ==> *final(self) == *old(self),
            r == (if spec_first_playing(old(self).hands@) == -1 {
                Err::<(), EngineError>(EngineError::InvalidDecision)
            } else {
                Ok::<(), EngineError>(())
            }),
            r is Ok ==> ({
                let fp = spec_first_playing(old(self).hands@);
                &&& final(self).hands@.len() == old(self).hands@.len()
                &&& (forall|j: int|
                    0 <= j < old(self).hands@.len() && j != fp ==> final(self).hands@[j] == old(
                        self,
                    ).hands@[j])
                &&& final(self).hands@[fp].cards@ == old(self).hands@[fp].cards@
                &&& final(self).hands@[fp].wager == old(self).hands@[fp].wager
                &&& final(self).hands@[fp].state == HandState::Surrendered
            }),
    {
        self.freeze_first_playing(HandState::Surrendered)
    }

    /// Moves the first hand in play to the given terminal state.
    fn freeze_first_playing(&mut self, state: HandState) -> (r: Result<(), EngineError>)
        requires
            old(self).wf(),
            state == HandState::Standing || state == HandState::Surrendered,
        ensures
            final(self).wf(),
            final(self).name@ == old(self).name@,
            final(self).is_dealer == old(self).is_dealer,
            final(self).balance == old(self).balance,
            r is Err ==> *final(self) == *old(self),
            r == (if spec_first_playing(old(self).hands@) == -1 {
                Err::<(), EngineError>(EngineError::InvalidDecision)
            } else {
                Ok::<(), EngineError>(())
            }),
            r is Ok ==> ({
                let fp = spec_first_playing(old(self).hands@);
                &&& final(self).hands@.len() == old(self).hands@.len()
                &&& (forall|j: int|
                    0 <= j < old(self).hands@.len() && j != fp ==> final(self).hands@[j] == old(
                        self,
                    ).hands@[j])
                &&& final(self).hands@[fp].cards@ == old(self).hands@[fp].cards@
                &&& final(self).hands@[fp].wager == old(self).hands@[fp].wager
                &&& final(self).hands@[fp].state == state
            }),
    {
        let i = match self.find_playing() {
            Some(i) => i,
            None => {
                return Err(EngineError::InvalidDecision);
            },
        };
        let ghost old_hands = self.hands@;
        let mut h = self.hands.remove(i);
        h.state = state;
        self.hands.insert(i, h);
        proof {
            assert(self.hands@ =~= old_hands.update(i as int, h));
        }
        Ok(())
    }

    /// Runs the dealer's fixed drawing policy on its hand: draw while the
    /// value is below `DEALER_STAND_MIN`, stop at once on a bust or an
    /// exhausted shoe, then stand. The final numeric value is returned even
    /// after a bust, so the caller can settle every seat against it
    /// uniformly. Every drawn card was drawn while the value was still below
    /// the threshold and the hand not yet bust; a hand not in play is left
    /// untouched and merely reports its value.
    pub fn play_as_dealer(&mut self, deck: &mut Deck) -> (r: u32)
        requires
            old(self).wf(),
            old(deck).wf(),
        ensures
            final(self).wf(),
            final(deck).wf(),
            final(self).name@ == old(self).name@,
            final(self).is_dealer == old(self).is_dealer,
            final(self).balance == old(self).balance,
            final(deck).num_decks == old(deck).num_decks,
            old(self).hands@[0].state != HandState::Playing ==> *final(self) == *old(self)
                && final(deck).cards@ == old(deck).cards@ && r == spec_hand_value(
                old(self).hands@[0].cards@,
            ),
            old(self).hands@[0].state == HandState::Playing ==> ({
                let oc = old(self).hands@[0].cards@;
                let nc = final(self).hands@[0].cards@;
                let k = nc.len() - oc.len();
                let l = old(deck).cards@.len() as int;
                &&& final(self).hands@.len() == old(self).hands@.len()
                &&& (forall|j: int|
                    1 <= j < old(self).hands@.len() ==> final(self).hands@[j] == old(
                        self,
                    ).hands@[j])
                &&& final(self).hands@[0].wager == old(self).hands@[0].wager
                &&& nc.len() >= oc.len()
                &&& k <= l
                &&& final(deck).cards@ == old(deck).cards@.take(l - k)
                &&& nc == oc + old(deck).cards@.subrange(l - k, l).reverse()
                &&& r == spec_hand_value(nc)
                &&& (forall|i: int|
                    oc.len() <= i < nc.len() ==> spec_hand_value(#[trigger] nc.take(i)) < (
                    DEALER_STAND_MIN as int) && !spec_is_bust(nc.take(i)))
                &&& (spec_hand_value(nc) >= DEALER_STAND_MIN as int || final(deck).cards@.len()
                    == 0)
                &&& final(self).hands@[0].state == (if spec_is_bust(nc) {
                    HandState::Busted
                } else if spec_hand_value(nc) >= DEALER_STAND_MIN as int {
                    HandState::Standing
                } else {
                    HandState::Playing
                })
            }),
    {
        let st = self.hands[0].state;
        if !matches!(st, HandState::Playing) {
            return self.hands[0].value();
        }
        let ghost old_deck = deck.cards@;
        let ghost l = old_deck.len() as int;
        let ghost old_hands = self.hands@;
        let mut h = self.hands.remove(0);
        let ghost oc = h.cards@;
        let mut v = h.value();
        let mut stop = false;
        while !stop && v < DEALER_STAND_MIN
            invariant
                h.wager == old_hands[0].wager,
                h.wager >= 0,
                v == spec_hand_value(h.cards@),
                spec_min_total(h.cards@) <= 32,
                oc.len() <= h.cards@.len(),
                h.cards@.len() - oc.len() <= l,
                l == old_deck.len(),
                deck.cards@ == old_deck.take(l - (h.cards@.len() - oc.len())),
                deck.num_decks == old(deck).num_decks,
                deck.wf(),
                h.cards@ == oc + old_deck.subrange(l - (h.cards@.len() - oc.len()), l).reverse(),
                forall|i: int|
                    oc.len() <= i < h.cards@.len() ==> spec_hand_value(#[trigger] h.cards@.take(i))
                        < (DEALER_STAND_MIN as int) && !spec_is_bust(h.cards@.take(i)),
                !stop ==> h.state == HandState::Playing && !spec_is_bust(h.cards@),
                stop ==> ((h.state == HandState::Busted && spec_is_bust(h.cards@)) || (h.state
                    == HandState::Playing && deck.cards@.len() == 0 && v < DEALER_STAND_MIN)),
            decreases (if stop {
                0int
            } else {
                deck.cards@.len() as int + 1
            }),
        {
            match deck.draw() {
                Ok(c) => {
                    let ghost pre = h.cards@;
                    let ghost pre_deck = deck.cards@;
                    h.add_card(c);
                    v = h.value();
                    if v > 21 {
                        h.state = HandState::Busted;
                        stop = true;
                    }
                    proof {
                        let k = pre.len() - oc.len();
                        assert forall|i: int| oc.len() <= i < h.cards@.len() implies spec_hand_value(
                            #[trigger] h.cards@.take(i),
                        ) < (DEALER_STAND_MIN as int) && !spec_is_bust(h.cards@.take(i)) by {
                            assert(h.cards@.take(i) =~= pre.take(i));
                            if i == pre.len() {
                                assert(pre.take(i) =~= pre);
                            }
                        }
                        assert(deck.cards@ =~= old_deck.take(l - (k + 1)));
                        assert(h.cards@ =~= oc + old_deck.subrange(l - (k + 1), l).reverse());
                    }
                },
                Err(_) => {
                    stop = true;
                },
            }
        }
        if v >= DEALER_STAND_MIN && v <= 21 {
            h.state = HandState::Standing;
        }
        self.hands.insert(0, h);
        proof {
            assert(self.hands@ =~= old_hands.update(0, h));
        }
        v
    }

    /// Settles every hand against the dealer's final value and whether the
    /// dealer holds a natural, updating the balance exactly once per hand
    /// and marking each hand settled. Rejected without any change while a
    /// hand is still open, and rejected — never paid twice — when every hand
    /// was settled already. The balance is an `i32`, so callers keep the
    /// settled balance within its range; the binding layer checks this
    /// before calling.
    pub fn game_over(&mut self, dealer_value: u32, dealer_blackjack: bool) -> (r: Result<
        (),
        EngineError,
    >)
        requires
            old(self).wf(),
            old(self).balance + spec_total_payout(
                old(self).hands@,
                dealer_value as int,
                dealer_blackjack,
            ) <= i32::MAX,
        ensures
            final(self).wf(),
            final(self).name@ == old(self).name@,
            final(self).is_dealer == old(self).is_dealer,
            r is Err ==> *final(self) == *old(self),
            r == (if spec_any_open(old(self).hands@) {
                Err::<(), EngineError>(EngineError::InvalidDecision)
            } else if spec_all_settled(old(self).hands@) {
                Err::<(), EngineError>(EngineError::AlreadySettled)
            } else {
                Ok::<(), EngineError>(())
            }),
            r is Ok ==> final(self).balance == old(self).balance + spec_total_payout(
                old(self).hands@,
                dealer_value as int,
                dealer_blackjack,
            ) && final(self).hands@ == old(self).hands@.map_values(
                |h: Hand| spec_settled_hand(h),
            ),
    {
        if self.has_open_hand() {
            return Err(EngineError::InvalidDecision);
        }
        if self.all_hands_settled() {
            return Err(EngineError::AlreadySettled);
        }
        let ghost old_hands = self.hands@;
        let ghost dv = dealer_value as int;
        let n = self.hands.len();
        let mut i: usize = 0;
        while i < n
            invariant
                0 <= i <= n,
                n == self.hands@.len(),
                n == old_hands.len(),
                self.balance == old(self).balance + spec_total_payout(
                    old_hands.take(i as int),
                    dv,
                    dealer_blackjack,
                ),
                old(self).balance + spec_total_payout(old_hands, dv, dealer_blackjack)
                    <= i32::MAX,
                old(self).balance >= i32::MIN,
                dv == dealer_value as int,
                forall|j: int| i <= j < n ==> self.hands@[j] == old_hands[j],
                forall|j: int| 0 <= j < i ==> self.hands@[j] == spec_settled_hand(old_hands[j]),
                forall|j: int| 0 <= j < n ==> (#[trigger] old_hands[j]).wf(),
                forall|j: int|
                    0 <= j < n ==> (#[trigger] old_hands[j].state) != HandState::Playing
                        && old_hands[j].state != HandState::Betting,
                self.name@ == old(self).name@,
                self.is_dealer == old(self).is_dealer,
            decreases n - i,
        {
            proof {
                lemma_total_payout_prefix(old_hands, i as int, dv, dealer_blackjack);
                lemma_total_payout_prefix(old_hands, i + 1, dv, dealer_blackjack);
                assert(old_hands.take(i + 1).drop_last() =~= old_hands.take(i as int));
                assert(old_hands.take(i + 1).last() == old_hands[i as int]);
            }
            let ghost pre_hands = self.hands@;
            let mut h = self.hands.remove(i);
            if !matches!(h.state, HandState::Settled) {
                match h.state {
                    HandState::Busted => {},
                    HandState::Surrendered => {
                        let half = ((h.wager as u32) / 2) as i32;
                        self.balance = self.balance + half;
                    },
                    _ => {
                        if h.is_blackjack() {
                            if dealer_blackjack {
                                self.balance = self.balance + h.wager;
                            } else {
                                self.balance = self.balance + h.wager;
                                self.balance = self.balance + h.wager;
                                let half = ((h.wager as u32) / 2) as i32;
                                self.balance = self.balance + half;
                            }
                        } else {
                            let v = h.value();
                            if dealer_value > 21 {
                                self.balance = self.balance + h.wager;
                                self.balance = self.balance + h.wager;
                            } else if v > dealer_value {
                                self.balance = self.balance + h.wager;
                                self.balance = self.balance + h.wager;
                            } else if v == dealer_value {
                                self.balance = self.balance + h.wager;
                            }
                        }
                    },
                }
            }
            h.state = HandState::Settled;
            self.hands.insert(i, h);
            proof {
                assert(self.hands@ =~= pre_hands.update(i as int, h));
                assert(h == spec_settled_hand(old_hands[i as int]));
            }
            i = i + 1;
        }
        proof {
            assert(old_hands.take(n as int) =~= old_hands);
            assert(self.hands@ =~= old_hands.map_values(|h: Hand| spec_settled_hand(h)));
        }
        Ok(())
    }
}

} // verus!
