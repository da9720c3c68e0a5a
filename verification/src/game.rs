//! One table: a seat, the dealer and the shoe, orchestrated round by round.
//! Decisions arrive as a closed set of variants; the binding layer that
//! parses whatever encoding its caller speaks is outside the engine.

use vstd::prelude::*;

use crate::card::Card;
use crate::card::spec_card_label;
use crate::deck::Deck;
use crate::deck::full_shoe;
use crate::hand::Hand;
use crate::hand::HandState;
use crate::hand::spec_is_blackjack;
use crate::player::Player;
use crate::player::spec_all_busted;
use crate::player::spec_any_open;
use crate::player::spec_bet_check;
use crate::player::spec_bet_effect;
use crate::player::spec_dealer_draw_check;
use crate::player::spec_dealer_draw_effect;
use crate::player::spec_dealer_play_effect;
use crate::player::spec_first_playing;
use crate::player::spec_freeze_effect;
use crate::player::spec_freeze_result;
use crate::hand::spec_hand_value;
use crate::player::spec_hit_effect;
use crate::player::spec_hit_result;
use crate::player::spec_settle_effect;
use crate::player::spec_settle_result;
use crate::player::spec_settled_hand;
use crate::player::spec_total_payout;
use crate::EngineError;

verus! {

/// One player decision, as a closed set of variants. Doubling down and
/// splitting are recognized decision kinds of the interface; this build
/// stops short of them and rejects both as invalid decisions.
#[derive(Clone, Copy, PartialEq, Eq, Structural, Debug)]
pub enum Decision {
    Hit,
    Stand,
    Double,
    Split,
    Surrender,
}

/// The participants of one table: one seat, the shoe, and the dealer.
pub struct GameActors {
    pub player: Player,
    pub deck: Deck,
    pub dealer: Player,
}

/// The per-hand settlement total of a seat whose wagers are all zero is
/// zero: the dealer is never paid.
pub proof fn lemma_zero_wager_payout(hands: Seq<Hand>, dealer_value: int, dealer_blackjack: bool)
    requires
        forall|j: int| 0 <= j < hands.len() ==> (#[trigger] hands[j]).wager == 0,
    ensures
        spec_total_payout(hands, dealer_value, dealer_blackjack) == 0,
    decreases hands.len(),
{
    if hands.len() > 0 {
        lemma_zero_wager_payout(hands.drop_last(), dealer_value, dealer_blackjack);
    }
}

/// Both participants and the shoe exactly as they were, the shoe compared by
/// its remaining cards.
pub open spec fn spec_table_unchanged(a: GameActors, b: GameActors) -> bool {
    &&& b.player == a.player
    &&& b.dealer == a.dealer
    &&& b.deck.cards@ == a.deck.cards@
    &&& b.deck.num_decks == a.deck.num_decks
}

impl GameActors {
    /// Internal consistency of a table: both participants and the shoe are
    /// well-formed, the seat is not the dealer, the dealer is, and the
    /// dealer plays one hand at a zero wager.
    pub open spec fn wf(self) -> bool {
        &&& self.player.wf()
        &&& self.deck.wf()
        &&& self.dealer.wf()
        &&& !self.player.is_dealer
        &&& self.dealer.is_dealer
        &&& self.dealer.hands@.len() == 1
        &&& forall|j: int| 0 <= j < self.dealer.hands@.len() ==> (#[trigger] self.dealer.hands@[j]).wager == 0
    }
}

/// Builds a fresh single-deck table: a shuffled one-deck shoe, one seat with
/// a starting balance of 1000, and the dealer with its untracked sentinel
/// balance.
pub fn create_game() -> (g: GameActors)
    ensures
        g.wf(),
        g.deck.num_decks == 1,
        g.deck.cards@.len() == 52,
        g.deck.cards@.to_multiset() == full_shoe(1).to_multiset(),
        g.player.name@ == "Player One"@,
        g.player.balance == 1000,
        g.player.hands@.len() == 1,
        g.player.hands@[0].state == HandState::Betting,
        g.dealer.name@ == "Dealer"@,
        g.dealer.balance == -1,
        g.dealer.hands@.len() == 1,
        g.dealer.hands@[0].state == HandState::Betting,
        g.dealer.hands@[0].cards@.len() == 0,
{
    let mut deck = Deck::new(1);
    let player = Player::new("Player One".to_owned(), false, 1000);
    let dealer = Player::new("Dealer".to_owned(), true, -1);
    deck.reset();
    GameActors { player, deck, dealer }
}

/// One running table, exposed operation by operation to the binding layer.
pub struct Game {
    pub actors: GameActors,
}

impl Game {
    /// Internal consistency of the table.
    pub open spec fn wf(self) -> bool {
        self.actors.wf()
    }

    /// A fresh single-deck table.
    pub fn new() -> (g: Game)
        ensures
            g.wf(),
            g.actors.deck.num_decks == 1,
            g.actors.deck.cards@.len() == 52,
            g.actors.deck.cards@.to_multiset() == full_shoe(1).to_multiset(),
            g.actors.player.balance == 1000,
            g.actors.player.hands@.len() == 1,
            g.actors.player.hands@[0].state == HandState::Betting,
            g.actors.dealer.hands@.len() == 1,
            g.actors.dealer.hands@[0].state == HandState::Betting,
    {
        Game { actors: create_game() }
    }

    /// Applies one decision of the seat to its first hand in play. A
    /// decision out of turn, and the unsupported double and split, are
    /// rejected without any change.
    pub fn player_decision(&mut self, decision: Decision) -> (r: Result<(), EngineError>)
        requires
            old(self).wf(),
        ensures
            final(self).wf(),
            final(self).actors.dealer == old(self).actors.dealer,
            r is Err ==> spec_table_unchanged(old(self).actors, final(self).actors),
            match decision {
                Decision::Hit => r == spec_hit_result(
                    old(self).actors.player,
                    old(self).actors.deck.cards@.len() as int,
                ) && (r is Ok ==> spec_hit_effect(
                    old(self).actors.player,
                    old(self).actors.deck,
                    final(self).actors.player,
                    final(self).actors.deck,
                )),
                Decision::Stand => r == spec_freeze_result(old(self).actors.player) && (r is Ok
                    ==> spec_freeze_effect(
                    old(self).actors.player,
                    final(self).actors.player,
                    HandState::Standing,
                ) && final(self).actors.deck.cards@ == old(self).actors.deck.cards@),
                Decision::Surrender => r == spec_freeze_result(old(self).actors.player) && (r is Ok
                    ==> spec_freeze_effect(
                    old(self).actors.player,
                    final(self).actors.player,
                    HandState::Surrendered,
                ) && final(self).actors.deck.cards@ == old(self).actors.deck.cards@),
                Decision::Double => r == Err::<(), EngineError>(EngineError::InvalidDecision),
                Decision::Split => r == Err::<(), EngineError>(EngineError::InvalidDecision),
            },
    {
        match decision {
            Decision::Hit => self.actors.player.hit(&mut self.actors.deck),
            Decision::Stand => self.actors.player.stand(),
            Decision::Surrender => self.actors.player.surrender(),
            Decision::Double => Err(EngineError::InvalidDecision),
            Decision::Split => Err(EngineError::InvalidDecision),
        }
    }

    /// Whether the seat still has a hand in play.
    pub fn is_player_playing(&self) -> (b: bool)
        ensures
            b == (spec_first_playing(self.actors.player.hands@) != -1),
    {
        self.actors.player.is_playing()
    }

    /// Whether every hand of the seat is busted: the round is lost outright
    /// and dealer play may be skipped.
    pub fn has_player_lost(&self) -> (b: bool)
        ensures
            b == spec_all_busted(self.actors.player.hands@),
    {
        self.actors.player.has_lost()
    }

    /// Places the seat's wager and deals its two cards: accepted exactly
    /// when the amount is positive and within the balance, no hand is
    /// mid-round, and two cards remain in the shoe. A rejected bet changes
    /// nothing.
    pub fn make_bet(&mut self, bet: i32) -> (accepted: bool)
        requires
            old(self).wf(),
        ensures
            final(self).wf(),
            final(self).actors.dealer == old(self).actors.dealer,
            accepted == (spec_bet_check(
                old(self).actors.player,
                bet as int,
                old(self).actors.deck.cards@.len() as int,
            ) is Ok),
            !accepted ==> spec_table_unchanged(old(self).actors, final(self).actors),
            accepted ==> spec_bet_effect(
                old(self).actors.player,
                old(self).actors.deck,
                final(self).actors.player,
                final(self).actors.deck,
                bet as int,
            ),
    {
        match self.actors.player.bet(bet, &mut self.actors.deck) {
            Ok(_) => true,
            Err(_) => false,
        }
    }

    /// Draws one card into the dealer's hand at its zero, no-op wager:
    /// accepted while the dealer's hand is still open and the shoe is not
    /// empty.
    pub fn dealer_draw_card(&mut self) -> (r: Result<(), EngineError>)
        requires
            old(self).wf(),
        ensures
            final(self).wf(),
            final(self).actors.player == old(self).actors.player,
            r is Err ==> spec_table_unchanged(old(self).actors, final(self).actors),
            r == spec_dealer_draw_check(
                old(self).actors.dealer,
                0,
                old(self).actors.deck.cards@.len() as int,
            ),
            r is Ok ==> spec_dealer_draw_effect(
                old(self).actors.dealer,
                old(self).actors.deck,
                final(self).actors.dealer,
                final(self).actors.deck,
            ),
    {
        self.actors.dealer.bet(0, &mut self.actors.deck)
    }

    /// Runs the dealer's fixed policy to completion and returns the dealer's
    /// final numeric value, bust or not, so every seat can be settled
    /// against it.
    pub fn dealer_play_as_dealer(&mut self) -> (r: u32)
        requires
            old(self).wf(),
        ensures
            final(self).wf(),
            final(self).actors.player == old(self).actors.player,
            old(self).actors.dealer.hands@[0].state != HandState::Playing ==> ({
                &&& final(self).actors.dealer == old(self).actors.dealer
                &&& final(self).actors.deck.cards@ == old(self).actors.deck.cards@
                &&& r == spec_hand_value(old(self).actors.dealer.hands@[0].cards@)
            }),
            old(self).actors.dealer.hands@[0].state == HandState::Playing
                ==> spec_dealer_play_effect(
                old(self).actors.dealer,
                old(self).actors.deck,
                final(self).actors.dealer,
                final(self).actors.deck,
                r,
            ),
    {
        self.actors.dealer.play_as_dealer(&mut self.actors.deck)
    }

    /// Settles the round against the dealer's final value: every seat hand
    /// is paid per the payout table — judging the dealer's natural from its
    /// actual hand — and marked settled, exactly once; the dealer's own hand
    /// is then marked settled too if it is terminal, at no payout. Rejected
    /// without any change while a seat hand is still open, and rejected —
    /// never paid twice — once every seat hand is settled. The balance is an
    /// `i32`, so callers keep the settled balance within its range.
    pub fn game_over(&mut self, dealer_value: u32) -> (r: Result<(), EngineError>)
        requires
            old(self).wf(),
            old(self).actors.player.balance + spec_total_payout(
                old(self).actors.player.hands@,
                dealer_value as int,
                spec_is_blackjack(old(self).actors.dealer.hands@[0].cards@),
            ) <= i32::MAX,
        ensures
            final(self).wf(),
            final(self).actors.deck.cards@ == old(self).actors.deck.cards@,
            r is Err ==> *final(self) == *old(self),
            r == spec_settle_result(old(self).actors.player),
            r is Ok ==> spec_settle_effect(
                old(self).actors.player,
                final(self).actors.player,
                dealer_value as int,
                spec_is_blackjack(old(self).actors.dealer.hands@[0].cards@),
            ),
            r is Ok ==> final(self).actors.dealer.balance == old(self).actors.dealer.balance
                && final(self).actors.dealer.name@ == old(self).actors.dealer.name@ && (if
            spec_any_open(old(self).actors.dealer.hands@) {
                final(self).actors.dealer.hands@ == old(self).actors.dealer.hands@
            } else {
                final(self).actors.dealer.hands@ == old(self).actors.dealer.hands@.map_values(
                    |h: Hand| spec_settled_hand(h),
                )
            }),
    {
        let dealer_blackjack = self.actors.dealer.hands[0].is_blackjack();
        match self.actors.player.game_over(dealer_value, dealer_blackjack) {
            Ok(_) => {},
            Err(e) => {
                return Err(e);
            },
        }
        if !self.actors.dealer.has_open_hand() {
            proof {
                lemma_zero_wager_payout(self.actors.dealer.hands@, 0, false);
            }
            let ghost old_dealer_hands = self.actors.dealer.hands@;
            match self.actors.dealer.game_over(0, false) {
                Ok(_) => {},
                Err(_) => {
                    proof {
                        assert(old_dealer_hands.map_values(|h: Hand| spec_settled_hand(h))
                            =~= old_dealer_hands);
                    }
                },
            }
        }
        Ok(())
    }

    /// The seat's balance.
    pub fn player_balance(&self) -> (b: i32)
        ensures
            b == self.actors.player.balance,
    {
        self.actors.player.get_balance()
    }

    /// The labels of every card the seat holds, hand by hand in draw order.
    pub fn player_hand(&self) -> (labels: Vec<String>)
        ensures
            labels.deep_view() == spec_all_labels(self.actors.player.hands@),
    {
        collect_labels(&self.actors.player.hands)
    }

    /// The labels of every card the dealer holds, in draw order.
    pub fn dealer_hand(&self) -> (labels: Vec<String>)
        ensures
            labels.deep_view() == spec_all_labels(self.actors.dealer.hands@),
    {
        collect_labels(&self.actors.dealer.hands)
    }
}

/// The labels of every card across a sequence of hands, hand by hand in
/// draw order.
pub open spec fn spec_all_labels(hands: Seq<Hand>) -> Seq<Seq<char>>
    decreases hands.len(),
{
    if hands.len() == 0 {
        Seq::<Seq<char>>::empty()
    } else {
        spec_all_labels(hands.drop_last()) + hands.last().cards@.map_values(
            |c: Card| spec_card_label(c),
        )
    }
}

/// Collects the label of every card across the given hands, in order.
fn collect_labels(hands: &Vec<Hand>) -> (r: Vec<String>)
    ensures
        r.deep_view() == spec_all_labels(hands@),
{
    let mut r: Vec<String> = Vec::new();
    let n = hands.len();
    proof {
        assert(hands@.take(0) =~= Seq::<Hand>::empty());
        assert(r.deep_view() =~~= spec_all_labels(hands@.take(0)));
    }
    let mut i: usize = 0;
    while i < n
        invariant
            0 <= i <= n,
            n == hands@.len(),
            r.deep_view() == spec_all_labels(hands@.take(i as int)),
        decreases n - i,
    {
        let m = hands[i].cards.len();
        let ghost cs = hands@[i as int].cards@;
        proof {
            assert(cs.take(0) =~= Seq::<Card>::empty());
            assert(r.deep_view() =~~= spec_all_labels(hands@.take(i as int)) + cs.take(
                0,
            ).map_values(|c: Card| spec_card_label(c)));
        }
        let mut j: usize = 0;
        while j < m
            invariant
                0 <= j <= m,
                i < n,
                n == hands@.len(),
                m == cs.len(),
                cs == hands@[i as int].cards@,
                r.deep_view() == spec_all_labels(hands@.take(i as int)) + cs.take(
                    j as int,
                ).map_values(|c: Card| spec_card_label(c)),
            decreases m - j,
        {
            let lab = hands[i].cards[j].label();
            let ghost pre = r.deep_view();
            r.push(lab);
            proof {
                assert(r.deep_view() =~~= pre.push(lab@));
                assert(cs.take(j + 1).map_values(|c: Card| spec_card_label(c)) =~~= cs.take(
                    j as int,
                ).map_values(|c: Card| spec_card_label(c)).push(spec_card_label(cs[j as int])));
                assert(r.deep_view() =~~= spec_all_labels(hands@.take(i as int)) + cs.take(
                    j + 1,
                ).map_values(|c: Card| spec_card_label(c)));
            }
            j = j + 1;
        }
        proof {
            assert(cs.take(m as int) =~= cs);
            assert(hands@.take(i + 1).drop_last() =~= hands@.take(i as int));
            assert(hands@.take(i + 1).last() == hands@[i as int]);
            assert(r.deep_view() =~~= spec_all_labels(hands@.take(i + 1)));
        }
        i = i + 1;
    }
    proof {
        assert(hands@.take(n as int) =~= hands@);
    }
    r
}

} // verus!
