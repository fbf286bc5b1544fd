//! The full, server-side state of the game.

use vstd::prelude::*;
use super::dealer::{Dealer, ShuffledDealer};
use super::event::{event_wf, Event};
use super::public_state::{
    same_bids, same_core, same_nil_rejected, same_seen, same_tricks, spec_play_transition,
    state_eq, PublicState,
};
use super::{Notification, Response, Status, View};
use crate::card::Card;
use crate::card_set::CardSet;
use crate::player::{Array, Player};

verus! {

/// The state of the game.
///
/// Contains the hands of every player, so must not be sent to clients.
pub struct State<D: Dealer> {
    /// The state observable to every player.
    public_state: PublicState,
    /// The dealer that populates every hand.
    dealer: D,
    /// Each player's hand.
    hands: Array<CardSet>,
}

impl<D: Dealer> State<D> {
    /// The state every player observes.
    pub closed spec fn spec_public(self) -> PublicState {
        self.public_state
    }

    /// A player's hand.
    pub closed spec fn spec_hand(self, p: Player) -> CardSet {
        self.hands.spec_get(p)
    }

    /// A server state is well formed when its public state and every hand
    /// are.
    pub open spec fn wf(self) -> bool {
        &&& self.spec_public().wf()
        &&& forall|p: Player| (#[trigger] self.spec_hand(p)).wf()
    }

    /// Creates a new game::State from a dealer, dealing the first hands:
    /// a fresh public state beside four dealt hands of thirteen cards each,
    /// no card in two hands.
    pub fn new(dealer: D) -> (r: Self)
        ensures
            r.wf(),
            r.spec_public().spec_scores()[0].spec_tens() == 0
                && r.spec_public().spec_scores()[0].spec_extras() == 0,
            r.spec_public().spec_scores()[1].spec_tens() == 0
                && r.spec_public().spec_scores()[1].spec_extras() == 0,
            r.spec_public().spec_round_results().len() == 0,
            r.spec_public().spec_dealer() == Player::One,
            forall|p: Player| !(#[trigger] r.spec_public().spec_seen(p)),
            !r.spec_public().spec_trump_broken(),
            r.spec_public().spec_pending_nil() is None,
            forall|p: Player| !(#[trigger] r.spec_public().spec_nil_rejected(p)),
            forall|p: Player| (#[trigger] r.spec_public().spec_bid(p)) is None,
            forall|p: Player| #[trigger] r.spec_public().spec_tricks(p) == 0,
            r.spec_public().spec_trick().start() == Player::Two,
            forall|p: Player| (#[trigger] r.spec_public().spec_trick().play(p)) is None,
            r.spec_public().spec_status() == Status::WaitingForBid(Player::Two),
            forall|p: Player| (#[trigger] r.spec_hand(p)).spec_len() == 13,
            forall|p: Player, q: Player, c: Card|
                p != q && #[trigger] r.spec_hand(p).spec_contains(c)
                    ==> !(#[trigger] r.spec_hand(q).spec_contains(c)),
    {
        let mut game = Self {
            public_state: PublicState::default(),
            dealer,
            hands: Array::from_value(&CardSet::empty()),
        };
        let dealt = game.dealer.deal_cards();
        game.hands = dealt;
        proof {
            assert forall|p: Player, q: Player, c: Card|
                p != q && #[trigger] game.spec_hand(p).spec_contains(c)
                    implies !(#[trigger] game.spec_hand(q).spec_contains(c)) by {
                assert(game.spec_hand(p) == dealt.spec_get(p));
                assert(game.spec_hand(q) == dealt.spec_get(q));
            }
        }
        game
    }

    /// Handles an event caused by a player's action.
    ///
    /// Returns a Response that should be sent back to the client sending
    /// this event and optionally a notification that should be sent to all
    /// other clients.
    pub fn handle_event(&mut self, player: Player, event: Event)
        -> (r: (Response, Option<Notification>))
        requires
            old(self).wf(),
            event_wf(event),
        ensures
            final(self).wf(),
            match event {
                Event::SeeCards => {
                        &&& r.0 matches Response::Cards(h) && h == old(self).spec_hand(player)
                    &&& r.1 is Some
                    &&& final(self).spec_public().spec_seen(player)
                    &&& (forall|q: Player| q != player
                        ==> #[trigger] final(self).spec_public().spec_seen(q)
                            == old(self).spec_public().spec_seen(q))
                    &&& same_core(old(self).spec_public(), final(self).spec_public())
                    &&& same_bids(old(self).spec_public(), final(self).spec_public())
                    &&& same_nil_rejected(old(self).spec_public(), final(self).spec_public())
                    &&& same_tricks(old(self).spec_public(), final(self).spec_public())
                    &&& final(self).spec_public().spec_trick()
                        == old(self).spec_public().spec_trick()
                    &&& (forall|q: Player|
                        #[trigger] final(self).spec_hand(q) == old(self).spec_hand(q))
                },
                Event::MakeBid(bid) => {
                    &&& (r.0 matches Response::Accepted)
                        <==> old(self).spec_public().spec_can_bid(player, bid)
                    &&& (r.0 matches Response::Rejected(_)
                        ==> state_eq(old(self).spec_public(), final(self).spec_public())
                            && r.1 is None)
                    &&& (r.0 matches Response::Accepted ==> r.1 is Some
                        && same_seen(old(self).spec_public(), final(self).spec_public())
                        && same_nil_rejected(old(self).spec_public(), final(self).spec_public())
                        && same_tricks(old(self).spec_public(), final(self).spec_public())
                        && final(self).spec_public().spec_trick()
                            == old(self).spec_public().spec_trick()
                        && final(self).spec_public().spec_scores()
                            == old(self).spec_public().spec_scores()
                        && (bid == crate::scoring::Bid::Nil
                            ==> final(self).spec_public().spec_pending_nil() == Some(player)
                                && same_bids(old(self).spec_public(), final(self).spec_public()))
                        && (bid != crate::scoring::Bid::Nil
                            ==> final(self).spec_public().spec_bid(player) == Some(bid)
                                && (forall|q: Player| q != player
                                    ==> #[trigger] final(self).spec_public().spec_bid(q)
                                        == old(self).spec_public().spec_bid(q))))
                    &&& (forall|q: Player|
                        #[trigger] final(self).spec_hand(q) == old(self).spec_hand(q))
                },
                Event::PlayCard(card) => {
                    &&& (r.0 matches Response::Accepted)
                        <==> old(self).spec_hand(player).spec_contains(card)
                            && old(self).spec_public().spec_status()
                                == Status::WaitingForPlay(player)
                            && old(self).spec_public().spec_trick().spec_playable(
                                old(self).spec_hand(player),
                                old(self).spec_public().spec_trump_broken(),
                            ).spec_contains(card)
                    &&& (r.0 matches Response::Rejected(_)
                        ==> state_eq(old(self).spec_public(), final(self).spec_public())
                            && r.1 is None
                            && (forall|q: Player| #[trigger] final(self).spec_hand(q)
                                == old(self).spec_hand(q)))
                    &&& (r.0 matches Response::Accepted ==> r.1 is Some
                        && spec_play_transition(old(self).spec_public(),
                            final(self).spec_public(), player, card)
                        && (!(final(self).spec_public().spec_status()
                                matches Status::WaitingForBid(_))
                            ==> final(self).spec_hand(player)
                                == old(self).spec_hand(player).spec_remove(card)
                            && (forall|q: Player| q != player
                                ==> #[trigger] final(self).spec_hand(q)
                                    == old(self).spec_hand(q)))
                        && ((final(self).spec_public().spec_status()
                                matches Status::WaitingForBid(_))
                            ==> forall|q: Player|
                                (#[trigger] final(self).spec_hand(q)).spec_len() == 13))
                },
                Event::ApprovesNil(approves) => {
                    &&& (r.0 matches Response::Accepted)
                        <==> (old(self).spec_public().spec_pending_nil() matches Some(b)
                            && b.spec_teammate() == player)
                    &&& (r.0 matches Response::Rejected(_)
                        ==> state_eq(old(self).spec_public(), final(self).spec_public())
                            && r.1 is None)
                    &&& (r.0 matches Response::Accepted ==> r.1 is Some
                        && final(self).spec_public().spec_pending_nil() is None
                        && same_seen(old(self).spec_public(), final(self).spec_public())
                        && same_tricks(old(self).spec_public(), final(self).spec_public())
                        && final(self).spec_public().spec_trick()
                            == old(self).spec_public().spec_trick()
                        && final(self).spec_public().spec_scores()
                            == old(self).spec_public().spec_scores()
                        && {
                            let bidder = old(self).spec_public().spec_pending_nil()->Some_0;
                            &&& (approves ==> final(self).spec_public().spec_bid(bidder)
                                == Some(crate::scoring::Bid::Nil)
                                && same_nil_rejected(old(self).spec_public(),
                                    final(self).spec_public()))
                            &&& (!approves
                                ==> final(self).spec_public().spec_nil_rejected(bidder)
                                && same_bids(old(self).spec_public(),
                                    final(self).spec_public()))
                        })
                    &&& (forall|q: Player|
                        #[trigger] final(self).spec_hand(q) == old(self).spec_hand(q))
                },
            },
            r.1 matches Some(n) ==> n.player == player && n.event == event,
    {
        match event {
            Event::SeeCards => {
                self.public_state.on_cards_seen(player);
                proof {
                    assert forall|q: Player| (#[trigger] self.spec_hand(q)).wf() by {
                        assert(self.spec_hand(q) == old(self).spec_hand(q));
                    }
                }
                (
                    Response::Cards(self.hands.get(player)),
                    Some(Notification { player, event }),
                )
            },
            Event::MakeBid(bid) => {
                let r = self.public_state.on_bid(player, bid);
                proof {
                    assert forall|q: Player| (#[trigger] self.spec_hand(q)).wf() by {
                        assert(self.spec_hand(q) == old(self).spec_hand(q));
                    }
                }
                match r {
                    Err(error) => (Response::Rejected(error), None),
                    Ok(()) => (Response::Accepted, Some(Notification { player, event })),
                }
            },
            Event::PlayCard(card) => {
                proof {
                    assert(old(self).spec_hand(player).wf());
                }
                let mut hand = self.hands.get(player);
                match self.public_state.on_card_played(player, card, &mut hand) {
                    Err(error) => {
                        proof {
                            assert forall|q: Player| (#[trigger] self.spec_hand(q)).wf() by {
                                assert(self.spec_hand(q) == old(self).spec_hand(q));
                            }
                        }
                        (Response::Rejected(error), None)
                    },
                    Ok(()) => {
                        self.hands.set(player, hand);
                        proof {
                            assert forall|q: Player| (#[trigger] self.spec_hand(q)).wf() by {
                                if q != player {
                                    assert(self.spec_hand(q) == old(self).spec_hand(q));
                                }
                            }
                        }
                        if matches!(self.public_state.get_status(), Status::WaitingForBid(_)) {
                            // start of new round
                            let dealt = self.dealer.deal_cards();
                            self.hands = dealt;
                            proof {
                                assert forall|q: Player|
                                    (#[trigger] self.spec_hand(q)).wf()
                                        && self.spec_hand(q).spec_len() == 13 by {
                                    assert(self.spec_hand(q) == dealt.spec_get(q));
                                }
                            }
                        }
                        (Response::Accepted, Some(Notification { player, event }))
                    },
                }
            },
            Event::ApprovesNil(approves) => {
                let r = self.public_state.on_nil_approval(player, approves);
                proof {
                    assert forall|q: Player| (#[trigger] self.spec_hand(q)).wf() by {
                        assert(self.spec_hand(q) == old(self).spec_hand(q));
                    }
                }
                match r {
                    Err(error) => (Response::Rejected(error), None),
                    Ok(()) => (Response::Accepted, Some(Notification { player, event })),
                }
            },
        }
    }

    /// Gets if this game is over or not.
    pub fn is_game_over(&self) -> (r: Result<bool, String>)
        requires
            self.wf(),
        ensures
            r matches Ok(b)
                && b == (self.spec_public().spec_status() == Status::GameOver),
    {
        Ok(matches!(self.public_state.get_status(), Status::GameOver))
    }

    /// Creates a player's view of the game.
    pub fn create_view(&self, player: Player) -> (r: View)
        requires
            self.wf(),
        ensures
            r.wf(),
            r.spec_player() == player,
            state_eq(self.spec_public(), r.spec_public()),
            self.spec_public().spec_seen(player)
                ==> r.spec_hand() == Some(self.spec_hand(player)),
            !self.spec_public().spec_seen(player) ==> r.spec_hand() is None,
    {
        proof {
            assert(self.spec_hand(player).wf());
        }
        View::from_public_state(player, &self.public_state, self.hands.get(player))
    }
}

impl Default for State<ShuffledDealer> {
    /// Creates a new game::State that uses a ShuffledDealer to deal cards.
    fn default() -> (r: Self)
        ensures
            r.wf(),
            r.spec_public().spec_round_results().len() == 0,
            r.spec_public().spec_status() == Status::WaitingForBid(Player::Two),
    {
        Self::new(ShuffledDealer::default())
    }
}

} // verus!
