//! A single player's view of the game.

use vstd::prelude::*;
use vstd::view::View as _;
use super::action::{action_wf, Action};
use super::event::{event_wf, Event};
use super::public_state::{state_eq, spec_play_transition, PublicState};
use super::{Notification, Response, Status};
use crate::card::Card;
use crate::card_set::CardSet;
use crate::player::Player;
use crate::scoring::{spec_compat, Bid, Generator, Score, TeamRoundResult};
use crate::trick::Trick;

verus! {

/// A player's view of the state of the game.
///
/// Contains only the information that a single user knows.
/// In particular does not contain other user's hands.
#[derive(Debug)]
pub struct View {
    /// The player whose view this is of the game.
    player: Player,
    /// The public game state.
    public_state: PublicState,
    /// The user's hand, if they have seen their cards.
    hand: Option<CardSet>,
}

impl View {
    /// The player whose view this is.
    pub closed spec fn spec_player(self) -> Player {
        self.player
    }

    /// The public state this view holds.
    pub closed spec fn spec_public(self) -> PublicState {
        self.public_state
    }

    /// The hand this view holds, if the player has seen their cards.
    pub closed spec fn spec_hand(self) -> Option<CardSet> {
        self.hand
    }

    /// A view is well formed when its public state is, and any held hand is.
    pub open spec fn wf(self) -> bool {
        &&& self.spec_public().wf()
        &&& self.spec_hand() matches Some(h) ==> h.wf()
    }

    /// The hand this view holds, or the empty set while none is held.
    pub open spec fn spec_hand_or_empty(self) -> CardSet {
        match self.spec_hand() {
            Some(h) => h,
            None => CardSet::spec_empty(),
        }
    }

    /// Whether an action is allowed for this view's player right now: no
    /// action once the game is over; seeing cards while unseen; waiting
    /// while the game waits on someone else; exactly the bids the bidding
    /// rules accept, blind nil alone while the cards are unseen; answering
    /// a pending nil of the partner; and exactly the legal cards of the
    /// held hand.
    pub open spec fn spec_action_allowed(self, a: Action) -> bool {
        let st = self.spec_public().spec_status();
        let me = self.spec_player();
        if st == Status::GameOver {
            false
        } else {
            match a {
                Action::SeeCards => !self.spec_public().spec_seen(me),
                Action::Wait => match st {
                    Status::WaitingForBid(p) => p != me,
                    Status::WaitingForNilConfirmation(p) => p != me,
                    Status::WaitingForPlay(p) => p != me,
                    Status::GameOver => false,
                },
                Action::AllowNil => st == Status::WaitingForNilConfirmation(me),
                Action::RejectNil => st == Status::WaitingForNilConfirmation(me),
                Action::MakeBid(b) => st == Status::WaitingForBid(me)
                    && if !self.spec_public().spec_seen(me) {
                        b == Bid::BlindNil
                            && spec_compat(b, self.spec_public().spec_bid(me.spec_teammate()))
                    } else {
                        &&& Generator::spec_position(b) <= 15
                        &&& b != Bid::BlindNil
                        &&& (b != Bid::Nil || !self.spec_public().spec_nil_rejected(me))
                        &&& spec_compat(b, self.spec_public().spec_bid(me.spec_teammate()))
                    },
                Action::PlayCard(c) => st == Status::WaitingForPlay(me)
                    && self.spec_public().spec_trick().spec_playable(
                        self.spec_hand_or_empty(),
                        self.spec_public().spec_trump_broken(),
                    ).spec_contains(c),
            }
        }
    }

    /// Creates a view wrapping a public state.
    pub(crate) fn from_public_state(player: Player, public_state: &PublicState, hand: CardSet)
        -> (r: Self)
        requires
            public_state.wf(),
            hand.wf(),
        ensures
            r.wf(),
            r.spec_player() == player,
            state_eq(*public_state, r.spec_public()),
            public_state.spec_seen(player) ==> r.spec_hand() == Some(hand),
            !public_state.spec_seen(player) ==> r.spec_hand() is None,
    {
        View {
            player,
            public_state: public_state.duplicate(),
            hand: if public_state.can_see_cards(player) {
                Some(hand)
            } else {
                None
            },
        }
    }

    /// Creates a view of a brand new game from a player's perspective:
    /// a fresh public state and no hand yet.
    pub fn new(player: Player) -> (r: Self)
        ensures
            r.wf(),
            r.spec_player() == player,
            r.spec_hand() is None,
            r.spec_public().spec_scores()[0].spec_tens() == 0
                && r.spec_public().spec_scores()[0].spec_extras() == 0,
            r.spec_public().spec_scores()[1].spec_tens() == 0
                && r.spec_public().spec_scores()[1].spec_extras() == 0,
            r.spec_public().spec_round_results().len() == 0,
            r.spec_public().spec_dealer() == Player::One,
            forall|p: Player| !(#[trigger] r.spec_public().spec_seen(p)),
            !r.spec_public().spec_trump_broken(),
            r.spec_public().spec_pending_nil() is None,
            forall|p: Player| !(#[trigger] r.spec_public().spec_nil_rejected(p)),
            forall|p: Player| (#[trigger] r.spec_public().spec_bid(p)) is None,
            forall|p: Player| #[trigger] r.spec_public().spec_tricks(p) == 0,
            r.spec_public().spec_trick().start() == Player::Two,
            forall|p: Player| (#[trigger] r.spec_public().spec_trick().play(p)) is None,
            r.spec_public().spec_status() == Status::WaitingForBid(Player::Two),
    {
        View {
            player,
            public_state: PublicState::default(),
            hand: None,
        }
    }
}

/// Getters that describe the current state of the game.
impl View {
    /// Gets the scores of both teams.
    pub fn get_scores(&self) -> (r: [Score; 2])
        ensures
            r == self.spec_public().spec_scores(),
    {
        self.public_state.get_scores()
    }

    /// Get the results of all completed rounds.
    pub fn get_round_results(&self) -> (r: &Vec<[TeamRoundResult; 2]>)
        ensures
            r@ == self.spec_public().spec_round_results(),
    {
        self.public_state.get_round_results()
    }

    /// Gets if a player can see their cards.
    pub fn can_see_cards(&self, player: Player) -> (r: bool)
        ensures
            r == self.spec_public().spec_seen(player),
    {
        self.public_state.can_see_cards(player)
    }

    /// Gets if trump is broken.
    ///
    /// This means that a trump card was played in a previous trick.
    pub fn is_trump_broken(&self) -> (r: bool)
        ensures
            r == self.spec_public().spec_trump_broken(),
    {
        self.public_state.is_trump_broken()
    }

    /// Gets if a nil bid has been rejected this round,
    /// which prevents the player from bidding nil again this round.
    pub fn get_nil_rejected(&self, player: Player) -> (r: bool)
        ensures
            r == self.spec_public().spec_nil_rejected(player),
    {
        self.public_state.get_nil_rejected(player)
    }

    /// Gets a player's bid, if they have made one yet.
    pub fn get_bid(&self, player: Player) -> (r: Option<Bid>)
        ensures
            r == self.spec_public().spec_bid(player),
    {
        self.public_state.get_bid(player)
    }

    /// Gets the number of tricks that a player has taken.
    pub fn get_num_tricks(&self, player: Player) -> (r: u8)
        ensures
            r == self.spec_public().spec_tricks(player),
    {
        self.public_state.get_num_tricks(player)
    }

    /// Gets a copy of the active trick.
    ///
    /// This contains the cards that have been played by each player.
    pub fn get_trick(&self) -> (r: Trick)
        ensures
            r == self.spec_public().spec_trick(),
    {
        self.public_state.get_trick()
    }

    /// Gets the status of this game.
    pub fn get_status(&self) -> (r: Status)
        requires
            self.wf(),
        ensures
            r == self.spec_public().spec_status(),
    {
        self.public_state.get_status()
    }

    /// Gets the player that this view is for.
    pub fn get_player(&self) -> (r: Player)
        ensures
            r == self.spec_player(),
    {
        self.player
    }

    /// Gets the hand of this player.
    ///
    /// Returns None if the player has not yet seen their hand.
    pub fn get_hand(&self) -> (r: Option<CardSet>)
        ensures
            r == self.spec_hand(),
    {
        self.hand
    }
}

/// The generator's order is its own inverse: the bid at a position sits at
/// that position.
proof fn lemma_bid_order_round_trip(k: int)
    requires
        0 <= k < 16,
    ensures
        Generator::spec_position(Generator::spec_bid_at(k)) == k,
{
}

/// What pushing one action onto a sequence leaves in it.
proof fn lemma_push_contains(prev: Seq<Action>, cur: Seq<Action>, pushed: Action)
    requires
        cur == prev.push(pushed),
    ensures
        forall|a: Action| cur.contains(a) <==> (prev.contains(a) || a == pushed),
        prev.no_duplicates() && !prev.contains(pushed) ==> cur.no_duplicates(),
{
    if prev.no_duplicates() && !prev.contains(pushed) {
        assert forall|i: int, j: int| 0 <= i < cur.len() && 0 <= j < cur.len() && i != j
            implies cur[i] != cur[j] by {
            if i < prev.len() && j < prev.len() {
                assert(prev[i] == cur[i] && prev[j] == cur[j]);
            } else if i < prev.len() {
                assert(cur[j] == pushed && cur[i] == prev[i]);
                assert(prev.contains(prev[i]));
            } else {
                assert(cur[i] == pushed && cur[j] == prev[j]);
                assert(prev.contains(prev[j]));
            }
        }
    }
    assert forall|a: Action| cur.contains(a) <==> (prev.contains(a) || a == pushed) by {
        if a == pushed {
            assert(cur[cur.len() - 1] == a);
            assert(cur.contains(a));
        }
        if prev.contains(a) {
            let i = choose|i: int| 0 <= i < prev.len() && prev[i] == a;
            assert(cur[i] == a);
            assert(cur.contains(a));
        }
        if cur.contains(a) && a != pushed {
            let i = choose|i: int| 0 <= i < cur.len() && cur[i] == a;
            assert(i < prev.len());
            assert(prev[i] == a);
            assert(prev.contains(a));
        }
    }
}

/// Both views agree on the player, the public state, and the held hand.
pub open spec fn view_eq(a: View, b: View) -> bool {
    &&& b.spec_player() == a.spec_player()
    &&& state_eq(a.spec_public(), b.spec_public())
    &&& b.spec_hand() == a.spec_hand()
}

/// Manipulates the game through Actions, Notifications, and Responses.
impl View {
    /// Sets the hand of the player.
    ///
    /// The player's hand is acquired by sending a SeeCards event to
    /// the server.
    fn set_hand(&mut self, hand: CardSet)
        requires
            old(self).wf(),
            hand.wf(),
        ensures
            final(self).wf(),
            final(self).spec_player() == old(self).spec_player(),
            final(self).spec_hand() == Some(hand),
            final(self).spec_public().spec_seen(old(self).spec_player()),
            super::public_state::same_core(old(self).spec_public(), final(self).spec_public()),
            super::public_state::same_bids(old(self).spec_public(), final(self).spec_public()),
            super::public_state::same_nil_rejected(old(self).spec_public(),
                final(self).spec_public()),
            super::public_state::same_tricks(old(self).spec_public(), final(self).spec_public()),
            forall|q: Player| q != old(self).spec_player()
                ==> #[trigger] final(self).spec_public().spec_seen(q)
                    == old(self).spec_public().spec_seen(q),
            final(self).spec_public().spec_trump_broken()
                == old(self).spec_public().spec_trump_broken(),
            final(self).spec_public().spec_trick() == old(self).spec_public().spec_trick(),
    {
        self.hand = Some(hand);
        self.public_state.on_cards_seen(self.player);
    }

    /// Internal function called after a card is played.
    ///
    /// Used to set this player's hand to None if the round has ended.
    fn after_card_played(&mut self)
        ensures
            final(self).spec_player() == old(self).spec_player(),
            final(self).spec_public() == old(self).spec_public(),
            old(self).spec_public().spec_seen(old(self).spec_player())
                ==> *final(self) == *old(self),
            !old(self).spec_public().spec_seen(old(self).spec_player())
                ==> final(self).spec_hand() is None,
    {
        if !self.public_state.can_see_cards(self.player) {
            self.hand = None;
        }
    }

    /// Gets the actions that this player may perform at the current time.
    pub fn get_allowed_actions(&self) -> (r: Vec<Action>)
        requires
            self.wf(),
        ensures
            forall|a: Action| r@.contains(a) <==> self.spec_action_allowed(a),
            r@.no_duplicates(),
    {
        let mut set: Vec<Action> = Vec::new();
        let status = self.get_status();
        if matches!(status, Status::GameOver) {
            // no valid actions when the game is over
            return set;
        }
        if !self.can_see_cards(self.player) {
            set.push(Action::SeeCards);
        }
        proof {
            assert forall|a: Action| set@.contains(a)
                <==> (a == Action::SeeCards
                    && !self.spec_public().spec_seen(self.spec_player())) by {
                if a == Action::SeeCards
                    && !self.spec_public().spec_seen(self.spec_player()) {
                    assert(set@[0] == a);
                }
            }
        }
        match status {
            Status::WaitingForBid(player) => {
                if player != self.player {
                    let ghost prev = set@;
                    set.push(Action::Wait);
                    proof {
                        lemma_push_contains(prev, set@, Action::Wait);
                        assert forall|a: Action| set@.contains(a)
                            <==> self.spec_action_allowed(a) by {}
                    }
                } else if !self.can_see_cards(self.player) {
                    if Bid::BlindNil
                        .get_compatibility_error(self.get_bid(self.player.teammate()))
                        .is_none()
                    {
                        let ghost prev = set@;
                        set.push(Action::MakeBid(Bid::BlindNil));
                        proof {
                            lemma_push_contains(prev, set@, Action::MakeBid(Bid::BlindNil));
                        }
                    }
                    proof {
                        assert forall|a: Action| set@.contains(a)
                            <==> self.spec_action_allowed(a) by {}
                    }
                } else {
                    let mut generator = Generator::default();
                    let mut done = false;
                    while !done
                        invariant
                            self.wf(),
                            self.spec_public().spec_status()
                                == Status::WaitingForBid(self.spec_player()),
                            self.spec_public().spec_seen(self.spec_player()),
                            generator.wf(),
                            done ==> generator.position() >= 16,
                            set@.no_duplicates(),
                            forall|a: Action| #[trigger] set@.contains(a)
                                <==> self.spec_action_allowed(a)
                                    && (a matches Action::MakeBid(b)
                                        && Generator::spec_position(b)
                                            < generator.position()),
                        decreases 17 - generator.position() + if done { 0int } else { 1int },
                    {
                        let ghost k = generator.position();
                        match generator.next() {
                            None => { done = true; },
                            Some(bid) => {
                                proof {
                                    assert(k < 16);
                                    assert(bid == Generator::spec_bid_at(k));
                                    lemma_bid_order_round_trip(k);
                                    assert(Generator::spec_position(bid) == k);
                                }
                                let ghost prev = set@;
                                let allowed = !(bid == Bid::BlindNil) && (!(bid == Bid::Nil)
                                    || !self.get_nil_rejected(self.player))
                                    && bid.get_compatibility_error(
                                        self.get_bid(self.player.teammate())).is_none();
                                if allowed {
                                    set.push(Action::MakeBid(bid));
                                }
                                proof {
                                    assert(allowed
                                        == self.spec_action_allowed(Action::MakeBid(bid)));
                                    assert(prev.contains(Action::MakeBid(bid))
                                        ==> Generator::spec_position(bid) < k);
                                    assert(!prev.contains(Action::MakeBid(bid)));
                                    if allowed {
                                        lemma_push_contains(prev, set@, Action::MakeBid(bid));
                                    }
                                    assert forall|a: Action| set@.contains(a)
                                        <==> self.spec_action_allowed(a)
                                            && (a matches Action::MakeBid(b)
                                                && Generator::spec_position(b)
                                                    < generator.position()) by {
                                        if let Action::MakeBid(b) = a {
                                            assert(Generator::spec_position(b) == k
                                                ==> b == Generator::spec_bid_at(k));
                                        }
                                    }
                                }
                            },
                        }
                    }
                    proof {
                        assert forall|a: Action| set@.contains(a)
                            <==> self.spec_action_allowed(a) by {
                            if let Action::MakeBid(b) = a {
                                if self.spec_action_allowed(a) {
                                    assert(Generator::spec_position(b) <= 15);
                                }
                            }
                        }
                    }
                }
            },
            Status::WaitingForNilConfirmation(player) => {
                if player != self.player {
                    let ghost prev = set@;
                    set.push(Action::Wait);
                    proof {
                        lemma_push_contains(prev, set@, Action::Wait);
                        assert forall|a: Action| set@.contains(a)
                            <==> self.spec_action_allowed(a) by {}
                    }
                } else {
                    let ghost prev0 = set@;
                    set.push(Action::AllowNil);
                    proof {
                        lemma_push_contains(prev0, set@, Action::AllowNil);
                    }
                    let ghost prev1 = set@;
                    set.push(Action::RejectNil);
                    proof {
                        lemma_push_contains(prev1, set@, Action::RejectNil);
                        assert forall|a: Action| set@.contains(a)
                            <==> self.spec_action_allowed(a) by {}
                    }
                }
            },
            Status::WaitingForPlay(player) => {
                if player != self.player {
                    let ghost prev = set@;
                    set.push(Action::Wait);
                    proof {
                        lemma_push_contains(prev, set@, Action::Wait);
                        assert forall|a: Action| set@.contains(a)
                            <==> self.spec_action_allowed(a) by {}
                    }
                } else {
                    let hand = match self.get_hand() {
                        Some(h) => h,
                        None => CardSet::empty(),
                    };
                    proof {
                        crate::card_set::lemma_empty_set_facts();
                    }
                    let playable = self.get_trick()
                        .get_playable_cards(hand, self.is_trump_broken());
                    let mut iter = playable.iter();
                    let mut done = false;
                    while !done
                        invariant
                            self.wf(),
                            self.spec_public().spec_status()
                                == Status::WaitingForPlay(self.spec_player()),
                            playable == self.spec_public().spec_trick().spec_playable(
                                self.spec_hand_or_empty(),
                                self.spec_public().spec_trump_broken(),
                            ),
                            playable.wf(),
                            iter.wf(),
                            done ==> iter.remaining().spec_is_empty(),
                            forall|c: Card| (#[trigger] iter.remaining().spec_contains(c))
                                ==> playable.spec_contains(c),
                            set@.no_duplicates(),
                            forall|a: Action| #[trigger] set@.contains(a)
                                <==> self.spec_action_allowed(a)
                                    && (a matches Action::PlayCard(c)
                                        ==> !iter.remaining().spec_contains(c)),
                        decreases iter.remaining().spec_len() + if done { 0int } else { 1int },
                    {
                        let ghost rem = iter.remaining();
                        match iter.next() {
                            None => { done = true; },
                            Some(card) => {
                                let ghost prev = set@;
                                set.push(Action::PlayCard(card));
                                proof {
                                    lemma_push_contains(prev, set@, Action::PlayCard(card));
                                    assert(rem.spec_contains(card));
                                    assert(playable.spec_contains(card));
                                    assert(prev.contains(Action::PlayCard(card))
                                        ==> !rem.spec_contains(card));
                                    assert(!prev.contains(Action::PlayCard(card)));
                                    assert forall|a: Action| set@.contains(a)
                                        <==> self.spec_action_allowed(a)
                                            && (a matches Action::PlayCard(c)
                                                ==> !iter.remaining().spec_contains(c)) by {
                                        if let Action::PlayCard(c) = a {
                                            if c == card {
                                                assert(!iter.remaining().spec_contains(c));
                                            } else {
                                                assert(iter.remaining().spec_contains(c)
                                                    == rem.spec_contains(c));
                                            }
                                        }
                                    }
                                }
                            },
                        }
                    }
                    proof {
                        crate::card_set::lemma_iter_remaining_wf(iter);
                        crate::card_set::lemma_empty_no_member(iter.remaining());
                        assert forall|a: Action| set@.contains(a)
                            <==> self.spec_action_allowed(a) by {
                            if let Action::PlayCard(c) = a {
                                assert(!iter.remaining().spec_contains(c));
                            }
                        }
                    }
                }
            },
            Status::GameOver => {
                proof { assert(false); }
            },
        }
                set
    }

    /// Makes a bid as the player.
    fn make_bid(&mut self, bid: Bid) -> (r: Result<Event, String>)
        requires
            old(self).wf(),
        ensures
            final(self).wf(),
            final(self).spec_player() == old(self).spec_player(),
            final(self).spec_hand() == old(self).spec_hand(),
            r is Ok <==> old(self).spec_public().spec_can_bid(old(self).spec_player(), bid),
            r matches Ok(e) ==> e == Event::MakeBid(bid),
            r is Err ==> state_eq(old(self).spec_public(), final(self).spec_public()),
            r is Ok ==> (bid == Bid::Nil
                    ==> final(self).spec_public().spec_pending_nil()
                        == Some(old(self).spec_player()))
                && (bid != Bid::Nil ==> final(self).spec_public().spec_bid(
                    old(self).spec_player()) == Some(bid)),
    {
        match self.public_state.on_bid(self.player, bid) {
            Ok(()) => Ok(Event::MakeBid(bid)),
            Err(e) => Err(e),
        }
    }

    /// Approves this player's teammate's nil bid.
    fn approve_nil(&mut self) -> (r: Result<Event, String>)
        requires
            old(self).wf(),
        ensures
            final(self).wf(),
            final(self).spec_player() == old(self).spec_player(),
            final(self).spec_hand() == old(self).spec_hand(),
            r is Ok <==> (old(self).spec_public().spec_pending_nil() matches Some(b)
                && b.spec_teammate() == old(self).spec_player()),
            r matches Ok(e) ==> e == Event::ApprovesNil(true),
            r is Err ==> state_eq(old(self).spec_public(), final(self).spec_public()),
            r is Ok ==> final(self).spec_public().spec_pending_nil() is None
                && final(self).spec_public().spec_bid(
                    old(self).spec_public().spec_pending_nil()->Some_0) == Some(Bid::Nil),
    {
        match self.public_state.on_nil_approval(self.player, true) {
            Ok(()) => Ok(Event::ApprovesNil(true)),
            Err(e) => Err(e),
        }
    }

    /// Rejects this player's teammate's nil bid.
    fn reject_nil(&mut self) -> (r: Result<Event, String>)
        requires
            old(self).wf(),
        ensures
            final(self).wf(),
            final(self).spec_player() == old(self).spec_player(),
            final(self).spec_hand() == old(self).spec_hand(),
            r is Ok <==> (old(self).spec_public().spec_pending_nil() matches Some(b)
                && b.spec_teammate() == old(self).spec_player()),
            r matches Ok(e) ==> e == Event::ApprovesNil(false),
            r is Err ==> state_eq(old(self).spec_public(), final(self).spec_public()),
            r is Ok ==> final(self).spec_public().spec_pending_nil() is None
                && final(self).spec_public().spec_nil_rejected(
                    old(self).spec_public().spec_pending_nil()->Some_0),
    {
        match self.public_state.on_nil_approval(self.player, false) {
            Ok(()) => Ok(Event::ApprovesNil(false)),
            Err(e) => Err(e),
        }
    }

    /// Plays a card as this player.
    fn play_card(&mut self, card: Card) -> (r: Result<Event, String>)
        requires
            old(self).wf(),
            card.wf(),
        ensures
            final(self).wf(),
            final(self).spec_player() == old(self).spec_player(),
            r is Ok <==> (old(self).spec_hand() matches Some(h)
                && h.spec_contains(card)
                && old(self).spec_public().spec_status()
                    == Status::WaitingForPlay(old(self).spec_player())
                && old(self).spec_public().spec_trick().spec_playable(h,
                    old(self).spec_public().spec_trump_broken()).spec_contains(card)),
            r matches Ok(e) ==> e == Event::PlayCard(card),
            r is Err ==> state_eq(old(self).spec_public(), final(self).spec_public())
                && final(self).spec_hand() == old(self).spec_hand(),
            r is Ok ==> spec_play_transition(old(self).spec_public(),
                    final(self).spec_public(), old(self).spec_player(), card)
                && (final(self).spec_public().spec_seen(old(self).spec_player())
                    ==> final(self).spec_hand()
                        == Some(old(self).spec_hand()->Some_0.spec_remove(card)))
                && (!final(self).spec_public().spec_seen(old(self).spec_player())
                    ==> final(self).spec_hand() is None),
    {
        let mut hand = match self.hand {
            Some(h) => h,
            None => {
                return Err("Can not play a card without seeing your hand.".to_string());
            },
        };
        match self.public_state.on_card_played(self.player, card, &mut hand) {
            Ok(()) => {},
            Err(e) => { return Err(e); },
        }
        self.hand = Some(hand);
        self.after_card_played();
        Ok(Event::PlayCard(card))
    }

    /// Performs an action.
    pub fn perform_action(&mut self, action: Action) -> (r: Result<Option<Event>, String>)
        requires
            old(self).wf(),
            action_wf(action),
        ensures
            final(self).wf(),
            final(self).spec_player() == old(self).spec_player(),
            match action {
                Action::Wait => (r matches Ok(e) && e is None
                        <==> old(self).spec_action_allowed(Action::Wait))
                    && view_eq(*old(self), *final(self)),
                Action::SeeCards => (r matches Ok(e)
                        && e == Some(Event::SeeCards)
                        <==> old(self).spec_action_allowed(Action::SeeCards))
                    && view_eq(*old(self), *final(self)),
                Action::AllowNil => (r is Ok
                        <==> (old(self).spec_public().spec_pending_nil() matches Some(b)
                            && b.spec_teammate() == old(self).spec_player()))
                    && (r matches Ok(e) ==> e == Some(Event::ApprovesNil(true)))
                    && (r is Err
                        ==> state_eq(old(self).spec_public(), final(self).spec_public())
                            && final(self).spec_hand() == old(self).spec_hand()),
                Action::RejectNil => (r is Ok
                        <==> (old(self).spec_public().spec_pending_nil() matches Some(b)
                            && b.spec_teammate() == old(self).spec_player()))
                    && (r matches Ok(e) ==> e == Some(Event::ApprovesNil(false)))
                    && (r is Err
                        ==> state_eq(old(self).spec_public(), final(self).spec_public())
                            && final(self).spec_hand() == old(self).spec_hand()),
                Action::MakeBid(bid) => (r is Ok
                        <==> old(self).spec_public().spec_can_bid(
                            old(self).spec_player(), bid))
                    && (r matches Ok(e) ==> e == Some(Event::MakeBid(bid)))
                    && final(self).spec_hand() == old(self).spec_hand()
                    && (r is Err
                        ==> state_eq(old(self).spec_public(), final(self).spec_public()))
                    && (r is Ok ==> (bid == Bid::Nil
                            ==> final(self).spec_public().spec_pending_nil()
                                == Some(old(self).spec_player()))
                        && (bid != Bid::Nil ==> final(self).spec_public().spec_bid(
                            old(self).spec_player()) == Some(bid))),
                Action::PlayCard(card) => (r is Ok
                        <==> (old(self).spec_hand() matches Some(h)
                            && h.spec_contains(card)
                            && old(self).spec_public().spec_status()
                                == Status::WaitingForPlay(old(self).spec_player())
                            && old(self).spec_public().spec_trick().spec_playable(h,
                                old(self).spec_public().spec_trump_broken())
                                .spec_contains(card)))
                    && (r matches Ok(e) ==> e == Some(Event::PlayCard(card)))
                    && (r is Err
                        ==> state_eq(old(self).spec_public(), final(self).spec_public())
                            && final(self).spec_hand() == old(self).spec_hand())
                    && (r is Ok ==> spec_play_transition(old(self).spec_public(),
                        final(self).spec_public(), old(self).spec_player(), card)),
            },
    {
        match action {
            Action::Wait => {
                let player = match self.get_status() {
                    Status::WaitingForBid(player) => player,
                    Status::WaitingForNilConfirmation(player) => player,
                    Status::WaitingForPlay(player) => player,
                    Status::GameOver => {
                        return Err("Can not wait when the game is over".to_string());
                    },
                };
                if self.player == player {
                    Err("Can not wait when the game is waiting on you.".to_string())
                } else {
                    Ok(None)
                }
            },
            Action::SeeCards => {
                if matches!(self.get_status(), Status::GameOver) {
                    Err("Can not request to see your cards when the game is over".to_string())
                } else if self.public_state.can_see_cards(self.player) {
                    Err("Can not request to see your cards when you can already see them."
                        .to_string())
                } else {
                    Ok(Some(Event::SeeCards))
                }
            },
            Action::AllowNil => {
                match self.approve_nil() {
                    Ok(e) => Ok(Some(e)),
                    Err(e) => Err(e),
                }
            },
            Action::RejectNil => {
                match self.reject_nil() {
                    Ok(e) => Ok(Some(e)),
                    Err(e) => Err(e),
                }
            },
            Action::MakeBid(bid) => {
                match self.make_bid(bid) {
                    Ok(e) => Ok(Some(e)),
                    Err(e) => Err(e),
                }
            },
            Action::PlayCard(card) => {
                match self.play_card(card) {
                    Ok(e) => Ok(Some(e)),
                    Err(e) => Err(e),
                }
            },
        }
    }

    /// Handles a response from the server.
    pub fn handle_response(&mut self, response: Response) -> (r: Result<(), String>)
        requires
            old(self).wf(),
            response matches Response::Cards(h) ==> h.wf(),
        ensures
            final(self).wf(),
            final(self).spec_player() == old(self).spec_player(),
            r is Err <==> response matches Response::Rejected(_),
            response matches Response::Accepted ==> *final(self) == *old(self),
            response matches Response::Rejected(_) ==> *final(self) == *old(self),
            response matches Response::Cards(h)
                ==> final(self).spec_hand() == Some(h)
                    && final(self).spec_public().spec_seen(old(self).spec_player()),
    {
        match response {
            Response::Accepted => Ok(()),
            Response::Cards(cards) => {
                self.set_hand(cards);
                Ok(())
            },
            Response::Rejected(error) => Err(error),
        }
    }

    /// Handles a notification from the server: it applies another player's
    /// accepted event to this view's copy of the public state.
    pub fn handle_notification(&mut self, notification: Notification)
        -> (r: Result<(), String>)
        requires
            old(self).wf(),
            event_wf(notification.event),
        ensures
            final(self).wf(),
            final(self).spec_player() == old(self).spec_player(),
            notification.player == old(self).spec_player()
                ==> r is Err && *final(self) == *old(self),
            notification.player != old(self).spec_player() ==> match notification.event {
                Event::SeeCards => r is Ok
                    && final(self).spec_public().spec_seen(notification.player)
                    && (forall|q: Player| q != notification.player
                        ==> #[trigger] final(self).spec_public().spec_seen(q)
                            == old(self).spec_public().spec_seen(q))
                    && super::public_state::same_core(old(self).spec_public(),
                        final(self).spec_public())
                    && super::public_state::same_bids(old(self).spec_public(),
                        final(self).spec_public())
                    && super::public_state::same_nil_rejected(old(self).spec_public(),
                        final(self).spec_public())
                    && super::public_state::same_tricks(old(self).spec_public(),
                        final(self).spec_public())
                    && final(self).spec_public().spec_trick()
                        == old(self).spec_public().spec_trick()
                    && final(self).spec_hand() == old(self).spec_hand(),
                Event::MakeBid(bid) => (r is Ok <==> old(self).spec_public().spec_can_bid(
                        notification.player, bid))
                    && (r is Err
                        ==> state_eq(old(self).spec_public(), final(self).spec_public()))
                    && (r is Ok ==> (bid == Bid::Nil
                            ==> final(self).spec_public().spec_pending_nil()
                                == Some(notification.player))
                        && (bid != Bid::Nil ==> final(self).spec_public().spec_bid(
                            notification.player) == Some(bid)))
                    && final(self).spec_hand() == old(self).spec_hand(),
                Event::ApprovesNil(approves) => (r is Ok
                        <==> (old(self).spec_public().spec_pending_nil() matches Some(b)
                            && b.spec_teammate() == notification.player))
                    && (r is Err
                        ==> state_eq(old(self).spec_public(), final(self).spec_public()))
                    && (r is Ok ==> final(self).spec_public().spec_pending_nil() is None
                        && {
                            let bidder = old(self).spec_public().spec_pending_nil()->Some_0;
                            &&& (approves ==> final(self).spec_public().spec_bid(bidder)
                                == Some(Bid::Nil))
                            &&& (!approves
                                ==> final(self).spec_public().spec_nil_rejected(bidder))
                        })
                    && final(self).spec_hand() == old(self).spec_hand(),
                Event::PlayCard(card) => (r is Ok
                        <==> old(self).spec_public().spec_status()
                            == Status::WaitingForPlay(notification.player))
                    && (r is Err
                        ==> state_eq(old(self).spec_public(), final(self).spec_public())
                            && final(self).spec_hand() == old(self).spec_hand())
                    && (r is Ok ==> spec_play_transition(old(self).spec_public(),
                        final(self).spec_public(), notification.player, card)),
            },
    {
        if self.player == notification.player {
            return Err(
                "Notifications from a player can not be applied to the player's own view of the game.".to_string(),
            );
        }
        match notification.event {
            Event::SeeCards => {
                self.public_state.on_cards_seen(notification.player);
                Ok(())
            },
            Event::MakeBid(bid) => {
                match self.public_state.on_bid(notification.player, bid) {
                    Ok(()) => Ok(()),
                    Err(e) => Err(e),
                }
            },
            Event::ApprovesNil(approves) => {
                match self.public_state.on_nil_approval(notification.player, approves) {
                    Ok(()) => Ok(()),
                    Err(e) => Err(e),
                }
            },
            Event::PlayCard(card) => {
                match self.public_state.unchecked_on_card_played(notification.player, card) {
                    Ok(()) => {},
                    Err(e) => { return Err(e); },
                }
                self.after_card_played();
                Ok(())
            },
        }
    }
}

} // verus!
