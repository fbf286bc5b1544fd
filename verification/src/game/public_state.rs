//! Game state that is viewable by all players, and every rule that guards
//! how that state may change.

use vstd::prelude::*;
use super::Status;
use crate::card::{Card, Suite};
use crate::card_set::CardSet;
use crate::player::{Array, Player};
use crate::scoring::{
    self, clamp_i64, spec_bid_value, spec_compat, spec_num_tricks, spec_round_extras,
    spec_round_tens, spec_winning_team, Bid, Score, TeamRoundResult,
};
use crate::trick::{self, Trick};

verus! {

/// Game state that is viewable by all players.
#[derive(Debug)]
pub struct PublicState {
    /// The current score.
    scores: [Score; 2],
    /// The results from past rounds.
    round_results: Vec<[TeamRoundResult; 2]>,
    /// The dealer for this round.
    dealer: Player,
    /// If each player has seen their cards.
    seen_cards: Array<bool>,
    /// If a trump card has been played yet.
    trump_broken: bool,
    /// The player that bid nil and is waiting for partner confirmation.
    pending_nil_player: Option<Player>,
    /// If each player has had a nil rejected this round, meaning that
    /// they can not attempt to bid nil again this round.
    nil_rejected: Array<bool>,
    /// Each player's bid.
    bids: Array<Option<Bid>>,
    /// The number of tricks each player has taken.
    tricks_taken: Array<u8>,
    /// The current trick.
    trick: Trick,
}

impl PublicState {
    /// The two team scores, with the team of players One and Three first.
    pub closed spec fn spec_scores(self) -> [Score; 2] {
        self.scores
    }

    /// The recorded results of the completed rounds.
    pub closed spec fn spec_round_results(self) -> Seq<[TeamRoundResult; 2]> {
        self.round_results@
    }

    /// The dealer of the current round.
    pub closed spec fn spec_dealer(self) -> Player {
        self.dealer
    }

    /// Whether a player has seen their cards this round.
    pub closed spec fn spec_seen(self, p: Player) -> bool {
        self.seen_cards.spec_get(p)
    }

    /// Whether a trump card has been played this round.
    pub closed spec fn spec_trump_broken(self) -> bool {
        self.trump_broken
    }

    /// The player whose nil bid awaits partner confirmation, if any.
    pub closed spec fn spec_pending_nil(self) -> Option<Player> {
        self.pending_nil_player
    }

    /// Whether a player has had a nil bid rejected this round.
    pub closed spec fn spec_nil_rejected(self, p: Player) -> bool {
        self.nil_rejected.spec_get(p)
    }

    /// A player's settled bid, if any.
    pub closed spec fn spec_bid(self, p: Player) -> Option<Bid> {
        self.bids.spec_get(p)
    }

    /// The number of tricks a player has taken this round.
    pub closed spec fn spec_tricks(self, p: Player) -> int {
        self.tricks_taken.spec_get(p) as int
    }

    /// The live trick.
    pub closed spec fn spec_trick(self) -> Trick {
        self.trick
    }

    /// The number of completed tricks of the current round.
    pub open spec fn spec_total_tricks(self) -> int {
        self.spec_tricks(Player::One) + self.spec_tricks(Player::Two)
            + self.spec_tricks(Player::Three) + self.spec_tricks(Player::Four)
    }

    /// The internal invariant of a public state: the live trick is well
    /// formed and still waiting, every settled claim stays within the
    /// thirteen tricks of a round, at most twelve tricks are recorded while
    /// a round runs, and both scores are well formed.
    pub open spec fn wf(self) -> bool {
        &&& self.spec_trick().wf()
        &&& self.spec_trick().spec_status() matches trick::Status::Waiting(_)
        &&& forall|p: Player| bid_bounded(#[trigger] self.spec_bid(p))
        &&& forall|p: Player| 0 <= #[trigger] self.spec_tricks(p)
        &&& self.spec_total_tricks() <= 12
        &&& self.spec_scores()[0].wf()
        &&& self.spec_scores()[1].wf()
        &&& self.spec_pending_nil() matches Some(p) ==> self.spec_bid(p) is None
    }

    /// The status the game presents, derived from the fields: game over once
    /// a team meets the win condition; otherwise a pending nil waits on the
    /// bidder's partner; otherwise the first player without a bid, scanning
    /// from the seat after the dealer, must bid; otherwise the live trick's
    /// waiting player must play.
    pub open spec fn spec_status(self) -> Status {
        if spec_winning_team(self.spec_scores()[0], self.spec_scores()[1]) is Some {
            Status::GameOver
        } else if self.spec_pending_nil() is Some {
            Status::WaitingForNilConfirmation(self.spec_pending_nil()->Some_0.spec_teammate())
        } else {
            let b1 = self.spec_dealer().spec_next();
            let b2 = b1.spec_next();
            let b3 = b2.spec_next();
            let b4 = b3.spec_next();
            if self.spec_bid(b1) is None {
                Status::WaitingForBid(b1)
            } else if self.spec_bid(b2) is None {
                Status::WaitingForBid(b2)
            } else if self.spec_bid(b3) is None {
                Status::WaitingForBid(b3)
            } else if self.spec_bid(b4) is None {
                Status::WaitingForBid(b4)
            } else {
                // a well-formed state always holds a waiting trick; the won
                // arm only keeps this function total
                match self.spec_trick().spec_status() {
                    trick::Status::Waiting(p) => Status::WaitingForPlay(p),
                    trick::Status::Won(p, _) => Status::WaitingForPlay(p),
                }
            }
        }
    }

    /// Whether a bid by a player would be accepted: it must be that player's
    /// turn to bid, blind nil demands unseen cards, the bid must tolerate the
    /// partner's settled bid, and a nil rejected this round blocks nil.
    pub open spec fn spec_can_bid(self, player: Player, bid: Bid) -> bool {
        &&& self.spec_status() == Status::WaitingForBid(player)
        &&& !(bid == Bid::BlindNil && self.spec_seen(player))
        &&& spec_compat(bid, self.spec_bid(player.spec_teammate()))
        &&& !(bid == Bid::Nil && self.spec_nil_rejected(player))
    }
}

/// A settled bid never claims more than the thirteen tricks of a round.
pub open spec fn bid_bounded(o: Option<Bid>) -> bool {
    o matches Some(b) ==> spec_num_tricks(b) <= 13
}

/// Both states hold the same scores, history, dealer, and pending nil.
pub open spec fn same_core(a: PublicState, b: PublicState) -> bool {
    &&& b.spec_scores() == a.spec_scores()
    &&& b.spec_round_results() == a.spec_round_results()
    &&& b.spec_dealer() == a.spec_dealer()
    &&& b.spec_pending_nil() == a.spec_pending_nil()
}

/// Both states hold the same bid for every player.
pub open spec fn same_bids(a: PublicState, b: PublicState) -> bool {
    forall|p: Player| #[trigger] b.spec_bid(p) == a.spec_bid(p)
}

/// Both states hold the same seen-cards flag for every player.
pub open spec fn same_seen(a: PublicState, b: PublicState) -> bool {
    forall|p: Player| #[trigger] b.spec_seen(p) == a.spec_seen(p)
}

/// Both states hold the same nil-rejected flag for every player.
pub open spec fn same_nil_rejected(a: PublicState, b: PublicState) -> bool {
    forall|p: Player| #[trigger] b.spec_nil_rejected(p) == a.spec_nil_rejected(p)
}

/// Both states hold the same trick count for every player.
pub open spec fn same_tricks(a: PublicState, b: PublicState) -> bool {
    forall|p: Player| #[trigger] b.spec_tricks(p) == a.spec_tricks(p)
}

/// Both states are observably equal.
pub open spec fn state_eq(a: PublicState, b: PublicState) -> bool {
    &&& same_core(a, b)
    &&& same_bids(a, b)
    &&& same_seen(a, b)
    &&& same_nil_rejected(a, b)
    &&& same_tricks(a, b)
    &&& b.spec_trump_broken() == a.spec_trump_broken()
    &&& b.spec_trick() == a.spec_trick()
}

/// One score was folded into another: extras combine and carry in groups of
/// ten, and the tens sum is clamped into the i64 range.
pub open spec fn score_after(pre: Score, post: Score, delta_tens: int, delta_extras: int) -> bool {
    &&& post.spec_tens() == clamp_i64(pre.spec_tens() + delta_tens
        + (pre.spec_extras() + delta_extras) / 10)
    &&& post.spec_extras() == (pre.spec_extras() + delta_extras) % 10
}

/// The trick count a player ends the round with, after the trick winner's
/// count is raised by one.
pub open spec fn spec_tt_after(pre: PublicState, w: Player, p: Player) -> int {
    pre.spec_tricks(p) + if p == w { 1int } else { 0int }
}

/// The recorded pair of team results matches the bids and final trick
/// counts of the ending round: players One and Three first, Two and Four
/// second, each in that order within the pair.
pub open spec fn spec_result_pair_ok(pre: PublicState, w: Player, pair: [TeamRoundResult; 2]) -> bool {
    &&& pair[0].bids[0] == pre.spec_bid(Player::One)->Some_0
    &&& pair[0].bids[1] == pre.spec_bid(Player::Three)->Some_0
    &&& pair[0].tricks_taken[0] == spec_tt_after(pre, w, Player::One)
    &&& pair[0].tricks_taken[1] == spec_tt_after(pre, w, Player::Three)
    &&& pair[1].bids[0] == pre.spec_bid(Player::Two)->Some_0
    &&& pair[1].bids[1] == pre.spec_bid(Player::Four)->Some_0
    &&& pair[1].tricks_taken[0] == spec_tt_after(pre, w, Player::Two)
    &&& pair[1].tricks_taken[1] == spec_tt_after(pre, w, Player::Four)
}

/// The round ended: the result pair joins the history, each team's round
/// score folds into its total, the dealer advances one seat, every
/// round-scoped field resets, and a fresh trick waits on the seat after the
/// new dealer.
pub open spec fn spec_round_end(pre: PublicState, post: PublicState, w: Player) -> bool {
    let rr = post.spec_round_results();
    let pair = rr.last();
    &&& rr.len() == pre.spec_round_results().len() + 1
    &&& (forall|i: int| 0 <= i < pre.spec_round_results().len()
        ==> rr[i] == pre.spec_round_results()[i])
    &&& spec_result_pair_ok(pre, w, pair)
    &&& score_after(pre.spec_scores()[0], post.spec_scores()[0],
        spec_round_tens(pair[0]), spec_round_extras(pair[0]))
    &&& score_after(pre.spec_scores()[1], post.spec_scores()[1],
        spec_round_tens(pair[1]), spec_round_extras(pair[1]))
    &&& post.spec_dealer() == pre.spec_dealer().spec_next()
    &&& forall|p: Player| !(#[trigger] post.spec_seen(p))
    &&& !post.spec_trump_broken()
    &&& post.spec_pending_nil() is None
    &&& forall|p: Player| !(#[trigger] post.spec_nil_rejected(p))
    &&& forall|p: Player| (#[trigger] post.spec_bid(p)) is None
    &&& forall|p: Player| #[trigger] post.spec_tricks(p) == 0
    &&& post.spec_trick().start() == pre.spec_dealer().spec_next().spec_next()
    &&& forall|p: Player| (#[trigger] post.spec_trick().play(p)) is None
}

/// The change a successfully played card causes: the card enters the live
/// trick and playing trump breaks trump.  A fourth card settles the trick:
/// its winner gains a trick and leads a fresh trick; the thirteenth settled
/// trick instead ends the round.
pub open spec fn spec_play_transition(
    pre: PublicState,
    post: PublicState,
    player: Player,
    card: Card,
) -> bool {
    let t1 = pre.spec_trick().spec_with_play(player, card);
    let broken1 = pre.spec_trump_broken() || card.suite == Suite::Spade;
    match t1.spec_status() {
        trick::Status::Waiting(_) => {
            &&& post.spec_trick() == t1
            &&& post.spec_trump_broken() == broken1
            &&& same_core(pre, post)
            &&& same_bids(pre, post)
            &&& same_seen(pre, post)
            &&& same_nil_rejected(pre, post)
            &&& same_tricks(pre, post)
        },
        trick::Status::Won(w, _) => {
            if pre.spec_total_tricks() + 1 == 13 {
                spec_round_end(pre, post, w)
            } else {
                &&& post.spec_tricks(w) == pre.spec_tricks(w) + 1
                &&& (forall|q: Player| q != w
                    ==> #[trigger] post.spec_tricks(q) == pre.spec_tricks(q))
                &&& post.spec_trick().start() == w
                &&& (forall|p: Player| (#[trigger] post.spec_trick().play(p)) is None)
                &&& post.spec_trump_broken() == broken1
                &&& same_core(pre, post)
                &&& same_bids(pre, post)
                &&& same_seen(pre, post)
                &&& same_nil_rejected(pre, post)
            }
        },
    }
}

impl Default for PublicState {
    /// A fresh game: zero scores, no history, player One dealing, nothing
    /// seen, trump intact, no pending or rejected nil, no bids, no tricks
    /// taken, and an empty trick led by the seat after the dealer.
    fn default() -> (r: Self)
        ensures
            r.wf(),
            r.spec_scores()[0].spec_tens() == 0 && r.spec_scores()[0].spec_extras() == 0,
            r.spec_scores()[1].spec_tens() == 0 && r.spec_scores()[1].spec_extras() == 0,
            r.spec_round_results().len() == 0,
            r.spec_dealer() == Player::One,
            forall|p: Player| !(#[trigger] r.spec_seen(p)),
            !r.spec_trump_broken(),
            r.spec_pending_nil() is None,
            forall|p: Player| !(#[trigger] r.spec_nil_rejected(p)),
            forall|p: Player| (#[trigger] r.spec_bid(p)) is None,
            forall|p: Player| #[trigger] r.spec_tricks(p) == 0,
            r.spec_trick().start() == Player::Two,
            forall|p: Player| (#[trigger] r.spec_trick().play(p)) is None,
            r.spec_status() == Status::WaitingForBid(Player::Two),
    {
        let r = Self {
            scores: [Score::default(), Score::default()],
            round_results: Vec::new(),
            dealer: Player::One,
            seen_cards: Array::from_value(&false),
            trump_broken: false,
            pending_nil_player: None,
            nil_rejected: Array::from_value(&false),
            bids: Array::from_value(&None),
            tricks_taken: Array::from_value(&0),
            trick: Trick::new(Player::Two),
        };
        r
    }
}

impl PublicState {
    /// Gets the score of both teams.
    pub fn get_scores(&self) -> (r: [Score; 2])
        ensures
            r == self.spec_scores(),
    {
        self.scores
    }

    /// Get the results of all completed rounds.
    pub fn get_round_results(&self) -> (r: &Vec<[TeamRoundResult; 2]>)
        ensures
            r@ == self.spec_round_results(),
    {
        &self.round_results
    }

    /// Gets if the user can see their cards.
    pub fn can_see_cards(&self, player: Player) -> (r: bool)
        ensures
            r == self.spec_seen(player),
    {
        self.seen_cards.get(player)
    }

    /// Gets if trump is broken.
    ///
    /// This means that a trump card was played in a previous trick.
    pub fn is_trump_broken(&self) -> (r: bool)
        ensures
            r == self.spec_trump_broken(),
    {
        self.trump_broken
    }

    /// Gets if a nil bid has been rejected this round,
    /// which prevents the player from bidding nil again this round.
    pub fn get_nil_rejected(&self, player: Player) -> (r: bool)
        ensures
            r == self.spec_nil_rejected(player),
    {
        self.nil_rejected.get(player)
    }

    /// Gets a player's bid, if it has been made.
    pub fn get_bid(&self, player: Player) -> (r: Option<Bid>)
        ensures
            r == self.spec_bid(player),
    {
        self.bids.get(player)
    }

    /// Gets the number of tricks that a player has taken this round.
    pub fn get_num_tricks(&self, player: Player) -> (r: u8)
        ensures
            r == self.spec_tricks(player),
    {
        self.tricks_taken.get(player)
    }

    /// Gets a copy of the current trick.
    pub fn get_trick(&self) -> (r: Trick)
        ensures
            r == self.spec_trick(),
    {
        self.trick
    }

    /// Gets the current status of this game.
    pub fn get_status(&self) -> (r: Status)
        requires
            self.wf(),
        ensures
            r == self.spec_status(),
    {
        if scoring::get_winning_team_index(self.get_scores()).is_some() {
            return Status::GameOver;
        }

        if let Some(bidding_nil) = self.pending_nil_player {
            return Status::WaitingForNilConfirmation(bidding_nil.teammate());
        }

        let b1 = self.dealer.next();
        let b2 = b1.next();
        let b3 = b2.next();
        let b4 = b3.next();
        if self.bids.get(b1).is_none() {
            return Status::WaitingForBid(b1);
        }
        if self.bids.get(b2).is_none() {
            return Status::WaitingForBid(b2);
        }
        if self.bids.get(b3).is_none() {
            return Status::WaitingForBid(b3);
        }
        if self.bids.get(b4).is_none() {
            return Status::WaitingForBid(b4);
        }

        match self.trick.get_status() {
            trick::Status::Waiting(player) => Status::WaitingForPlay(player),
            trick::Status::Won(_, _) => vstd::pervasive::unreached(),
        }
    }

    /// Internal function that gets the bids of every player or returns
    /// an error due to a missing bid.
    fn get_bids(&self) -> (r: Result<Array<Bid>, String>)
        ensures
            r is Ok <==> forall|p: Player| (#[trigger] self.spec_bid(p)) is Some,
            r matches Ok(bids) ==> forall|p: Player|
                Some(#[trigger] bids.spec_get(p)) == self.spec_bid(p),
    {
        let b1 = match self.bids.get(Player::One) {
            Some(b) => b,
            None => {
                proof { assert(self.spec_bid(Player::One) is None); }
                return Err("Internal error, missing bid".to_string());
            },
        };
        let b2 = match self.bids.get(Player::Two) {
            Some(b) => b,
            None => {
                proof { assert(self.spec_bid(Player::Two) is None); }
                return Err("Internal error, missing bid".to_string());
            },
        };
        let b3 = match self.bids.get(Player::Three) {
            Some(b) => b,
            None => {
                proof { assert(self.spec_bid(Player::Three) is None); }
                return Err("Internal error, missing bid".to_string());
            },
        };
        let b4 = match self.bids.get(Player::Four) {
            Some(b) => b,
            None => {
                proof { assert(self.spec_bid(Player::Four) is None); }
                return Err("Internal error, missing bid".to_string());
            },
        };
        let mut bids = Array::from_value(&b1);
        bids.set(Player::Two, b2);
        bids.set(Player::Three, b3);
        bids.set(Player::Four, b4);
        proof {
            assert forall|p: Player| (#[trigger] self.spec_bid(p)) is Some by {
                assert(p == Player::One || p == Player::Two || p == Player::Three
                    || p == Player::Four);
            }
            assert forall|p: Player| Some(#[trigger] bids.spec_get(p)) == self.spec_bid(p) by {
                assert(p == Player::One || p == Player::Two || p == Player::Three
                    || p == Player::Four);
            }
        }
        Ok(bids)
    }

    /// Internal function called after a card has been played: it settles a
    /// full trick and, after the thirteenth settled trick, scores and
    /// closes the round.
    fn after_card_played(&mut self) -> (r: Result<(), String>)
        requires
            old(self).spec_trick().wf(),
            forall|p: Player| bid_bounded(#[trigger] old(self).spec_bid(p)),
            forall|p: Player| 0 <= #[trigger] old(self).spec_tricks(p),
            old(self).spec_total_tricks() <= 12,
            old(self).spec_scores()[0].wf(),
            old(self).spec_scores()[1].wf(),
            old(self).spec_trick().spec_status() matches trick::Status::Won(_, _)
                ==> (forall|p: Player| (#[trigger] old(self).spec_bid(p)) is Some)
                    && old(self).spec_pending_nil() is None,
            old(self).spec_pending_nil() matches Some(p) ==> old(self).spec_bid(p) is None,
        ensures
            r is Ok,
            final(self).wf(),
            match old(self).spec_trick().spec_status() {
                trick::Status::Waiting(_) => state_eq(*old(self), *final(self)),
                trick::Status::Won(w, _) => {
                    if old(self).spec_total_tricks() + 1 == 13 {
                        spec_round_end(*old(self), *final(self), w)
                    } else {
                        &&& final(self).spec_tricks(w) == old(self).spec_tricks(w) + 1
                        &&& (forall|q: Player| q != w ==> #[trigger] final(self).spec_tricks(q)
                            == old(self).spec_tricks(q))
                        &&& final(self).spec_trick().start() == w
                        &&& (forall|p: Player|
                            (#[trigger] final(self).spec_trick().play(p)) is None)
                        &&& final(self).spec_trump_broken() == old(self).spec_trump_broken()
                        &&& same_core(*old(self), *final(self))
                        &&& same_bids(*old(self), *final(self))
                        &&& same_seen(*old(self), *final(self))
                        &&& same_nil_rejected(*old(self), *final(self))
                    }
                },
            },
    {
        if let trick::Status::Won(winning_player, _winning_card) = self.trick.get_status() {
            // handle the end of the trick
            let count = self.tricks_taken.get(winning_player);
            proof {
                assert(old(self).spec_tricks(winning_player) <= 12);
            }
            self.tricks_taken.set(winning_player, count + 1);
            self.trick = Trick::new(winning_player);
            proof {
                assert(forall|p: Player| p != winning_player
                    ==> #[trigger] self.spec_tricks(p) == old(self).spec_tricks(p));
                assert(self.spec_total_tricks() == old(self).spec_total_tricks() + 1);
                assert(forall|p: Player| #[trigger] self.spec_bid(p) == old(self).spec_bid(p));
            }

            let tricks_complete: u8 = self.tricks_taken.get(Player::One)
                + self.tricks_taken.get(Player::Two)
                + self.tricks_taken.get(Player::Three)
                + self.tricks_taken.get(Player::Four);
            if tricks_complete == 13 {
                // handle the end of the round
                let bids = match self.get_bids() {
                    Ok(bids) => bids,
                    Err(_e) => {
                        proof { assert(false); }
                        return vstd::pervasive::unreached();
                    },
                };
                let results = TeamRoundResult::create_pair(bids, self.tricks_taken);
                proof {
                    assert(spec_result_pair_ok(*old(self), winning_player, results));
                    assert(spec_num_tricks(results[0].bids[0]) <= 13
                        && spec_num_tricks(results[0].bids[1]) <= 13
                        && spec_num_tricks(results[1].bids[0]) <= 13
                        && spec_num_tricks(results[1].bids[1]) <= 13);
                    assert(spec_bid_value(results[0].bids[0], results[0].bids[1]) <= 255);
                    assert(spec_bid_value(results[1].bids[0], results[1].bids[1]) <= 255);
                }
                self.round_results.push(results);
                let mut s0 = self.scores[0];
                let mut s1 = self.scores[1];
                s0.add_score(results[0].get_score());
                s1.add_score(results[1].get_score());
                self.scores = [s0, s1];
                self.dealer = self.dealer.next();
                self.seen_cards.fill(&false);
                self.trump_broken = false;
                self.nil_rejected.fill(&false);
                self.bids.fill(&None);
                self.tricks_taken.fill(&0);
                self.trick = Trick::new(self.dealer.next());
                proof {
                    assert(self.spec_round_results() == old(self).spec_round_results()
                        .push(results));
                    assert(self.spec_round_results().last() == results);
                    assert(self.spec_total_tricks() == 0);
                    assert(spec_round_end(*old(self), *self, winning_player));
                    assert(self.wf());
                }
            } else {
                proof {
                    assert(self.spec_total_tricks() <= 12);
                    assert forall|p: Player| bid_bounded(#[trigger] self.spec_bid(p)) by {
                        assert(self.spec_bid(p) == old(self).spec_bid(p));
                    }
                    assert(self.wf());
                }
            }
        } else {
            proof {
                assert(state_eq(*old(self), *self));
                assert forall|p: Player| bid_bounded(#[trigger] self.spec_bid(p)) by {
                    assert(self.spec_bid(p) == old(self).spec_bid(p));
                }
                assert(self.wf());
            }
        }
        Ok(())
    }

    /// Call when a player plays a card and we have the player's hand
    /// available to ensure that it is valid for them to play the card.
    ///
    /// Will also remove the card from the hand on success.
    #[verifier::rlimit(80)]
    pub fn on_card_played(&mut self, player: Player, card: Card, hand: &mut CardSet)
        -> (r: Result<(), String>)
        requires
            old(self).wf(),
            card.wf(),
            old(hand).wf(),
        ensures
            final(self).wf(),
            final(hand).wf(),
            r is Ok <==> old(hand).spec_contains(card)
                && old(self).spec_status() == Status::WaitingForPlay(player)
                && old(self).spec_trick().spec_playable(*old(hand),
                    old(self).spec_trump_broken()).spec_contains(card),
            r is Err ==> state_eq(*old(self), *final(self)) && *final(hand) == *old(hand),
            r is Ok ==> spec_play_transition(*old(self), *final(self), player, card)
                && *final(hand) == old(hand).spec_remove(card),
    {
        if !hand.contains(card) {
            return Err("You can not play a card not in your hand.".to_string());
        }
        match self.get_status() {
            Status::WaitingForBid(_) | Status::WaitingForNilConfirmation(_) => {
                Err("Can not play a card, bidding is not complete.".to_string())
            },
            Status::GameOver => {
                Err("Can not play a card, the game is over.".to_string())
            },
            Status::WaitingForPlay(waiting) => {
                proof {
                    lemma_play_status_facts(*old(self), waiting);
                }
                // attempt to play the card
                if !self.trick.get_playable_cards(*hand, self.trump_broken).contains(card) {
                    return Err("Can not play the given card.".to_string());
                }
                match self.trick.play_card(player, card) {
                    Ok(()) => {},
                    Err(e) => { return Err(e); },
                }
                if card.suite == Suite::Spade {
                    self.trump_broken = true;
                }
                hand.remove(card);
                let ghost mid = *self;
                let r = self.after_card_played();
                proof {
                    lemma_play_bridge(*old(self), mid, *self, player, card);
                }
                r
            },
        }
    }

    /// Call when a player plays a card and we don't have their
    /// hand to validate if they can play the card they played.
    #[verifier::rlimit(80)]
    pub fn unchecked_on_card_played(&mut self, player: Player, card: Card)
        -> (r: Result<(), String>)
        requires
            old(self).wf(),
            card.wf(),
        ensures
            final(self).wf(),
            r is Ok <==> old(self).spec_status() == Status::WaitingForPlay(player),
            r is Err ==> state_eq(*old(self), *final(self)),
            r is Ok ==> spec_play_transition(*old(self), *final(self), player, card),
    {
        match self.get_status() {
            Status::WaitingForBid(_) | Status::WaitingForNilConfirmation(_) => {
                Err("Can not play a card, bidding is not complete.".to_string())
            },
            Status::GameOver => {
                Err("Can not play a card, the game is over.".to_string())
            },
            Status::WaitingForPlay(waiting) => {
                proof {
                    lemma_play_status_facts(*old(self), waiting);
                }
                match self.trick.play_card(player, card) {
                    Ok(()) => {},
                    Err(e) => { return Err(e); },
                }
                if card.suite == Suite::Spade {
                    self.trump_broken = true;
                }
                let ghost mid = *self;
                let r = self.after_card_played();
                proof {
                    lemma_play_bridge(*old(self), mid, *self, player, card);
                }
                r
            },
        }
    }

    /// Handles a player making their bid.  A nil bid is not settled at once:
    /// it awaits the partner's confirmation.  Any other accepted bid settles
    /// immediately.
    pub fn on_bid(&mut self, player: Player, bid: Bid) -> (r: Result<(), String>)
        requires
            old(self).wf(),
        ensures
            final(self).wf(),
            r is Ok <==> old(self).spec_can_bid(player, bid),
            r is Err ==> state_eq(*old(self), *final(self)),
            r is Ok ==> same_core_but_pending(*old(self), *final(self))
                && same_seen(*old(self), *final(self))
                && same_nil_rejected(*old(self), *final(self))
                && same_tricks(*old(self), *final(self))
                && final(self).spec_trump_broken() == old(self).spec_trump_broken()
                && final(self).spec_trick() == old(self).spec_trick()
                && (bid == Bid::Nil ==> final(self).spec_pending_nil() == Some(player)
                    && same_bids(*old(self), *final(self)))
                && (bid != Bid::Nil
                    ==> final(self).spec_pending_nil() == old(self).spec_pending_nil()
                    && final(self).spec_bid(player) == Some(bid)
                    && (forall|q: Player| q != player
                        ==> #[trigger] final(self).spec_bid(q) == old(self).spec_bid(q))),
    {
        if !matches!(self.get_status(), Status::WaitingForBid(p) if p == player) {
            return Err("It is not your turn to bid.".to_string());
        }
        if bid == Bid::BlindNil && self.seen_cards.get(player) {
            return Err("Can not bid blind nil as you have seen your cards.".to_string());
        }
        if let Some(bid_error) = bid.get_compatibility_error(self.bids.get(player.teammate())) {
            return Err(bid_error.to_string());
        }

        if bid == Bid::Nil {
            if self.nil_rejected.get(player) {
                return Err(
                    "You can not bid nil if your partner has already rejected your nil bid this bidding round.".to_string(),
                );
            }
            self.pending_nil_player = Some(player);
            proof {
                assert(forall|p: Player| #[trigger] self.spec_bid(p) == old(self).spec_bid(p));
                assert(forall|p: Player|
                    #[trigger] self.spec_tricks(p) == old(self).spec_tricks(p));
                assert forall|p: Player| bid_bounded(#[trigger] self.spec_bid(p)) by {
                    assert(self.spec_bid(p) == old(self).spec_bid(p));
                }
                assert(self.spec_total_tricks() == old(self).spec_total_tricks());
                // it was this player's turn to bid, so their slot is empty
                // and may carry the pending nil
                assert(old(self).spec_bid(player) is None);
                assert(self.wf());
            }
        } else {
            self.bids.set(player, Some(bid));
            proof {
                assert forall|p: Player| bid_bounded(#[trigger] self.spec_bid(p)) by {
                    if p != player {
                        assert(self.spec_bid(p) == old(self).spec_bid(p));
                    }
                }
                assert(forall|p: Player|
                    #[trigger] self.spec_tricks(p) == old(self).spec_tricks(p));
                assert(self.spec_total_tricks() == old(self).spec_total_tricks());
                // no nil can be pending while it is someone's turn to bid
                assert(old(self).spec_pending_nil() is None);
            }
        }
        Ok(())
    }

    /// Makes an observably equal copy of this state.
    pub(crate) fn duplicate(&self) -> (r: Self)
        ensures
            state_eq(*self, r),
            self.wf() ==> r.wf(),
    {
        let mut results: Vec<[TeamRoundResult; 2]> = Vec::new();
        let mut i: usize = 0;
        while i < self.round_results.len()
            invariant
                i <= self.round_results.len(),
                results@ == self.round_results@.subrange(0, i as int),
            decreases self.round_results.len() - i,
        {
            results.push(self.round_results[i]);
            proof {
                assert(results@ =~= self.round_results@.subrange(0, i + 1));
            }
            i += 1;
        }
        proof {
            assert(results@ =~= self.round_results@);
        }
        let r = PublicState {
            scores: self.scores,
            round_results: results,
            dealer: self.dealer,
            seen_cards: self.seen_cards,
            trump_broken: self.trump_broken,
            pending_nil_player: self.pending_nil_player,
            nil_rejected: self.nil_rejected,
            bids: self.bids,
            tricks_taken: self.tricks_taken,
            trick: self.trick,
        };
        proof {
            if self.wf() {
                lemma_wf_frame(*self, r);
            }
        }
        r
    }

    /// Handles a player wishing to see their cards, forfeiting
    /// their right to bid blind nil.
    pub fn on_cards_seen(&mut self, player: Player)
        requires
            old(self).wf(),
        ensures
            final(self).wf(),
            final(self).spec_seen(player),
            forall|q: Player| q != player
                ==> #[trigger] final(self).spec_seen(q) == old(self).spec_seen(q),
            same_core(*old(self), *final(self)),
            same_bids(*old(self), *final(self)),
            same_nil_rejected(*old(self), *final(self)),
            same_tricks(*old(self), *final(self)),
            final(self).spec_trump_broken() == old(self).spec_trump_broken(),
            final(self).spec_trick() == old(self).spec_trick(),
    {
        self.seen_cards.set(player, true);
        proof {
            assert(forall|p: Player| #[trigger] self.spec_bid(p) == old(self).spec_bid(p));
            assert(forall|p: Player| #[trigger] self.spec_tricks(p) == old(self).spec_tricks(p));
            lemma_wf_frame(*old(self), *self);
        }
    }

    /// Handles a player indicating if they approve of their teammate's nil
    /// bid.  Approval settles the bid as nil; rejection marks the bidder as
    /// blocked from nil for the round and reopens their bid.
    pub fn on_nil_approval(&mut self, player: Player, is_approved: bool)
        -> (r: Result<(), String>)
        requires
            old(self).wf(),
        ensures
            final(self).wf(),
            r is Ok <==> (old(self).spec_pending_nil() matches Some(bidding_nil)
                && bidding_nil.spec_teammate() == player),
            r is Err ==> state_eq(*old(self), *final(self)),
            r is Ok ==> {
                let bidding_nil = old(self).spec_pending_nil()->Some_0;
                &&& final(self).spec_pending_nil() is None
                &&& final(self).spec_scores() == old(self).spec_scores()
                &&& final(self).spec_round_results() == old(self).spec_round_results()
                &&& final(self).spec_dealer() == old(self).spec_dealer()
                &&& same_seen(*old(self), *final(self))
                &&& same_tricks(*old(self), *final(self))
                &&& final(self).spec_trump_broken() == old(self).spec_trump_broken()
                &&& final(self).spec_trick() == old(self).spec_trick()
                &&& (is_approved ==> final(self).spec_bid(bidding_nil) == Some(Bid::Nil)
                    && (forall|q: Player| q != bidding_nil
                        ==> #[trigger] final(self).spec_bid(q) == old(self).spec_bid(q))
                    && same_nil_rejected(*old(self), *final(self)))
                &&& (!is_approved ==> final(self).spec_nil_rejected(bidding_nil)
                    && (forall|q: Player| q != bidding_nil
                        ==> #[trigger] final(self).spec_nil_rejected(q)
                            == old(self).spec_nil_rejected(q))
                    && same_bids(*old(self), *final(self)))
            },
    {
        if let Some(bidding_nil) = self.pending_nil_player {
            if bidding_nil.teammate() == player {
                if is_approved {
                    self.bids.set(bidding_nil, Some(Bid::Nil));
                } else {
                    self.nil_rejected.set(bidding_nil, true);
                }
                self.pending_nil_player = None;
                proof {
                    assert forall|p: Player| bid_bounded(#[trigger] self.spec_bid(p)) by {
                        if p != bidding_nil {
                            assert(self.spec_bid(p) == old(self).spec_bid(p));
                        }
                    }
                    assert(forall|p: Player|
                        #[trigger] self.spec_tricks(p) == old(self).spec_tricks(p));
                    assert(self.spec_total_tricks() == old(self).spec_total_tricks());
                }
                Ok(())
            } else {
                Err("Can not confirm a nil bid, your teammate does not have a nil bid pending.".to_string())
            }
        } else {
            Err("Can not confirm a nil bid, no one has a nil bid pending.".to_string())
        }
    }
}

/// Both states hold the same scores, history, and dealer; the pending nil
/// may differ.
pub open spec fn same_core_but_pending(a: PublicState, b: PublicState) -> bool {
    &&& b.spec_scores() == a.spec_scores()
    &&& b.spec_round_results() == a.spec_round_results()
    &&& b.spec_dealer() == a.spec_dealer()
}

/// Every player stands within four seats of any starting seat.
proof fn lemma_all_players_covered(d: Player, p: Player)
    ensures
        p == d.spec_next() || p == d.spec_next().spec_next()
            || p == d.spec_next().spec_next().spec_next()
            || p == d.spec_next().spec_next().spec_next().spec_next(),
{
}

/// A state waiting for a play has every bid settled, no pending nil, and,
/// when well formed, a live trick waiting on that very player.
proof fn lemma_play_status_facts(s: PublicState, player: Player)
    requires
        s.spec_status() == Status::WaitingForPlay(player),
    ensures
        forall|p: Player| (#[trigger] s.spec_bid(p)) is Some,
        s.spec_pending_nil() is None,
        s.wf() ==> s.spec_trick().spec_status() == trick::Status::Waiting(player),
{
    let b1 = s.spec_dealer().spec_next();
    let b2 = b1.spec_next();
    let b3 = b2.spec_next();
    let b4 = b3.spec_next();
    assert(s.spec_bid(b1) is Some && s.spec_bid(b2) is Some && s.spec_bid(b3) is Some
        && s.spec_bid(b4) is Some);
    assert forall|p: Player| (#[trigger] s.spec_bid(p)) is Some by {
        lemma_all_players_covered(s.spec_dealer(), p);
    }
}

/// A state whose trick, bids, trick counts, and scores match a well-formed
/// state is itself well formed.
proof fn lemma_wf_frame(a: PublicState, b: PublicState)
    requires
        a.wf(),
        b.spec_trick() == a.spec_trick(),
        forall|p: Player| #[trigger] b.spec_bid(p) == a.spec_bid(p),
        forall|p: Player| #[trigger] b.spec_tricks(p) == a.spec_tricks(p),
        b.spec_scores() == a.spec_scores(),
        b.spec_pending_nil() == a.spec_pending_nil(),
    ensures
        b.wf(),
{
    if let Some(p) = b.spec_pending_nil() {
        assert(b.spec_bid(p) == a.spec_bid(p));
    }
    assert forall|p: Player| bid_bounded(#[trigger] b.spec_bid(p)) by {
        assert(b.spec_bid(p) == a.spec_bid(p));
    }
    assert forall|p: Player| 0 <= #[trigger] b.spec_tricks(p) by {
        assert(b.spec_tricks(p) == a.spec_tricks(p));
    }
    assert(b.spec_total_tricks() == a.spec_total_tricks());
}

/// Bridges the two steps of a play: once the card has entered the trick and
/// broken trump where due, settling the trick as `after_card_played`
/// promises yields the full play transition.
#[verifier::rlimit(60)]
proof fn lemma_play_bridge(
    pre: PublicState,
    mid: PublicState,
    post: PublicState,
    player: Player,
    card: Card,
)
    requires
        mid.spec_trick() == pre.spec_trick().spec_with_play(player, card),
        mid.spec_trump_broken() == (pre.spec_trump_broken() || card.suite == Suite::Spade),
        same_core(pre, mid),
        same_bids(pre, mid),
        same_seen(pre, mid),
        same_nil_rejected(pre, mid),
        same_tricks(pre, mid),
        match mid.spec_trick().spec_status() {
            trick::Status::Waiting(_) => state_eq(mid, post),
            trick::Status::Won(w, _) => {
                if mid.spec_total_tricks() + 1 == 13 {
                    spec_round_end(mid, post, w)
                } else {
                    &&& post.spec_tricks(w) == mid.spec_tricks(w) + 1
                    &&& (forall|q: Player| q != w ==> #[trigger] post.spec_tricks(q)
                        == mid.spec_tricks(q))
                    &&& post.spec_trick().start() == w
                    &&& (forall|p: Player| (#[trigger] post.spec_trick().play(p)) is None)
                    &&& post.spec_trump_broken() == mid.spec_trump_broken()
                    &&& same_core(mid, post)
                    &&& same_bids(mid, post)
                    &&& same_seen(mid, post)
                    &&& same_nil_rejected(mid, post)
                }
            },
        },
    ensures
        spec_play_transition(pre, post, player, card),
{
    let t1 = pre.spec_trick().spec_with_play(player, card);
    assert(mid.spec_total_tricks() == pre.spec_total_tricks());
    match t1.spec_status() {
        trick::Status::Waiting(_) => {
            assert(same_core(pre, post));
            assert forall|p: Player| #[trigger] post.spec_bid(p) == pre.spec_bid(p) by {
                assert(post.spec_bid(p) == mid.spec_bid(p));
            }
            assert forall|p: Player| #[trigger] post.spec_seen(p) == pre.spec_seen(p) by {
                assert(post.spec_seen(p) == mid.spec_seen(p));
            }
            assert forall|p: Player|
                #[trigger] post.spec_nil_rejected(p) == pre.spec_nil_rejected(p) by {
                assert(post.spec_nil_rejected(p) == mid.spec_nil_rejected(p));
            }
            assert forall|p: Player| #[trigger] post.spec_tricks(p) == pre.spec_tricks(p) by {
                assert(post.spec_tricks(p) == mid.spec_tricks(p));
            }
        },
        trick::Status::Won(w, _) => {
            if pre.spec_total_tricks() + 1 == 13 {
                assert(spec_round_end(mid, post, w));
                assert forall|i: int| 0 <= i < pre.spec_round_results().len()
                    implies #[trigger] post.spec_round_results()[i]
                        == pre.spec_round_results()[i] by {
                }
                assert(spec_result_pair_ok(pre, w, post.spec_round_results().last()));
                assert(spec_round_end(pre, post, w));
            } else {
                assert forall|q: Player| q != w implies #[trigger] post.spec_tricks(q)
                    == pre.spec_tricks(q) by {
                    assert(post.spec_tricks(q) == mid.spec_tricks(q));
                }
                assert(same_core(pre, post));
                assert forall|p: Player| #[trigger] post.spec_bid(p) == pre.spec_bid(p) by {
                    assert(post.spec_bid(p) == mid.spec_bid(p));
                }
                assert forall|p: Player| #[trigger] post.spec_seen(p) == pre.spec_seen(p) by {
                    assert(post.spec_seen(p) == mid.spec_seen(p));
                }
                assert forall|p: Player|
                    #[trigger] post.spec_nil_rejected(p) == pre.spec_nil_rejected(p) by {
                    assert(post.spec_nil_rejected(p) == mid.spec_nil_rejected(p));
                }
            }
        },
    }
}

/// A player may never bid a nil kind while their partner's settled bid is a
/// nil kind.
pub proof fn lemma_double_nil_blocked(s: PublicState, player: Player, bid: Bid)
    requires
        scoring::spec_is_any_nil(bid),
        s.spec_bid(player.spec_teammate()) matches Some(t) && scoring::spec_is_any_nil(t),
    ensures
        !s.spec_can_bid(player, bid),
{
}

/// After a rejected nil, nil stays blocked for the round, while blind nil
/// stays possible exactly while the player has not seen their cards and the
/// other bidding rules allow it.
pub proof fn lemma_nil_reattempt(s: PublicState, player: Player)
    requires
        s.spec_nil_rejected(player),
    ensures
        !s.spec_can_bid(player, Bid::Nil),
        s.spec_status() == Status::WaitingForBid(player) && !s.spec_seen(player)
            && spec_compat(Bid::BlindNil, s.spec_bid(player.spec_teammate()))
            ==> s.spec_can_bid(player, Bid::BlindNil),
{
}

} // verus!
