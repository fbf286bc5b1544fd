//! Contains the `Trick` struct and related `Status` enum.

use vstd::prelude::*;
use crate::card::{Card, Suite};
use crate::card_set::CardSet;
use crate::player::{Array, Player};

verus! {

/// Contains all of the currently played cards and the starting player.
#[derive(Debug, Copy, Clone, Eq, PartialEq)]
pub struct Trick {
    start_player: Player,
    cards: Array<Option<Card>>,
}

/// The status of the trick.
#[derive(Debug, Copy, Clone, Eq, PartialEq)]
pub enum Status {
    /// The trick is waiting for a player to play a card.
    Waiting(Player),
    /// The trick has ended and a player has won it with a card.
    Won(Player, Card),
}

/// Whether a later card beats the running best card of a trick: it must
/// either follow the best card's suite with a higher value, or be trump
/// while the best card is not.
pub open spec fn spec_beats(challenger: Card, best: Card) -> bool {
    ||| challenger.suite == best.suite && challenger.value.idx() > best.value.idx()
    ||| challenger.suite == Suite::Spade && best.suite != Suite::Spade
}

impl Trick {
    /// The player who leads this trick.
    pub closed spec fn start(self) -> Player {
        self.start_player
    }

    /// The card a player has played into this trick, if any.
    pub closed spec fn play(self, p: Player) -> Option<Card> {
        self.cards.spec_get(p)
    }

    /// A trick is well formed when every played card is well formed.
    pub open spec fn wf(self) -> bool {
        forall|p: Player| (#[trigger] self.play(p)) matches Some(c) ==> c.wf()
    }

    /// The winning (player, card) pair of a fully played trick: scanning the
    /// plays in rotation order from the leader, a later play replaces the
    /// running best exactly when it beats it.
    pub open spec fn spec_winner(self) -> (Player, Card)
        recommends
            forall|p: Player| self.play(p) is Some,
    {
        let p0 = self.start();
        let p1 = p0.spec_next();
        let p2 = p1.spec_next();
        let p3 = p2.spec_next();
        let w0 = (p0, self.play(p0)->Some_0);
        let w1 = if spec_beats(self.play(p1)->Some_0, w0.1) { (p1, self.play(p1)->Some_0) } else { w0 };
        let w2 = if spec_beats(self.play(p2)->Some_0, w1.1) { (p2, self.play(p2)->Some_0) } else { w1 };
        if spec_beats(self.play(p3)->Some_0, w2.1) { (p3, self.play(p3)->Some_0) } else { w2 }
    }

    /// The status of this trick: waiting on the first player in rotation
    /// order from the leader without a play, or won once all four have
    /// played.
    pub open spec fn spec_status(self) -> Status {
        let p0 = self.start();
        let p1 = p0.spec_next();
        let p2 = p1.spec_next();
        let p3 = p2.spec_next();
        if self.play(p0) is None {
            Status::Waiting(p0)
        } else if self.play(p1) is None {
            Status::Waiting(p1)
        } else if self.play(p2) is None {
            Status::Waiting(p2)
        } else if self.play(p3) is None {
            Status::Waiting(p3)
        } else {
            Status::Won(self.spec_winner().0, self.spec_winner().1)
        }
    }

    /// The suite of the leader's card, if the trick has started.
    pub open spec fn spec_suite(self) -> Option<Suite> {
        match self.play(self.start()) {
            Some(c) => Some(c.suite),
            None => None,
        }
    }

    /// This trick with one player's play replaced by a card.
    pub closed spec fn spec_with_play(self, player: Player, card: Card) -> Trick {
        Trick { start_player: self.start_player, cards: self.cards.spec_set(player, Some(card)) }
    }

    /// The empty trick led by a player.
    pub closed spec fn spec_new(start_player: Player) -> Trick {
        Trick { start_player, cards: Array::from_spec_value(None) }
    }

    /// Creates a new trick from the starting player.
    pub fn new(start_player: Player) -> (r: Self)
        ensures
            r == Trick::spec_new(start_player),
            r.wf(),
            r.start() == start_player,
            forall|p: Player| r.play(p) is None,
            r.spec_status() == Status::Waiting(start_player),
    {
        proof {
            lemma_trick_new(start_player);
        }
        Self {
            start_player,
            cards: Array::from_value(&None),
        }
    }

    /// Gets the status of this trick.
    pub fn get_status(&self) -> (r: Status)
        requires
            self.wf(),
        ensures
            r == self.spec_status(),
    {
        // see if we are waiting for a card to be played
        let p0 = self.start_player;
        let p1 = p0.next();
        let p2 = p1.next();
        let p3 = p2.next();
        let c0 = match self.cards.get(p0) {
            Some(c) => c,
            None => { return Status::Waiting(p0); },
        };
        let c1 = match self.cards.get(p1) {
            Some(c) => c,
            None => { return Status::Waiting(p1); },
        };
        let c2 = match self.cards.get(p2) {
            Some(c) => c,
            None => { return Status::Waiting(p2); },
        };
        let c3 = match self.cards.get(p3) {
            Some(c) => c,
            None => { return Status::Waiting(p3); },
        };
        // find the winner
        let mut winner = (p0, c0);
        if Self::beats(c1, winner.1) {
            winner = (p1, c1);
        }
        if Self::beats(c2, winner.1) {
            winner = (p2, c2);
        }
        if Self::beats(c3, winner.1) {
            winner = (p3, c3);
        }
        Status::Won(winner.0, winner.1)
    }

    /// Whether a challenger card beats the running best card.
    fn beats(challenger: Card, best: Card) -> (r: bool)
        requires
            challenger.wf(),
            best.wf(),
        ensures
            r == spec_beats(challenger, best),
    {
        if challenger.suite == best.suite {
            challenger.value.to_index() > best.value.to_index()
        } else {
            challenger.suite == Suite::Spade
        }
    }

    /// Gets the suite that lead this trick.
    /// If no cards have been played returns None.
    pub fn get_suite(&self) -> (r: Option<Suite>)
        ensures
            r == self.spec_suite(),
    {
        match self.cards.get(self.start_player) {
            Some(card) => Some(card.suite),
            None => None,
        }
    }

    /// Gets the card played by a player.
    pub fn get_card(&self, player: Player) -> (r: Option<Card>)
        ensures
            r == self.play(player),
    {
        self.cards.get(player)
    }

    /// Attempts to play a card as a player.
    /// Checks that it is actually this player's turn.
    pub fn play_card(&mut self, player: Player, card: Card) -> (r: Result<(), String>)
        requires
            old(self).wf(),
            card.wf(),
        ensures
            final(self).wf(),
            r is Ok <==> old(self).spec_status() == Status::Waiting(player),
            r is Err ==> *final(self) == *old(self),
            r is Ok ==> *final(self) == old(self).spec_with_play(player, card)
                && final(self).start() == old(self).start()
                && final(self).play(player) == Some(card)
                && (forall|q: Player| q != player ==> final(self).play(q) == old(self).play(q)),
    {
        match self.get_status() {
            Status::Won(_, _) => {
                Err("Can not play a card into a trick that is already won.".to_string())
            },
            Status::Waiting(expected_player) => {
                if expected_player != player {
                    Err("Can not play a card when it is not your turn".to_string())
                } else {
                    self.cards.set(player, Some(card));
                    Ok(())
                }
            },
        }
    }

    /// The set of cards a player holding `hand` may play into this trick.
    ///
    /// With a lead suite: the hand's cards of that suite, or the whole hand
    /// when it has none.  Leading: the whole hand when trump is broken or
    /// only trump is held, and otherwise the hand without its trump cards.
    pub open spec fn spec_playable(self, hand: CardSet, is_trump_broken: bool) -> CardSet {
        match self.spec_suite() {
            Some(suite) => {
                let same_suite = hand.spec_inter(CardSet::spec_suite_set(suite));
                if same_suite.spec_is_empty() {
                    hand
                } else {
                    same_suite
                }
            },
            None => {
                let non_spades = hand.spec_diff(CardSet::spec_suite_set(Suite::Spade));
                if is_trump_broken || non_spades.spec_is_empty() {
                    hand
                } else {
                    non_spades
                }
            },
        }
    }

    /// Takes a player's hand and returns all cards that the
    /// player may play assuming that it is currently their turn.
    pub fn get_playable_cards(&self, hand: CardSet, is_trump_broken: bool) -> (r: CardSet)
        requires
            hand.wf(),
        ensures
            r == self.spec_playable(hand, is_trump_broken),
            r.wf(),
            self.spec_suite() matches Some(suite) ==> {
                let same_suite = hand.spec_inter(CardSet::spec_suite_set(suite));
                r == if same_suite.spec_is_empty() { hand } else { same_suite }
            },
            self.spec_suite() is None ==> {
                let non_spades = hand.spec_diff(CardSet::spec_suite_set(Suite::Spade));
                r == if is_trump_broken || non_spades.spec_is_empty() { hand } else { non_spades }
            },
    {
        if let Some(suite) = self.get_suite() {
            let same_suite = hand.intersection(CardSet::suite(suite));
            if same_suite.is_empty() {
                // can not follow suite, may play any card
                hand
            } else {
                // must follow suite
                same_suite
            }
        } else {
            // lead player
            let non_spades = hand.difference(CardSet::suite(Suite::Spade));
            if is_trump_broken || non_spades.is_empty() {
                // can lead any card, including trump cards
                hand
            } else {
                // can only lead with non-trump cards
                non_spades
            }
        }
    }
}

/// What playing a card into a trick leaves in each slot.
pub proof fn lemma_trick_with_play(t: Trick, player: Player, card: Card)
    ensures
        t.spec_with_play(player, card).start() == t.start(),
        t.spec_with_play(player, card).play(player) == Some(card),
        forall|q: Player| q != player ==> t.spec_with_play(player, card).play(q) == t.play(q),
        t.wf() && card.wf() ==> t.spec_with_play(player, card).wf(),
{
    crate::player::lemma_array_set(t.cards, player, Some(card));
    if t.wf() && card.wf() {
        let w = t.spec_with_play(player, card);
        assert(forall|q: Player| q != player ==> #[trigger] w.play(q) == t.play(q));
        assert(w.play(player) == Some(card));
        assert(w.wf());
    }
}

/// The empty trick led by a player waits on that player and holds no play.
pub proof fn lemma_trick_new(start_player: Player)
    ensures
        Trick::spec_new(start_player).wf(),
        Trick::spec_new(start_player).start() == start_player,
        forall|p: Player| Trick::spec_new(start_player).play(p) is None,
        Trick::spec_new(start_player).spec_status() == Status::Waiting(start_player),
{
    crate::player::lemma_array_from_value::<Option<Card>>(None);
}

} // verus!
