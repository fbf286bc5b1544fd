//! The actions a player may ask their view of the game to perform.

use vstd::prelude::*;
use crate::card::Card;
use crate::scoring::Bid;

verus! {

/// Contains all of the possible actions for a player to perform.
#[derive(Hash, Eq, PartialEq, Copy, Clone, Debug, Structural)]
pub enum Action {
    /// Do nothing.  Waiting for another player to perform an action.
    Wait,
    /// See the player's cards.
    SeeCards,
    /// Permit the player's partner to bid nil.
    AllowNil,
    /// Reject the player's partner nil bid.
    RejectNil,
    /// Make a bid.
    MakeBid(Bid),
    /// Play a card.
    PlayCard(Card),
}

/// An action is well formed when any card it carries is.
pub open spec fn action_wf(a: Action) -> bool {
    match a {
        Action::PlayCard(c) => c.wf(),
        _ => true,
    }
}

} // verus!
