//! Actions that a player can perform that change a game's state.

use vstd::prelude::*;
use crate::card::Card;
use crate::scoring::Bid;

verus! {

/// Actions that a player can perform that changes a game's state.
#[derive(Debug, Copy, Clone, Eq, PartialEq, Structural)]
pub enum Event {
    /// A player wishes to see their cards, forfeiting their right to bid
    /// blind nil if they have not already done so.
    SeeCards,
    /// A player makes a bid.
    /// May be blind nil only if the player has not yet seen their cards.
    /// If the bid is a regular nil then it requires confirmation by
    /// their teammate.
    MakeBid(Bid),
    /// A player approves or disproves of their partner bidding nil.
    ApprovesNil(bool),
    /// A player plays a card.
    PlayCard(Card),
}

/// An event is well formed when any card it carries is.
pub open spec fn event_wf(e: Event) -> bool {
    match e {
        Event::PlayCard(c) => c.wf(),
        _ => true,
    }
}

} // verus!
