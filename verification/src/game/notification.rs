//! The message a server broadcasts after it accepts a player's event.

use vstd::prelude::*;
use super::Event;
use crate::player::Player;

verus! {

/// When a client performs some action it sends a `game::Event` to the server.
/// If the server determines the action is valid it sends this notification
/// to all other clients so that they may update their `game::View`.
#[derive(Debug, Clone, Copy)]
pub struct Notification {
    /// The player whose action caused the event.
    pub player: Player,
    /// The event.
    pub event: Event,
}

} // verus!
