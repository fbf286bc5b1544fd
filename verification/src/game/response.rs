//! The message a server sends back to the client that raised an event.

use vstd::prelude::*;
use crate::card_set::CardSet;

verus! {

/// Sent from a server to a client in response to a `Event` being sent
/// by a client.
#[derive(Debug, Clone)]
pub enum Response {
    /// Response to every event except for SeeCards when no error occurs.
    Accepted,
    /// Response to the SeeCards event when no error occurs.
    Cards(CardSet),
    /// Response to any event when an error occurs.
    Rejected(String),
}

} // verus!
