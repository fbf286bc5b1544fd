//! A rules engine for a four-player trick-taking card game (a Spades variant
//! with a minimum team bid of four, a bonus for bidding ten or more, and nil
//! bids that fail when the partnership under-tricks).

pub mod card;
pub use card::Card;

pub mod card_set;
pub use card_set::CardSet;

pub mod player;
pub use player::Player;

pub mod scoring;
pub use scoring::{Bid, Score, TeamRoundResult};

pub mod trick;
pub use trick::Trick;

pub mod game;
