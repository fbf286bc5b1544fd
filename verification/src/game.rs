//! Contains types that contain and manipulate the state of the game.
//!
//! The entirety of the game's state is held in [`State`].  A single player's
//! view of the game is held in a [`View`].  A client manipulates the game
//! through [`Action`]s; accepted actions raise [`Event`]s that the server
//! answers with a [`Response`] and broadcasts to the other clients as
//! [`Notification`]s.

pub mod action;
pub use action::Action;

pub mod dealer;

pub mod event;
pub use event::Event;

pub mod notification;
pub use notification::Notification;

pub mod public_state;
pub use public_state::PublicState;

pub mod response;
pub use response::Response;

pub mod state;
pub use state::State;

pub mod status;
pub use status::Status;

pub mod view;
pub use view::View;
