//! A self-operated chat automation agent: an event-loop dispatcher that
//! classifies incoming messages, a command handler for a fixed vocabulary of
//! prefix commands, and a durable per-channel filter store that rewrites
//! foreign messages containing a registered trigger substring.

pub mod bot;
pub mod error;
pub mod filters;
pub mod text;

pub use error::{UserBotError, UserBotErrorKind};
