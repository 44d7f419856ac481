//! Real-time message engine of a chat bot.
//!
//! The engine decides, for every inbound chat message, whether to rate-limit
//! a reply, run a moderation action, or route the message to a command
//! handler.  All decisions are made by verified functions over plain data;
//! the surrounding process (network transport, timers, threads) drives them
//! from outside the library.

pub mod bad_word;
pub mod command;
pub mod config;
pub mod features;
pub mod loops;
pub mod message;
pub mod moderation;
pub mod player;
pub mod ratelimit;
pub mod remote;
pub mod router;
pub mod sender;
pub mod song;
pub mod status;
pub mod stores;
pub mod table;
pub mod template;
pub mod text;
pub mod tokens;
