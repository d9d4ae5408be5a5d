//! Core of a chat bot that relays conversations to a chat-completion API.
//!
//! - `chunk`: splits long replies into pieces that fit a message-size limit.
//! - `driver`: the response loop's decisions, as a state machine.
//! - `conversation`: messages, requests, and the conversation built from a
//!   channel's history.
//! - `bot`: the message handler's decisions and reply layout.
//! - `language`, `summary`, `age`: the texts of the slash commands.
//! - `text`: string helpers and the calls into std and regex they rest on.

pub mod age;
pub mod bot;
pub mod chunk;
pub mod conversation;
pub mod driver;
pub mod language;
pub mod summary;
pub mod text;
