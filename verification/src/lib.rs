//! Decision logic of a Discord moderation bot: a bad-language filter, a counter of
//! command invocations, an editable "about" text, the "admin" role check for admin
//! commands, and the step function that drives the removal of a member.
//!
//! Everything that talks to Discord (the gateway, HTTP calls, locks around shared
//! state) lives in the application around this library; the library computes
//! what the bot says and decides.

#![allow(deprecated)]

pub mod text;
pub mod discord;
pub mod language;
pub mod counter;
pub mod about;
pub mod access;
pub mod commands;
pub mod kick;

