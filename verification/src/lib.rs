//! A Minecraft pearl bot's decision logic: chat parsing, commands, stasis chambers,
//! modules and loggers, each stated and proved against a contract.
use vstd::prelude::*;

pub mod chat;
pub mod chambers;
pub mod command;
pub mod chat_format;
pub mod commands;
pub mod discord;
pub mod event;
pub mod events;
pub mod maps;
pub mod minecraft;
pub mod modules;
pub mod ncr;
pub mod packets;
pub mod patterns;
pub mod settings;
pub mod swarm;
pub mod text;
pub mod version;

verus! {

} // verus!
