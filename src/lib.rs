//! A chatbot library for a pipe-delimited, line-oriented chat protocol:
//! parsing of server lines into events, a cache of rooms and users, command
//! matchers for plugins and a cooldown/ban policy for rate-limited commands.

pub mod bot;
pub mod command;
pub mod config;
pub mod cooldown;
pub mod error;
pub mod helpers;
pub mod message;
pub mod plugin;
pub mod session;
pub mod table;
pub mod target;
pub mod text;

pub use self::bot::Bot;
pub use self::config::Config;
pub use self::error::{Error, Result};
pub use self::message::Message;
pub use self::plugin::Plugin;
