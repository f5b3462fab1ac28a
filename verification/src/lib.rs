//! A QQ bot client: the request shapes, message planning, streaming state and
//! gateway session decisions of the bot, with the network left to the caller.

pub mod text;
pub mod utils;
pub mod types;
pub mod keyboard;
pub mod config;
pub mod routing;
pub mod stream;
pub mod session;
pub mod api;
pub mod gateway;
