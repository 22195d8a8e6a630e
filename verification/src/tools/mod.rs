//! The tools the model calls: their context, decisions and replies.

pub mod composer;
pub mod control;
pub mod ctx;
pub mod family;
pub mod http;
pub mod listing;
pub mod reply;
pub mod schema;
