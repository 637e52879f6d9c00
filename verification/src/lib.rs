//! Client-side logic of a small chat application: channel and chat
//! bookkeeping, the line protocol spoken with the chat server, the
//! configuration file layout and the editing rules of the user interface.

pub mod text;
pub mod model;
pub mod protocol;
pub mod chat;
pub mod ident;
pub mod client;
pub mod app_state;
pub mod config;
pub mod laws;
