pub mod action;
pub mod buf;
pub mod buffered;
pub mod daemon;
pub mod error;
pub mod handler;
pub mod mux;
pub mod poll;
pub mod server;
