//! A notification daemon's protocol core: the wire-level hint codec, image
//! reference classification, notification identity allocation, the protocol
//! method surface, ordered event delivery, and the stacked placement of
//! notification windows.

pub mod channel;
pub mod client;
pub mod config;
pub mod demo;
pub mod error;
pub mod gui;
pub mod hints;
pub mod server;
pub mod text;
