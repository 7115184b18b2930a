//! A small broadcast relay: a length-prefixed wire codec for chat messages,
//! the hub's connection registry and per-connection relay decisions, the
//! rules that persist received files and images under unique names, and the
//! text-transformation commands of the accompanying command-line tools.
pub mod codec;
pub mod csvfmt;
pub mod hub;
pub mod imaging;
pub mod materializer;
pub mod message;
pub mod modifications;
pub mod operations;
pub mod registry;
pub mod session;
pub mod textutil;
