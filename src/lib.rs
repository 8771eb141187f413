//! A length-prefixed framing protocol and the decisions of the daemon and
//! client that speak it.
pub mod codec;
pub mod daemon;
pub mod client;
pub mod line;
