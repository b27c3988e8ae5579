//! An in-process HTTP GET bridge.
//!
//! A call validates its headers, runs one send on a scheduler chosen by the
//! execution mode, and yields a response handle whose body can be read once.

pub mod bridge;
pub mod entries;
pub mod error;
pub mod header;
pub mod request;
pub mod response;
pub mod table;
pub mod trace;
pub mod transport;
