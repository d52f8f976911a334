//! Streams application log events from a log API and renders them as
//! classified, colorized terminal lines.
//!
//! The verified core: [`signer`] produces the authorized request URL,
//! [`decoder`] turns the received byte stream into discrete events
//! whatever the chunk boundaries, [`classify`] interprets one message
//! payload, [`driver`] decides the action of each event without ever
//! aborting the stream, and [`terminal`] plans styled output that always
//! restores the default attributes.  Opening the connection, reading the
//! socket and touching the real terminal stay outside the library.

pub mod bytes_util;
pub mod classify;
pub mod decoder;
pub mod driver;
pub mod signer;
pub mod terminal;
