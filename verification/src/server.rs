//! The protocol core.
//!
//! - [`grammar`] says what a frame is on the wire, as mathematics, and
//!   [`lemmas`] proves what follows from it.
//! - [`frame`] holds the frame type and reads frames off a cursor;
//!   [`render`] and [`equality`] show and compare them.
//! - [`connection`] buffers a byte stream and hands out its frames one by
//!   one.
//! - [`parser`] takes the arguments of a command out of its frame.
//! - [`cursor`], [`payload`], [`buffer`] and [`text`] are the seams to code
//!   that is used and not verified: what is assumed of it is written there,
//!   and nowhere else.

pub mod buffer;
pub mod connection;
pub mod cursor;
pub mod equality;
pub mod frame;
pub mod grammar;
pub mod lemmas;
pub mod parser;
pub mod payload;
pub mod render;
pub mod text;
