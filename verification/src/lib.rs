//! A scrolling status-line library.
//!
//! The library owns the logic of a small status-line tool: a poller watches an
//! external media provider and reports text changes, and a scroll engine owns
//! the display buffer and computes, tick by tick, a cyclic window over the
//! buffer's grapheme clusters.

pub mod poll;
pub mod scroll;
pub mod segment;
