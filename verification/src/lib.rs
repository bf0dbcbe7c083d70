//! Step through a linear chain of version-control commits as if they were
//! presentation slides.
//!
//! The library holds the session logic: how the stored session record is
//! encoded and decoded, how the slide deck is built from the history listing,
//! how navigation commands pick the slide to check out, and how the status
//! window is rendered. Everything here is a pure function of plain values;
//! the surrounding binary performs the version-control calls and the file
//! reads and writes, and hands their results in.

pub mod cmd;
pub mod deck;
pub mod laws;
pub mod messages;
pub mod present;
pub mod session;
pub mod text;
