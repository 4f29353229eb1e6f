//! Stickies: a scratchpad of small notes that lives on the edge of the
//! desktop. This library holds the deck's session rules, the note store's
//! encoding rules and the note list's presentation rules, each with its
//! contract.

pub mod app;
pub mod clock;
pub mod config;
pub mod deck_laws;
pub mod edge;
pub mod listing;
pub mod storage;
