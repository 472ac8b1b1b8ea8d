//! Match-resolution engine for turn-based tactical matches between clubs.
//!
//! The engine owns the match records, the open-match index and the per-player
//! match history, and resolves a match over three rounds from a fixed
//! tactic-advantage matrix combined with club stat differentials.  Club
//! identity, ownership, stats and win/loss/draw records live in an external
//! club registry; the engine receives the registry's answers as plain values
//! and never caches club data across calls.

pub mod game;
pub mod history;
pub mod open_index;
pub mod tactics;
pub mod types;
