//! Core of a turn-based property-trading board game played on a fixed
//! 40-cell board.
//!
//! The crate covers the ownership and rent computation engine and the
//! two-party trade negotiation state machine: the tile registry and set
//! index, the per-player ownership ledger, the rent engine, the trade
//! session, and the game facade that ties them together.  Terminal
//! rendering, command-line parsing, tile-data deserialization and other
//! I/O live outside this crate; the facade consumes already-validated
//! plain tile records and exposes read-only getters for a display layer.

pub mod board;
pub mod colour;
pub mod colours;
pub mod error;
pub mod game;
pub mod ledger;
pub mod player;
pub mod rng;
pub mod text;
pub mod tiles;
pub mod trade;
