//! The decision-making and session-tracking core of a client for a
//! turn-based, two-team board game played against a remote server: a rule
//! engine that validates, enumerates and applies moves on a mutable board,
//! and a protocol state machine that turns inbound session messages into
//! outbound move decisions while keeping the local game state synchronized
//! with authoritative server snapshots. Transport, wire parsing and logging
//! belong to an outer shell, which this library only hands values to.

pub mod coordinates;
pub mod pieces;
pub mod moves;
pub mod board;
pub mod error;
pub mod game_state;
pub mod snapshot;
pub mod messages;
pub mod logic;
