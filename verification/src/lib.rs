//! In-memory engine for a live team-trivia game server.
//!
//! The crate models the authoritative state of a running quiz: teams,
//! questions, submitted answers, scores, timer state, and the settings that
//! govern scoring. Every state transition the server performs is a verified
//! operation here; the surrounding process (sockets, persistence, clocks)
//! feeds plain values in and carries the computed broadcast plans out.

pub mod auth;
pub mod codes;
pub mod fake_data;
pub mod game;
pub mod handler;
pub mod heartbeat;
pub mod laws;
pub mod messages;
pub mod norm;
pub mod registry;
pub mod score;
pub mod types;
