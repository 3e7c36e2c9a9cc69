//! Timed multiplayer trivia sessions: a verified session and player state
//! machine, its answer-scoring formula, cross-session statistics and the
//! ranked leaderboard.

pub mod types;
pub mod scoring;
pub mod session;
pub mod stats;
pub mod leaderboard;
pub mod chain;
pub mod theorems;
