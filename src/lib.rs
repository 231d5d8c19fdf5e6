//! The engine of a typing-speed trainer: per-character matching of
//! keystrokes against a reference text, the session life cycle, the speed
//! and accuracy metrics, and the byte format of the leaderboard.

pub mod color_scheme;
pub mod engine;
pub mod text;
pub mod metrics;
pub mod session;
pub mod leaderboard;
