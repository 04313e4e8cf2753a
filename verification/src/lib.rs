//! Replay of historical price bars, one step at a time, with no way to read
//! what has not been revealed yet.
//!
//! A feed splits an ordered history into a pending part and a revealed part.
//! Indicators compute a derived series once, over a history that has not begun
//! to replay, and then replay it under the same rules. A data handler owns one
//! feed of raw bars per symbol, aligns their first dates and advances them
//! together.
pub mod data;
pub mod strategy;
