//! Core of a sandboxed rock-paper-scissors tournament host.
//!
//! Bots are user-supplied programs that play rock-paper-scissors. The host
//! feeds each bot a JSON snapshot of the game on stdin, reads the play from
//! the last line of stdout, scores best-of-five matches, and walks a
//! single-elimination bracket. This crate holds the rules of that game:
//! the beat relation, the stdout protocol, the classification of a sandboxed
//! run, the match state machine, the bracket builder, and the tournament
//! driver's bookkeeping. The sandbox itself, the network surface and the
//! stores around it live outside this crate and call into it.

pub mod bots;
pub mod bracket;
pub mod driver;
pub mod game;
pub mod play;
pub mod runner;
pub mod strutil;
pub mod wire;
