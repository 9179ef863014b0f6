//! An emulator of the Memory Array Redcode Simulator, the machine on which
//! Core War is played.
//!
//! Warriors are written in Redcode, read into [`warrior::Warrior`] values and
//! loaded into a [`engine::Core`], which runs them against each other.
pub mod engine;
pub mod error;
pub mod logger;
pub mod parser;
pub mod text;
pub mod tournament;
pub mod warrior;
