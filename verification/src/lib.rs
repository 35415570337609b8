//! Game-state engine for a seated multi-player poker table.
//!
//! The library tracks seating, chip stacks, betting rounds, turn order,
//! deterministic card dealing and pot settlement as a sequence of atomic
//! commands applied to one [`state::Table`] record.  Every command either
//! leaves the record in the state described by its contract or fails and
//! leaves it untouched.

pub mod error;
pub mod hashing;
pub mod instructions;
pub mod laws;
pub mod state;
