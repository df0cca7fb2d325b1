//! A verified commit-reveal random-draw protocol.
//!
//! An organizer publishes a hash commitment to a secret before any entrant
//! registers, so the winner cannot be chosen after the fact. Sessions move
//! through the phases Open, Closed and Revealed; the winner is the
//! participant at index `secret mod participant_count` in the frozen list.

pub mod codec;
pub mod contract;
pub mod crypto;
pub mod hub;
pub mod types;
pub mod winner;
