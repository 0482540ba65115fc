//! The server side of a small exercise protocol: a batch of exercises drawn
//! from a seed, the two-line handshake that admits a client, and the datagram
//! exchange that checks the client's answers.

pub mod config;
pub mod describe;
pub mod exchange;
pub mod handshake;
pub mod numeric;
pub mod random;
pub mod tasks;
pub mod text;

use vstd::prelude::*;

verus! {

/// Smallest operand that an exercise can hold.
pub const NUM_MIN: u64 = 1000000000;

/// Exclusive upper bound of the operands.
pub const NUM_MAX: u64 = 9999999999;

/// Number of exercises in the batch of one run.
pub const TASKS_AMOUNT: u8 = 3;

/// Number of exercise kinds that exist.
pub const KINDS: u8 = 5;

} // verus!
