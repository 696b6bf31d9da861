//! Defaults of the check for cheating with the progress. Fractions are given by their bits.

use vstd::prelude::*;

verus! {

pub const MINIMUM_SIZE: i64 = 50_000_000;

/// The bits of 0.1.
pub const MAXIMUM_DIFFERENCE: u64 = 0x3FB9_9999_9999_999A;

/// The bits of 0.07.
pub const REWIND_MAXIMUM_DIFFERENCE: u64 = 0x3FB1_EB85_1EB8_51EC;

pub const BLOCK_EXCESSIVE_CLIENTS: bool = true;

/// The bits of 1.5.
pub const EXCESSIVE_THRESHOLD: u64 = 0x3FF8_0000_0000_0000;

pub const IPV4_PREFIX_LENGTH: u8 = 32;

pub const IPV6_PREFIX_LENGTH: u8 = 56;

/// Whether the state is kept in the database.
pub const ENABLE_PERSIST: bool = true;

pub const PERSIST_DURATION_MS: i64 = 1_209_600_000;

pub const MAX_WAIT_DURATION_MS: i64 = 30_000;

/// The bits of 0.1.
pub const FAST_PCB_TEST_PERCENTAGE: u64 = 0x3FB9_9999_9999_999A;

pub const FAST_PCB_TEST_BLOCK_DURATION_MS: i64 = 15_000;

} // verus!
