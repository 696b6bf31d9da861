//! Defaults of the qBittorrent adapter.

use vstd::prelude::*;

verus! {

pub const MAX_CONCURRENT_SLOTS: usize = 128;

pub const PAGE_SIZE: u32 = 100;

pub const CONNECT_TIMEOUT_SECS: u64 = 10;

pub const READ_TIMEOUT_SECS: u64 = 30;

pub const MIN_SUPPORTED_VERSION: &'static str = "4.5.0";

} // verus!
