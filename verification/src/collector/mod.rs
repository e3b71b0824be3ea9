//! The sampled readings and the parsers that produce them.
pub mod reader;
pub mod compute;
pub mod thermal;
pub mod engine;

use vstd::prelude::*;

verus! {

/// One `/proc/meminfo` reading; sizes in bytes, `None` where the field was
/// absent or unreadable.
#[derive(Debug, Clone)]
pub struct MemoryStat {
    pub id: Option<i64>,
    pub timestamp: i64,
    pub mem_total_bytes: Option<i64>,
    pub mem_free_bytes: Option<i64>,
    pub mem_available_bytes: Option<i64>,
    pub buffers_bytes: Option<i64>,
    pub cached_bytes: Option<i64>,
    pub swap_total_bytes: Option<i64>,
    pub swap_free_bytes: Option<i64>,
}

/// A page of memory history: `count` rows out of `total`.
#[derive(Debug)]
pub struct MemoryHistoryResponse {
    pub count: i64,
    pub total: i64,
    pub data: Vec<MemoryStat>,
}

} // verus!
