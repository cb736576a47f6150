//! Verified core of a cluster configuration daemon: node identities, HTTP
//! request routing, the schedule fetching state machines, schedule
//! prefetching bookkeeping and the decisions around the shared state.

pub mod id;
pub mod text;
pub mod routing;
pub mod time_util;
pub mod elect;
pub mod fetch;
pub mod id_collections;
pub mod prefetch;
pub mod indexed_log;
pub mod apply;
pub mod json;
pub mod schedule;
pub mod shared;
pub mod render;
pub mod peers;
pub mod failures;
pub mod status;
pub mod network;
pub mod refetch;
pub mod disk;
pub mod compat;
