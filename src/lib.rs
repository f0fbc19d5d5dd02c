//! Website liveness checking: retry decisions, work partitioning, result
//! collection, URL list parsing and report rendering.
pub mod dispatch;
pub mod readback;
pub mod report;
pub mod retry;
pub mod text;
pub mod url_list;
