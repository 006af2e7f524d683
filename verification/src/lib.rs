//! Polling a fixed set of remote sources for status records: decoding and
//! tagging of one source's response, a bounded fan-out over the sources, and
//! the bookkeeping of a worker that serves fetch requests.

pub mod bridge;
pub mod fanout;
pub mod fetch;
pub mod json;
pub mod record;
pub mod registry;
