//! The process-wide log schema: the mapping from semantic field roles to
//! concrete field paths, fixed at startup and immutable afterwards.

use vstd::prelude::*;

verus! {

/// Field-role mapping consulted by sources and sinks.
pub struct LogSchema {
    pub timestamp_key: String,
    pub message_key: String,
    pub host_key: String,
    pub source_type_key: String,
}

impl LogSchema {
    /// The default mapping: `timestamp`, `message`, `host`, `source_type`.
    pub fn default_schema() -> (r: LogSchema)
        ensures
            r.timestamp_key@ == "timestamp"@,
            r.message_key@ == "message"@,
            r.host_key@ == "host"@,
            r.source_type_key@ == "source_type"@,
    {
        LogSchema {
            timestamp_key: String::from_str("timestamp"),
            message_key: String::from_str("message"),
            host_key: String::from_str("host"),
            source_type_key: String::from_str("source_type"),
        }
    }
}

} // verus!
