//! A consent-enforcing dataflow operator, the keyed state it consults, and
//! the export and import of one data subject's rows.
pub mod data;
pub mod graph;
pub mod guard;
pub mod shard;
pub mod state;
