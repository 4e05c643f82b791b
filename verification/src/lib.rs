//! Per-interface bandwidth reconciliation: an exact-decimal model of two
//! independently sourced throughput observations, the parsing that extracts
//! them from external tool output and from a metrics store response, the
//! exact ratio between them, and the per-interface pipeline state machine
//! that drives measurement, query, calculation and publish in order.

pub mod errors;
pub mod measure;
pub mod num;
pub mod pipeline;
pub mod publish;
pub mod query;
pub mod ratio;
