//! In-memory status store of a service status page: report classification,
//! mode validation, replica state, flush generations and probe toggles.
pub mod report;
pub mod registry;
pub mod store;
pub mod routes;
pub mod status;
pub mod laws;
