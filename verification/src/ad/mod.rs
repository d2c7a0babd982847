//! Directory (AD / OpenLDAP) side of the collector.

pub mod client;
pub mod mapper;
pub mod sync;
