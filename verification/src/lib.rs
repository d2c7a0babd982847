//! On-premises identity collector: directory mapping, configuration rules,
//! sync decisions and the shared catalog/session data model.

pub mod ad;
pub mod config;
pub mod events;
pub mod http;
pub mod logging;
pub mod service;
pub mod store;
pub mod text;
