//! Core logic of a dynamic-DNS updater: domain handling, provider response
//! interpretation, upsert planning, the zone-id cache, and the per-cycle
//! reconciliation decisions. Network and process plumbing live outside the
//! library and only hand plain values in and out.

pub mod cache;
pub mod config;
pub mod cycle;
pub mod domain;
pub mod endpoints;
pub mod errors;
pub mod provider;
pub mod text;

pub use domain::extract_domain_name;
pub use errors::DynDnsError;
pub use provider::{DnsRecord, RecordParams};
