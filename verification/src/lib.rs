//! Reconciliation engine of a dynamic-DNS updater: it resolves configured
//! targets to provider records and decides, record by record, how each is
//! brought in line with the host's current public addresses.

pub mod address;
pub mod api;
pub mod engine;
pub mod hetzner_dns;
pub mod reconciler;
pub mod resolver;
pub mod session;
