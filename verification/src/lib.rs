//! A registry of rental equipment kept in stable memory.
//!
//! Records are stored under identifiers that a persistent counter hands out,
//! starting at 1 and never reused. Every operation carries a contract over a
//! mathematical model of the registry: the number of identifiers issued so
//! far and a map from identifier to record.

pub mod codec;
pub mod counter;
pub mod laws;
pub mod record;
pub mod service;
pub mod stable;
pub mod store;
pub mod text;
