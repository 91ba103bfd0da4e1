//! Verified building blocks of an agent platform: onboarding of ensigns,
//! a priority tick queue, a sandboxed file universe, a provenance ledger,
//! a message port, a monitoring circuit's status tracking and a mock
//! completion provider's request handling.

pub mod text;
pub mod tick;
pub mod ensign;
pub mod sandbox;
pub mod provenance;
pub mod port;
pub mod circuit;
pub mod provider;
