//! A trusted dealer for the offline phase of a two-party SPDZ-style secure
//! computation.
//!
//! Two mutually distrusting parties each submit a request under a shared
//! request ID; the dealer pairs the two submissions, checks that they agree,
//! and deals each party one half of freshly generated correlated randomness:
//! MAC-authenticated additive shares of random bits, random values, input
//! masks, inverse pairs and Beaver triples, all under a shared MAC key.

pub mod field;
pub mod scalar;
pub mod share;
pub mod request;
pub mod response;
pub mod dealer;
pub mod admission;
