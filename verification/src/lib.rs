//! Reverse image search by perceptual fingerprint: fingerprint extraction
//! and arithmetic, normalisation and ranking of catalog rows, exact-match
//! criteria, the per-key request quota and the error replies.

pub mod catalog;
pub mod error;
pub mod extract;
pub mod fingerprint;
pub mod heads;
pub mod lookup;
pub mod quota;
pub mod rank;
pub mod request;
pub mod search;
pub mod telemetry;
pub mod upload;
