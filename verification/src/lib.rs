//! A URL-shortening library: unique short-key generation under collision
//! risk, a create/redirect/stats service over a link store, and a secret
//! token guarding per-link statistics.

pub mod errors;
pub mod http;
pub mod keygen;
pub mod service;
pub mod store;
