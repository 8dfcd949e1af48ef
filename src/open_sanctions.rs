//! Records of the watchlist service.
pub mod types;
