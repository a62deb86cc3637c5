//! Session, token and album caching for a saved-album browser.
//!
//! The library keeps, per browser session, the OAuth authorization state and
//! a refreshable access token, together with a time-bounded cache of the
//! user's shuffled album library. All state transitions, expiry decisions,
//! pagination accumulation and display projection are verified; the network
//! calls, randomness and the clock are supplied by the surrounding
//! application as plain values.

pub mod cache;
pub mod errors;
pub mod oauth;
pub mod oauth_token;
pub mod projector;
pub mod random_album;
pub mod rng;
pub mod types;
