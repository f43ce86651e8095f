//! Self-describing, refreshable access tokens.
//!
//! A token carries a user's identity and two expiry instants (soft and hard)
//! in a payload authenticated by a salted HMAC-SHA512 digest. The refresh
//! coordinator decides, for a presented token, whether to accept it, to let a
//! just-superseded token through inside a grace window, to mint and persist a
//! successor with a compare-and-swap on the user-record store, or to reject it.
pub mod crypto;
pub mod salted_hashes;
pub mod tokens;
pub mod authentication;
pub mod convergence;
pub mod web;
pub mod login;
pub mod modify_builder;
pub mod wire;
