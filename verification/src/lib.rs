//! Cookie-based delegated authorization for HTTP requests.
//!
//! A request carries a JWT in a named cookie. The middleware extracts the
//! cookie, forwards the matched `name=value` pair to a remote authority for
//! validation, and on acceptance derives an application identity from the
//! token's subject claim. The token is parsed, never cryptographically
//! verified: the trust decision belongs entirely to the remote authority.
//!
//! The decision pipeline is pure; the single outbound HTTP call sits between
//! [`delegate::locate_credential`] and [`delegate::conclude_auth`], which the
//! hosting server drives.

pub mod claims;
pub mod cookie;
pub mod delegate;
pub mod identity;
pub mod inactivity;
pub mod status;
