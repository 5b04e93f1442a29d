//! The fixed set of status codes an authorization attempt can produce.

use vstd::prelude::*;

verus! {

/// The remote authority accepted the credential.
pub const STATUS_OK: u16 = 200;

/// The credential was unusable: an undecodable header, a malformed token, a
/// token without a subject, or a subject the identity mapping refuses.
pub const STATUS_BAD_REQUEST: u16 = 400;

/// No credential: the header was missing or held no matching pair.
pub const STATUS_UNAUTHORIZED: u16 = 401;

/// The remote authority rejected the credential.
pub const STATUS_FORBIDDEN: u16 = 403;

/// The remote authority could not be reached.
pub const STATUS_BAD_GATEWAY: u16 = 502;

} // verus!
