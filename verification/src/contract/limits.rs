//! Hard limits of the inbound wire and the verification window that can never be relaxed.
use vstd::prelude::*;

verus! {

/// Absolute bound of one raw request body; each operation declares a bound no larger.
pub const MAX_RAW_BODY_BYTES: usize = 16777216;

/// Maximum length of one origin-form target.
pub const MAX_REQUEST_TARGET_BYTES: usize = 4096;

/// Number of headers one request may carry.
pub const MAX_HEADER_COUNT: usize = 128;

/// Maximum length of a header name.
pub const MAX_HEADER_NAME_BYTES: usize = 128;

/// Maximum length of one header value.
pub const MAX_HEADER_VALUE_BYTES: usize = 16384;

/// Maximum length of the attestation wire.
pub const MAX_ATTESTATION_BYTES: usize = 32768;

/// Maximum length of the authorization bundle wire.
pub const MAX_AUTHORIZATION_BUNDLE_BYTES: usize = 65536;

/// Maximum length of the capability authorization wire.
pub const MAX_CAPABILITY_AUTHORIZATION_BYTES: usize = 16384;

/// Maximum number of egress targets one managed permit may authorize.
pub const MAX_ALLOWED_EGRESS_TARGETS: usize = 64;

/// Maximum length of a canonical origin.
pub const MAX_CANONICAL_ORIGIN_BYTES: usize = 512;

/// Longest lifetime an attestation may have.
pub const MAX_ATTESTATION_TTL_MILLIS: u64 = 120000;

/// Longest lifetime a capability authorization may have.
pub const MAX_CAPABILITY_TTL_MILLIS: u64 = 120000;

/// Forward skew allowed between the issuing clock and the verifying clock.
pub const MAX_CLOCK_SKEW_MILLIS: u64 = 5000;

} // verus!
