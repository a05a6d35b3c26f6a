//! The session input of account selection.
//!
//! The host hands over a session alias it has already passed through an HMAC; the core never
//! receives or keeps the raw session.
use vstd::prelude::*;

verus! {

/// The fixed byte length of a session affinity alias.
pub const SESSION_AFFINITY_ALIAS_BYTES: usize = 16;

/// A fixed-length session affinity alias that the host derived with an HMAC.
///
/// It has no `Debug` or `Display` and no way to read its bytes back.
#[derive(Clone, Copy, PartialEq, Eq, Hash)]
pub struct SessionAffinityAlias([u8; 16]);

impl SessionAffinityAlias {
    /// The alias bytes.
    pub closed spec fn bytes(&self) -> Seq<u8> {
        self.0@
    }

    /// Takes a session alias that the host derived with an HMAC and truncated to the fixed
    /// length; the core holds no key and cannot check how it was computed.
    pub fn from_host_hmac(value: [u8; 16]) -> (r: Self)
        ensures
            r.bytes() == value@,
    {
        SessionAffinityAlias(value)
    }
}

/// The session affinity input of one selection; it has no `Debug`, so no log records it.
#[derive(Clone, Copy, PartialEq, Eq)]
pub enum SelectionSession {
    /// The request carries no stable session affinity input.
    Absent,
    /// The request carries a session alias the host derived with an HMAC.
    Stable(SessionAffinityAlias),
}

impl SelectionSession {
    /// Whether the request carries a stable session affinity input.
    pub fn is_stable(self) -> (r: bool)
        ensures
            r == self is Stable,
    {
        match self {
            SelectionSession::Stable(_) => true,
            SelectionSession::Absent => false,
        }
    }
}

} // verus!
