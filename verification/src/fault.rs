//! The failure taxonomy every component reports from.

use vstd::prelude::*;
use vstd::slice::slice_to_vec;
use vstd::utf8::is_ascii_chars_encode_utf8;
use vstd::string::StringSliceAdditionalSpecFns;

verus! {

/// Why an operation, a connection or a whole session failed.
#[derive(Clone, Copy, Debug, PartialEq, Eq, Structural)]
pub enum Fault {
    /// Framing or decode failure; fatal to the connection it occurred on.
    Malformed,
    /// Bad or missing credential; fatal to the session, answered uniformly.
    AuthRejected,
    /// Requested port below the minimum or already leased; fatal to the
    /// request.
    PortUnavailable,
    /// No `Accept` claimed a pending pairing in time; fatal only to that one
    /// public connection.
    PairingExpired,
    /// Dialing the local destination or the control address failed; fatal to
    /// that one data connection.
    PeerUnreachable,
    /// Control-channel end-of-stream, error or heartbeat silence; fatal to
    /// the whole session.
    SessionLost,
}

/// The characters of `s` as bytes, one each (its UTF-8 encoding, for ASCII
/// text).
pub open spec fn ascii_bytes(s: Seq<char>) -> Seq<u8> {
    Seq::new(s.len(), |i: int| s[i] as u8)
}

/// The peer-visible reason text of each fault, as the bytes an `Error` frame
/// carries.
pub open spec fn reason_of(f: Fault) -> Seq<u8> {
    match f {
        Fault::Malformed => ascii_bytes("malformed message"@),
        Fault::AuthRejected => ascii_bytes("access denied"@),
        Fault::PortUnavailable => ascii_bytes("port unavailable"@),
        Fault::PairingExpired => ascii_bytes("pairing expired"@),
        Fault::PeerUnreachable => ascii_bytes("peer unreachable"@),
        Fault::SessionLost => ascii_bytes("session lost"@),
    }
}

impl Fault {
    /// Exactly this fault's reason text; what a farewell `Error` frame says.
    pub fn reason_bytes(&self) -> (r: Vec<u8>)
        ensures
            r@ == reason_of(*self),
            1 <= r@.len() <= 128,
    {
        let s: &str = match self {
            Fault::Malformed => "malformed message",
            Fault::AuthRejected => "access denied",
            Fault::PortUnavailable => "port unavailable",
            Fault::PairingExpired => "pairing expired",
            Fault::PeerUnreachable => "peer unreachable",
            Fault::SessionLost => "session lost",
        };
        proof {
            reveal_strlit("malformed message");
            reveal_strlit("access denied");
            reveal_strlit("port unavailable");
            reveal_strlit("pairing expired");
            reveal_strlit("peer unreachable");
            reveal_strlit("session lost");
            assert(vstd::utf8::is_ascii_chars(s@));
            is_ascii_chars_encode_utf8(s@);
            assert(s.spec_bytes() =~= ascii_bytes(s@));
            assert(ascii_bytes(s@) == reason_of(*self));
        }
        slice_to_vec(s.as_bytes())
    }
}

} // verus!
