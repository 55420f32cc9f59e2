//! The relay, as the state it owns: two half-connections, both alive until
//! either ends.
//!
//! The byte copying itself is plain I/O and lives with the caller; this
//! state machine pins down the one rule the relay must keep — once either
//! half reaches end-of-stream or errors, both halves are closed, and the
//! relay owns nothing afterwards.

use vstd::prelude::*;

verus! {

/// Which half of the relay an event came from.
#[derive(Clone, Copy, Debug, PartialEq, Eq, Structural)]
pub enum RelayHalf {
    /// The externally-initiated connection on the leased public port.
    Public,
    /// The client-side data connection carrying the same stream.
    Data,
}

/// One byte-relay between a paired public connection and data connection.
pub struct Relay {
    pub public_open: bool,
    pub data_open: bool,
    /// Which half ended the relay, once one has.
    pub ended_by: Option<RelayHalf>,
}

impl Relay {
    /// Both halves are handed over open when pairing succeeds.
    pub fn start() -> (r: Relay)
        ensures r.public_open, r.data_open, r.ended_by is None,
    {
        Relay { public_open: true, data_open: true, ended_by: None }
    }

    /// Either half ending — end-of-stream or error, on either side — ends
    /// the relay: afterwards neither half is owned open, and the returned
    /// pair says which halves the caller must now close (each exactly the
    /// ones that were still open).
    pub fn finish(&mut self, ended: RelayHalf) -> (close: (bool, bool))
        ensures
            !final(self).public_open,
            !final(self).data_open,
            final(self).ended_by == Some(ended),
            close.0 == old(self).public_open,
            close.1 == old(self).data_open,
    {
        let close = (self.public_open, self.data_open);
        self.public_open = false;
        self.data_open = false;
        self.ended_by = Some(ended);
        close
    }
}

} // verus!
