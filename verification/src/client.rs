//! The client side of the control session: a state machine from received
//! frames to protocol actions.
//!
//! The caller dials the control address, feeds every decoded frame (and
//! end-of-stream, and clock ticks) to a [`ClientSession`], and carries out
//! the returned actions: frames to write, data connections to open, and the
//! final close.

use vstd::prelude::*;
use crate::auth::Authenticator;
use crate::auth::tag_spec;
use crate::codec::Message;
use crate::codec::MsgView;
use crate::fault::Fault;

verus! {

/// Where the client stands in the protocol.
#[derive(Clone, Copy, Debug, PartialEq, Eq, Structural)]
pub enum ClientPhase {
    /// A secret is configured: nothing is sent until the server challenges.
    AwaitChallenge,
    /// `Hello` sent (after answering any challenge); awaiting the grant.
    AwaitAck,
    /// Port granted: reacting to heartbeats and `Connect` notifications.
    Active,
    /// Terminal; `failure` says why.
    Closed,
}

/// Why the client session ended.
pub enum ClientFailure {
    /// A failure of this side, by taxonomy kind.
    Local(Fault),
    /// The server's `Error` frame, with the peer-supplied reason bytes.
    Remote(Vec<u8>),
}

/// One action the caller must carry out, in order.
#[derive(Debug)]
pub enum ClientAction {
    /// Write this frame to the control channel.
    Send(Message),
    /// Open a fresh data connection to the server, announce `Accept` with
    /// this identifier, dial the local destination and relay the two.
    OpenData(u128),
    /// Close the control channel; the tunnel is over.
    CloseControl,
}

/// Whether `a` stands somewhere in `s`.
pub open spec fn has_client_action(s: Seq<ClientAction>, a: ClientAction) -> bool {
    exists|i: int| 0 <= i < s.len() && #[trigger] s[i] == a
}

/// The client end of one control session.
pub struct ClientSession {
    pub auth: Authenticator,
    /// The port asked of the server; 0 means any.
    pub requested_port: u16,
    pub phase: ClientPhase,
    /// The granted public port; 0 until acknowledged.
    pub granted: u16,
    /// Last time any frame arrived from the server.
    pub last_activity: u64,
    /// Why the session closed, once it has.
    pub failure: Option<ClientFailure>,
}

impl ClientSession {
    /// Waiting for a challenge implies a secret to answer it with; an
    /// active session has a real port; only a closed session has a failure.
    pub open spec fn wf(&self) -> bool {
        &&& (self.phase == ClientPhase::AwaitChallenge ==> self.auth.enabled())
        &&& (self.phase == ClientPhase::Active ==> self.granted != 0)
        &&& (self.failure is Some ==> self.phase == ClientPhase::Closed)
    }

    /// What stays fixed over every transition.
    pub open spec fn same_identity(&self, post: &ClientSession) -> bool {
        &&& post.auth == self.auth
        &&& post.requested_port == self.requested_port
    }

    /// Dials in: with a secret the client waits for the server's challenge;
    /// without one it asks for its port at once.
    pub fn start(secret: Option<Vec<u8>>, requested_port: u16, now: u64)
        -> (r: (ClientSession, Vec<ClientAction>))
        ensures
            r.0.wf(),
            r.0.requested_port == requested_port,
            r.0.granted == 0,
            r.0.last_activity == now,
            r.0.failure is None,
            secret is Some ==> {
                &&& r.0.phase == ClientPhase::AwaitChallenge
                &&& r.1@.len() == 0
            },
            secret is None ==> {
                &&& r.0.phase == ClientPhase::AwaitAck
                &&& r.1@ == seq![ClientAction::Send(Message::Hello(requested_port))]
            },
    {
        let enabled = secret.is_some();
        let auth = Authenticator::new(secret);
        let s = ClientSession {
            auth,
            requested_port,
            phase: if enabled { ClientPhase::AwaitChallenge } else { ClientPhase::AwaitAck },
            granted: 0,
            last_activity: now,
            failure: None,
        };
        let mut acts: Vec<ClientAction> = Vec::new();
        if !enabled {
            acts.push(ClientAction::Send(Message::Hello(requested_port)));
            proof {
                assert(acts@ =~= seq![ClientAction::Send(Message::Hello(requested_port))]);
            }
        }
        (s, acts)
    }

    /// Reacts to one frame read from the control channel at time `now`.
    ///
    /// - awaiting the challenge, a `Challenge` is answered with the tag for
    ///   its nonce followed by `Hello`; anything else kills the session;
    /// - awaiting the grant, `HelloAck` (with a nonzero port) activates the
    ///   tunnel; the server's `Error` ends it with the peer's reason, no
    ///   retry; an unexpected `Challenge` when no secret is configured is a
    ///   fatal configuration error; anything else is a protocol violation;
    /// - active, a `Heartbeat` only refreshes the liveness clock; a
    ///   `Connect` asks for one data connection for exactly that
    ///   identifier; the server's `Error` ends the session; anything else
    ///   is a protocol violation;
    /// - closed, nothing happens.
    pub fn handle_message(&mut self, msg: &Message, now: u64) -> (acts: Vec<ClientAction>)
        requires
            old(self).wf(),
        ensures
            final(self).wf(),
            old(self).same_identity(final(self)),
            old(self).phase == ClientPhase::AwaitChallenge ==>
                (msg@ matches MsgView::Challenge(n) ==> {
                    &&& final(self).phase == ClientPhase::AwaitAck
                    &&& final(self).failure is None
                    &&& final(self).last_activity == now
                    &&& acts@.len() == 2
                    &&& acts@[0] matches ClientAction::Send(m)
                        && m@ == MsgView::Authenticate(
                            tag_spec(old(self).auth.secret_view()->0, n))
                    &&& acts@[1]
                        == ClientAction::Send(Message::Hello(old(self).requested_port))
                }),
            old(self).phase == ClientPhase::AwaitChallenge
                && !(msg@ matches MsgView::Challenge(_)) ==> {
                &&& final(self).phase == ClientPhase::Closed
                &&& final(self).granted == old(self).granted
                &&& final(self).last_activity == now
                &&& final(self).failure matches Some(ClientFailure::Local(Fault::Malformed))
                &&& acts@ == seq![ClientAction::CloseControl]
            },
            old(self).phase == ClientPhase::AwaitAck ==>
                (msg@ matches MsgView::HelloAck(p) ==> {
                    &&& (p != 0 ==> {
                        &&& final(self).phase == ClientPhase::Active
                        &&& final(self).granted == p
                        &&& final(self).failure is None
                        &&& final(self).last_activity == now
                        &&& acts@.len() == 0
                    })
                    &&& (p == 0 ==> {
                        &&& final(self).phase == ClientPhase::Closed
                        &&& final(self).granted == old(self).granted
                        &&& final(self).last_activity == now
                        &&& final(self).failure matches Some(ClientFailure::Local(
                            Fault::Malformed))
                        &&& acts@ == seq![ClientAction::CloseControl]
                    })
                }),
            old(self).phase == ClientPhase::AwaitAck ==>
                (msg@ matches MsgView::Error(reason) ==> {
                    &&& final(self).phase == ClientPhase::Closed
                    &&& final(self).granted == old(self).granted
                    &&& final(self).last_activity == now
                    &&& final(self).failure matches Some(ClientFailure::Remote(r2))
                        && r2@ == reason
                    &&& acts@ == seq![ClientAction::CloseControl]
                }),
            old(self).phase == ClientPhase::AwaitAck && msg@ is Challenge ==> {
                &&& final(self).phase == ClientPhase::Closed
                &&& final(self).granted == old(self).granted
                &&& final(self).last_activity == now
                &&& final(self).failure matches Some(ClientFailure::Local(
                    Fault::AuthRejected))
                &&& acts@ == seq![ClientAction::CloseControl]
            },
            old(self).phase == ClientPhase::AwaitAck
                && !(msg@ matches MsgView::HelloAck(_))
                && !(msg@ matches MsgView::Error(_))
                && !(msg@ is Challenge) ==> {
                &&& final(self).phase == ClientPhase::Closed
                &&& final(self).granted == old(self).granted
                &&& final(self).last_activity == now
                &&& final(self).failure matches Some(ClientFailure::Local(Fault::Malformed))
                &&& acts@ == seq![ClientAction::CloseControl]
            },
            old(self).phase == ClientPhase::Active ==> {
                &&& (msg@ is Heartbeat ==> {
                    &&& final(self).phase == ClientPhase::Active
                    &&& final(self).granted == old(self).granted
                    &&& final(self).last_activity == now
                    &&& acts@.len() == 0
                })
                &&& (msg@ matches MsgView::Connect(id) ==> {
                    &&& final(self).phase == ClientPhase::Active
                    &&& final(self).granted == old(self).granted
                    &&& final(self).last_activity == now
                    &&& acts@ == seq![ClientAction::OpenData(id)]
                })
                &&& (msg@ matches MsgView::Error(reason) ==> {
                    &&& final(self).phase == ClientPhase::Closed
                    &&& final(self).granted == old(self).granted
                    &&& final(self).last_activity == now
                    &&& final(self).failure matches Some(ClientFailure::Remote(r2))
                        && r2@ == reason
                    &&& acts@ == seq![ClientAction::CloseControl]
                })
                &&& (!(msg@ is Heartbeat) && !(msg@ matches MsgView::Connect(_))
                    && !(msg@ matches MsgView::Error(_)) ==> {
                    &&& final(self).phase == ClientPhase::Closed
                    &&& final(self).granted == old(self).granted
                    &&& final(self).last_activity == now
                    &&& final(self).failure matches Some(ClientFailure::Local(
                        Fault::Malformed))
                    &&& acts@ == seq![ClientAction::CloseControl]
                })
            },
            old(self).phase == ClientPhase::Closed ==> {
                *final(self) == *old(self) && acts@.len() == 0
            },
    {
        match self.phase {
            ClientPhase::AwaitChallenge => {
                self.last_activity = now;
                match msg {
                    Message::Challenge(n) => {
                        let tag = self.auth.tag_for(*n);
                        self.phase = ClientPhase::AwaitAck;
                        let mut acts: Vec<ClientAction> = Vec::new();
                        acts.push(ClientAction::Send(Message::Authenticate(tag)));
                        acts.push(ClientAction::Send(Message::Hello(self.requested_port)));
                        acts
                    }
                    _ => self.fail(ClientFailure::Local(Fault::Malformed)),
                }
            }
            ClientPhase::AwaitAck => {
                self.last_activity = now;
                match msg {
                    Message::HelloAck(p) => {
                        if *p != 0 {
                            self.phase = ClientPhase::Active;
                            self.granted = *p;
                            Vec::new()
                        } else {
                            self.fail(ClientFailure::Local(Fault::Malformed))
                        }
                    }
                    Message::Error(reason) => {
                        let r2 = crate::codec::copy_range(reason, 0, reason.len());
                        proof {
                            assert(r2@ =~= reason@);
                        }
                        self.fail(ClientFailure::Remote(r2))
                    }
                    Message::Challenge(_) => {
                        self.fail(ClientFailure::Local(Fault::AuthRejected))
                    }
                    _ => self.fail(ClientFailure::Local(Fault::Malformed)),
                }
            }
            ClientPhase::Active => {
                self.last_activity = now;
                match msg {
                    Message::Heartbeat => Vec::new(),
                    Message::Connect(id) => {
                        let mut acts: Vec<ClientAction> = Vec::new();
                        acts.push(ClientAction::OpenData(*id));
                        proof {
                            assert(acts@ =~= seq![ClientAction::OpenData(msg@->Connect_0)]);
                        }
                        acts
                    }
                    Message::Error(reason) => {
                        let r2 = crate::codec::copy_range(reason, 0, reason.len());
                        proof {
                            assert(r2@ =~= reason@);
                        }
                        self.fail(ClientFailure::Remote(r2))
                    }
                    _ => self.fail(ClientFailure::Local(Fault::Malformed)),
                }
            }
            ClientPhase::Closed => Vec::new(),
        }
    }

    /// The control channel reached end-of-stream or failed: the tunnel is
    /// over, surfaced as a session loss.
    pub fn handle_eof(&mut self) -> (acts: Vec<ClientAction>)
        requires old(self).wf(),
        ensures
            final(self).wf(),
            old(self).same_identity(final(self)),
            old(self).phase != ClientPhase::Closed ==> {
                &&& final(self).phase == ClientPhase::Closed
                &&& final(self).granted == old(self).granted
                &&& final(self).last_activity == old(self).last_activity
                &&& final(self).failure matches Some(ClientFailure::Local(
                    Fault::SessionLost))
                &&& acts@ == seq![ClientAction::CloseControl]
            },
            old(self).phase == ClientPhase::Closed ==> {
                *final(self) == *old(self) && acts@.len() == 0
            },
    {
        match self.phase {
            ClientPhase::Closed => Vec::new(),
            _ => self.fail(ClientFailure::Local(Fault::SessionLost)),
        }
    }

    /// The clock ticked: heartbeats missing beyond the grace period mean
    /// the server is silently gone and the session is lost.
    pub fn handle_tick(&mut self, liveness_timeout_ms: u64, now: u64)
        -> (acts: Vec<ClientAction>)
        requires old(self).wf(),
        ensures
            final(self).wf(),
            old(self).same_identity(final(self)),
            old(self).phase != ClientPhase::Closed
                && now >= old(self).last_activity + liveness_timeout_ms ==> {
                &&& final(self).phase == ClientPhase::Closed
                &&& final(self).granted == old(self).granted
                &&& final(self).last_activity == old(self).last_activity
                &&& final(self).failure matches Some(ClientFailure::Local(
                    Fault::SessionLost))
                &&& acts@ == seq![ClientAction::CloseControl]
            },
            old(self).phase == ClientPhase::Closed
                || now < old(self).last_activity + liveness_timeout_ms ==> {
                *final(self) == *old(self) && acts@.len() == 0
            },
    {
        match self.phase {
            ClientPhase::Closed => Vec::new(),
            _ => {
                if self.last_activity <= now
                    && now - self.last_activity >= liveness_timeout_ms {
                    self.fail(ClientFailure::Local(Fault::SessionLost))
                } else {
                    Vec::new()
                }
            }
        }
    }

    /// Ends the session with `why`; the single close action.
    fn fail(&mut self, why: ClientFailure) -> (acts: Vec<ClientAction>)
        ensures
            final(self).phase == ClientPhase::Closed,
            old(self).same_identity(final(self)),
            final(self).granted == old(self).granted,
            final(self).last_activity == old(self).last_activity,
            final(self).failure matches Some(w) && w == why,
            final(self).wf(),
            acts@ == seq![ClientAction::CloseControl],
    {
        self.phase = ClientPhase::Closed;
        self.failure = Some(why);
        let mut acts: Vec<ClientAction> = Vec::new();
        acts.push(ClientAction::CloseControl);
        proof {
            assert(acts@ =~= seq![ClientAction::CloseControl]);
        }
        acts
    }

    /// The first and only control frame of a data connection: `Accept` for
    /// the identifier the server announced.
    pub fn data_preamble(id: u128) -> (m: Message)
        ensures m@ == MsgView::Accept(id),
    {
        Message::Accept(id)
    }
}

} // verus!
