//! The server side of a control session: a state machine from received
//! events to protocol actions.
//!
//! One task per session owns a [`ServerSession`] and feeds it the messages
//! read from the control channel, clock ticks, and end-of-stream; the shared
//! [`PortRegistry`] and [`PairingTable`] are passed in under the caller's
//! lock. Every handler returns the actions to perform — frames to send,
//! listeners to open, sockets to close — and its contract pins down which.

use vstd::prelude::*;
use crate::auth::{Authenticator, tag_matches};
use crate::codec::Message;
use crate::codec::MsgView;
use crate::fault::Fault;
use crate::fault::reason_of;
use crate::pairing::{PairingTable, Pending};
use crate::ports::PortRegistry;

verus! {

/// Relies on `uuid::Uuid::new_v4` (and `as_u128`): a freshly generated
/// random 128-bit value. Nothing is promised of it; callers treat collisions
/// as possible. `new_v4` aborts if the operating system's random source
/// fails — an environmental failure, independent of any input.
#[verifier::external_body]
pub fn fresh_id() -> u128 {
    uuid::Uuid::new_v4().as_u128()
}

/// Timing policy for one server: all in milliseconds.
#[derive(Clone, Copy, Debug, PartialEq, Eq, Structural)]
pub struct ServerTiming {
    /// How often a heartbeat frame is emitted.
    pub heartbeat_ms: u64,
    /// How long the client may stay silent before the session is dead.
    pub liveness_timeout_ms: u64,
    /// How long a pending pairing may wait for its `Accept`.
    pub pairing_ttl_ms: u64,
}

/// Where a server session stands in the protocol.
#[derive(Clone, Copy, Debug, PartialEq, Eq, Structural)]
pub enum Phase {
    /// Challenge sent; only a valid `Authenticate` moves forward.
    AwaitAuthenticate,
    /// Authenticated (or no secret configured); expecting `Hello`.
    AwaitHello,
    /// Port granted and listener open; relaying begins on pairings.
    Active,
    /// Terminal: the lease is released and all pairings failed.
    Closed,
}

/// One protocol action the caller must carry out, in order.
#[derive(Debug)]
pub enum Action {
    /// Write this frame to the control channel.
    Send(Message),
    /// Bind the public listener on this port.
    OpenListener(u16),
    /// Close the control channel; the session is over.
    CloseControl,
    /// Close the waiting public socket with this token.
    ClosePublic(u64),
}

/// Whether `a` stands somewhere in `s`.
pub open spec fn has_action(s: Seq<Action>, a: Action) -> bool {
    exists|i: int| 0 <= i < s.len() && #[trigger] s[i] == a
}

/// No action in `s` opens a listener or acknowledges a `Hello`: nothing is
/// ever granted by these actions.
pub open spec fn grants_nothing(s: Seq<Action>) -> bool {
    forall|k: int| 0 <= k < s.len() ==> match #[trigger] s[k] {
        Action::OpenListener(_) => false,
        Action::Send(m) => !(m@ matches MsgView::HelloAck(_)),
        _ => true,
    }
}

/// Some action in `s` sends an `Error` frame to the peer.
pub open spec fn sends_error(s: Seq<Action>) -> bool {
    exists|k: int| 0 <= k < s.len() && match #[trigger] s[k] {
        Action::Send(m) => m@ matches MsgView::Error(_),
        _ => false,
    }
}

/// The registries after a session died: its lease is gone, every pairing it
/// owned is gone, and nobody else's state moved.
pub open spec fn released(
    sid: u64,
    reg0: PortRegistry,
    reg1: PortRegistry,
    pt0: PairingTable,
    pt1: PairingTable,
) -> bool {
    &&& forall|p: u16, s: u64| #[trigger] reg1.leased_by(p, s)
        <==> (reg0.leased_by(p, s) && s != sid)
    &&& forall|e: Pending| #[trigger] pt1.has_entry(e)
        <==> (pt0.has_entry(e) && e.session != sid)
}

/// The teardown actions a dying session owes: its control channel is closed
/// and every public socket it kept waiting is closed.
pub open spec fn teardown_actions(sid: u64, pt0: PairingTable, acts: Seq<Action>) -> bool {
    &&& has_action(acts, Action::CloseControl)
    &&& forall|e: Pending| pt0.has_entry(e) && e.session == sid
        ==> #[trigger] has_action(acts, Action::ClosePublic(e.socket))
}

/// Every action in `s` is one the dying session owes: closing a public
/// socket of a pairing it owned, the control close, and — only as the first
/// action, and only where a farewell is owed — one `Error` frame carrying
/// exactly `farewell`'s reason. Nothing else: no other frame, no listener,
/// nobody else's socket.
pub open spec fn only_teardown_actions(
    sid: u64,
    pt0: PairingTable,
    s: Seq<Action>,
    farewell: Option<Seq<u8>>,
) -> bool {
    forall|k: int| 0 <= k < s.len() ==> match #[trigger] s[k] {
        Action::CloseControl => true,
        Action::ClosePublic(sock) => exists|e: Pending|
            #[trigger] pt0.has_entry(e) && e.session == sid && e.socket == sock,
        Action::Send(m) => {
            &&& k == 0
            &&& farewell matches Some(rsn)
            &&& m@ == MsgView::Error(rsn)
        },
        Action::OpenListener(_) => false,
    }
}

/// Neither table changed.
pub open spec fn tables_unchanged(
    reg0: PortRegistry,
    reg1: PortRegistry,
    pt0: PairingTable,
    pt1: PairingTable,
) -> bool {
    reg1 == reg0 && pt1 == pt0
}

/// The server end of one control session.
#[derive(Clone)]
pub struct ServerSession {
    /// Opaque session identity; leases and pairings are keyed by it.
    pub id: u64,
    pub auth: Authenticator,
    pub phase: Phase,
    /// The nonce this session's challenge carried.
    pub nonce: u128,
    /// The granted public port; 0 until assigned.
    pub port: u16,
    /// Last time any frame arrived from the client.
    pub last_activity: u64,
    /// Last time a heartbeat was emitted.
    pub last_beat: u64,
}

impl ServerSession {
    /// An active session has a real port.
    pub open spec fn wf(&self) -> bool {
        self.phase == Phase::Active ==> self.port != 0
    }

    /// The registry holds a lease for this session exactly while it is
    /// active, and then exactly on its granted port.
    pub open spec fn owns_ok(&self, reg: &PortRegistry) -> bool {
        forall|p: u16, s: u64| s == self.id ==> (#[trigger] reg.leased_by(p, s)
            <==> (self.phase == Phase::Active && p == self.port))
    }

    /// What stays fixed over every transition.
    pub open spec fn same_identity(&self, post: &ServerSession) -> bool {
        &&& post.id == self.id
        &&& post.nonce == self.nonce
        &&& post.auth == self.auth
    }

    /// Whether `m` authenticates this session: the right answer to this
    /// session's challenge, under the configured secret.
    pub open spec fn auth_ok(&self, m: MsgView) -> bool {
        &&& m matches MsgView::Authenticate(t)
        &&& self.auth.secret_view() matches Some(sec)
        &&& tag_matches(sec, self.nonce, m->Authenticate_0)
    }

    /// Opens a session for an accepted control connection. With a secret
    /// configured the session challenges with `nonce` and awaits the tag;
    /// without one it skips straight to awaiting `Hello`, an explicit
    /// opt-out.
    pub fn open(id: u64, secret: Option<Vec<u8>>, nonce: u128, now: u64)
        -> (r: (ServerSession, Option<Message>))
        ensures
            r.0.wf(),
            r.0.id == id,
            r.0.nonce == nonce,
            r.0.port == 0,
            r.0.last_activity == now,
            r.0.last_beat == now,
            r.0.auth.enabled() == (secret is Some),
            secret matches Some(sec) ==> {
                &&& r.0.auth.secret_view() == Some(sec@)
                &&& r.0.phase == Phase::AwaitAuthenticate
                &&& r.1 matches Some(m) && m@ == MsgView::Challenge(nonce)
            },
            secret is None ==> {
                &&& r.0.phase == Phase::AwaitHello
                &&& r.1 is None
            },
    {
        let enabled = secret.is_some();
        let auth = Authenticator::new(secret);
        let phase = if enabled { Phase::AwaitAuthenticate } else { Phase::AwaitHello };
        let s = ServerSession {
            id,
            auth,
            phase,
            nonce,
            port: 0,
            last_activity: now,
            last_beat: now,
        };
        if enabled {
            (s, Some(Message::Challenge(nonce)))
        } else {
            (s, None)
        }
    }

    /// Tears the session down: terminal, releases the lease, fails every
    /// pairing this session owns and returns the socket-closing actions.
    fn close_now(&mut self, reg: &mut PortRegistry, pairings: &mut PairingTable)
        -> (acts: Vec<Action>)
        requires
            old(reg).wf(),
            old(pairings).wf(),
        ensures
            final(self).phase == Phase::Closed,
            old(self).same_identity(final(self)),
            final(self).port == old(self).port,
            final(self).last_activity == old(self).last_activity,
            final(self).last_beat == old(self).last_beat,
            final(self).wf(),
            final(reg).wf(),
            final(pairings).wf(),
            final(reg).min_port == old(reg).min_port,
            released(old(self).id, *old(reg), *final(reg), *old(pairings), *final(pairings)),
            final(self).owns_ok(final(reg)),
            teardown_actions(old(self).id, *old(pairings), acts@),
            only_teardown_actions(old(self).id, *old(pairings), acts@, None),
            grants_nothing(acts@),
            !sends_error(acts@),
    {
        self.phase = Phase::Closed;
        let _released_port = reg.release(self.id);
        let failed = pairings.fail_session(self.id);
        let mut acts: Vec<Action> = Vec::new();
        let n = failed.len();
        let mut i: usize = 0;
        while i < n
            invariant
                i <= n,
                n == failed.len(),
                acts@.len() == i,
                forall|j: int| 0 <= j < i
                    ==> #[trigger] acts@[j] == Action::ClosePublic(failed@[j].socket),
            decreases n - i,
        {
            acts.push(Action::ClosePublic(failed[i].socket));
            i = i + 1;
        }
        acts.push(Action::CloseControl);
        proof {
            assert(acts@[n as int] == Action::CloseControl);
            assert(has_action(acts@, Action::CloseControl));
            assert forall|e: Pending| old(pairings).has_entry(e) && e.session == old(self).id
                implies #[trigger] has_action(acts@, Action::ClosePublic(e.socket)) by {
                assert(crate::pairing::contains_pending(failed@, e));
                let k = choose|k: int| 0 <= k < failed@.len() && #[trigger] failed@[k] == e;
                assert(acts@[k] == Action::ClosePublic(e.socket));
            }
            assert forall|k: int| 0 <= k < acts@.len() implies match #[trigger] acts@[k] {
                Action::CloseControl => true,
                Action::ClosePublic(sock) => exists|e: Pending|
                    #[trigger] old(pairings).has_entry(e) && e.session == old(self).id
                        && e.socket == sock,
                Action::Send(_) => false,
                Action::OpenListener(_) => false,
            } by {
                if k < n {
                    let e = failed@[k];
                    assert(acts@[k] == Action::ClosePublic(e.socket));
                    assert(crate::pairing::contains_pending(failed@, e)) by {
                        assert(failed@[k] == e);
                    }
                    assert(old(pairings).has_entry(e) && e.session == old(self).id);
                }
            }
        }
        acts
    }

    /// Reacts to one frame read from the control channel at time `now`.
    ///
    /// - awaiting authentication, a frame that is exactly the valid
    ///   `Authenticate` for this session's challenge moves to awaiting
    ///   `Hello`, silently; anything else is answered with `Error` and the
    ///   session dies, so each challenge is answerable at most once and no
    ///   port is ever granted past a failed authentication;
    /// - awaiting `Hello`, a `Hello` asks the registry for the port
    ///   (0 meaning any): on success the listener is opened, the lease
    ///   recorded and `HelloAck` sent; on refusal `Error` is sent, nothing is
    ///   bound, and the session dies; any other frame is a protocol
    ///   violation and the session dies;
    /// - active, a `Heartbeat` only refreshes the liveness clock; any other
    ///   frame is a protocol violation and the session dies;
    /// - closed, nothing happens.
    pub fn handle_message(
        &mut self,
        reg: &mut PortRegistry,
        pairings: &mut PairingTable,
        msg: &Message,
        now: u64,
    ) -> (acts: Vec<Action>)
        requires
            old(self).wf(),
            old(reg).wf(),
            old(pairings).wf(),
            old(self).owns_ok(old(reg)),
        ensures
            final(self).wf(),
            final(reg).wf(),
            final(pairings).wf(),
            final(self).owns_ok(final(reg)),
            old(self).same_identity(final(self)),
            final(reg).min_port == old(reg).min_port,
            old(self).phase == Phase::AwaitAuthenticate && old(self).auth_ok(msg@) ==> {
                &&& final(self).phase == Phase::AwaitHello
                &&& final(self).port == old(self).port
                &&& final(self).last_activity == now
                &&& final(self).last_beat == old(self).last_beat
                &&& acts@.len() == 0
                &&& tables_unchanged(*old(reg), *final(reg), *old(pairings), *final(pairings))
            },
            old(self).phase == Phase::AwaitAuthenticate && !old(self).auth_ok(msg@) ==> {
                &&& final(self).phase == Phase::Closed
                &&& final(self).port == old(self).port
                &&& final(self).last_activity == now
                &&& final(self).last_beat == old(self).last_beat
                &&& released(old(self).id, *old(reg), *final(reg), *old(pairings),
                    *final(pairings))
                &&& teardown_actions(old(self).id, *old(pairings), acts@)
                &&& only_teardown_actions(old(self).id, *old(pairings), acts@,
                    Some(reason_of(Fault::AuthRejected)))
                &&& acts@[0] matches Action::Send(m)
                    && m@ == MsgView::Error(reason_of(Fault::AuthRejected))
                &&& sends_error(acts@)
                &&& grants_nothing(acts@)
            },
            old(self).phase == Phase::AwaitHello ==> (msg@ matches MsgView::Hello(p) ==> {
                &&& (final(self).phase == Phase::Active || final(self).phase == Phase::Closed)
                &&& final(self).last_activity == now
                &&& final(self).last_beat == old(self).last_beat
                &&& (final(self).phase == Phase::Active ==> {
                    let gp = final(self).port;
                    &&& gp >= old(reg).floor()
                    &&& (p != 0 ==> gp == p)
                    &&& !old(reg).leased(gp)
                    &&& forall|q: u16, s: u64| #[trigger] final(reg).leased_by(q, s)
                        <==> (old(reg).leased_by(q, s) || (q == gp && s == old(self).id))
                    &&& *final(pairings) == *old(pairings)
                    &&& acts@ == seq![
                        Action::OpenListener(gp),
                        Action::Send(Message::HelloAck(gp)),
                    ]
                })
                &&& (final(self).phase == Phase::Closed ==> {
                    &&& (p != 0 ==> (p < old(reg).floor() || old(reg).leased(p)))
                    &&& (p == 0 ==> (forall|q: u16| q >= old(reg).floor()
                        ==> old(reg).leased(q)))
                    &&& final(self).port == old(self).port
                    &&& released(old(self).id, *old(reg), *final(reg), *old(pairings),
                        *final(pairings))
                    &&& teardown_actions(old(self).id, *old(pairings), acts@)
                    &&& only_teardown_actions(old(self).id, *old(pairings), acts@,
                        Some(reason_of(Fault::PortUnavailable)))
                    &&& acts@[0] matches Action::Send(m)
                        && m@ == MsgView::Error(reason_of(Fault::PortUnavailable))
                    &&& sends_error(acts@)
                    &&& grants_nothing(acts@)
                })
            }),
            old(self).phase == Phase::AwaitHello && !(msg@ matches MsgView::Hello(_)) ==> {
                &&& final(self).phase == Phase::Closed
                &&& final(self).port == old(self).port
                &&& final(self).last_activity == now
                &&& final(self).last_beat == old(self).last_beat
                &&& released(old(self).id, *old(reg), *final(reg), *old(pairings),
                    *final(pairings))
                &&& teardown_actions(old(self).id, *old(pairings), acts@)
                &&& only_teardown_actions(old(self).id, *old(pairings), acts@,
                    Some(reason_of(Fault::Malformed)))
                &&& acts@[0] matches Action::Send(m)
                    && m@ == MsgView::Error(reason_of(Fault::Malformed))
                &&& sends_error(acts@)
                &&& grants_nothing(acts@)
            },
            old(self).phase == Phase::Active && msg@ is Heartbeat ==> {
                &&& final(self).phase == Phase::Active
                &&& final(self).port == old(self).port
                &&& final(self).last_activity == now
                &&& final(self).last_beat == old(self).last_beat
                &&& acts@.len() == 0
                &&& tables_unchanged(*old(reg), *final(reg), *old(pairings), *final(pairings))
            },
            old(self).phase == Phase::Active && !(msg@ is Heartbeat) ==> {
                &&& final(self).phase == Phase::Closed
                &&& final(self).port == old(self).port
                &&& final(self).last_activity == now
                &&& final(self).last_beat == old(self).last_beat
                &&& released(old(self).id, *old(reg), *final(reg), *old(pairings),
                    *final(pairings))
                &&& teardown_actions(old(self).id, *old(pairings), acts@)
                &&& only_teardown_actions(old(self).id, *old(pairings), acts@,
                    Some(reason_of(Fault::Malformed)))
                &&& acts@[0] matches Action::Send(m)
                    && m@ == MsgView::Error(reason_of(Fault::Malformed))
                &&& sends_error(acts@)
                &&& grants_nothing(acts@)
            },
            old(self).phase == Phase::Closed ==> {
                &&& *final(self) == *old(self)
                &&& acts@.len() == 0
                &&& tables_unchanged(*old(reg), *final(reg), *old(pairings), *final(pairings))
            },
    {
        match self.phase {
            Phase::AwaitAuthenticate => {
                self.last_activity = now;
                let ok = match msg {
                    Message::Authenticate(tag) => {
                        if self.auth.required() {
                            self.auth.verify_tag(self.nonce, tag)
                        } else {
                            false
                        }
                    }
                    _ => false,
                };
                if ok {
                    self.phase = Phase::AwaitHello;
                    Vec::new()
                } else {
                    self.refuse(reg, pairings, Fault::AuthRejected)
                }
            }
            Phase::AwaitHello => {
                self.last_activity = now;
                match msg {
                    Message::Hello(p) => {
                        let granted = reg.grant(*p, self.id);
                        match granted {
                            Ok(gp) => {
                                self.phase = Phase::Active;
                                self.port = gp;
                                let mut acts: Vec<Action> = Vec::new();
                                acts.push(Action::OpenListener(gp));
                                acts.push(Action::Send(Message::HelloAck(gp)));
                                proof {
                                    assert(acts@ =~= seq![
                                        Action::OpenListener(gp),
                                        Action::Send(Message::HelloAck(gp)),
                                    ]);
                                }
                                acts
                            }
                            Err(_) => self.refuse(reg, pairings, Fault::PortUnavailable),
                        }
                    }
                    _ => self.refuse(reg, pairings, Fault::Malformed),
                }
            }
            Phase::Active => {
                match msg {
                    Message::Heartbeat => {
                        self.last_activity = now;
                        Vec::new()
                    }
                    _ => {
                        self.last_activity = now;
                        self.refuse(reg, pairings, Fault::Malformed)
                    }
                }
            }
            Phase::Closed => Vec::new(),
        }
    }

    /// Answers with `Error` and tears the session down.
    fn refuse(&mut self, reg: &mut PortRegistry, pairings: &mut PairingTable, why: Fault)
        -> (acts: Vec<Action>)
        requires
            old(reg).wf(),
            old(pairings).wf(),
        ensures
            final(self).phase == Phase::Closed,
            old(self).same_identity(final(self)),
            final(self).port == old(self).port,
            final(self).last_activity == old(self).last_activity,
            final(self).last_beat == old(self).last_beat,
            final(self).wf(),
            final(reg).wf(),
            final(pairings).wf(),
            final(reg).min_port == old(reg).min_port,
            released(old(self).id, *old(reg), *final(reg), *old(pairings), *final(pairings)),
            final(self).owns_ok(final(reg)),
            teardown_actions(old(self).id, *old(pairings), acts@),
            only_teardown_actions(old(self).id, *old(pairings), acts@,
                Some(reason_of(why))),
            acts@.len() >= 2,
            acts@[0] matches Action::Send(m) && m@ == MsgView::Error(reason_of(why)),
            sends_error(acts@),
            grants_nothing(acts@),
    {
        let reason = why.reason_bytes();
        let mut acts: Vec<Action> = Vec::new();
        acts.push(Action::Send(Message::Error(reason)));
        let ghost first = acts@[0];
        let mut rest = self.close_now(reg, pairings);
        let ghost rest0 = rest@;
        crate::server::append_actions(&mut acts, &mut rest);
        proof {
            assert(acts@[0] == first);
            assert(sends_error(acts@));
            assert forall|e: Pending| old(pairings).has_entry(e) && e.session == old(self).id
                implies #[trigger] has_action(acts@, Action::ClosePublic(e.socket)) by {
                assert(has_action(rest0, Action::ClosePublic(e.socket)));
                let k = choose|k: int| 0 <= k < rest0.len()
                    && #[trigger] rest0[k] == Action::ClosePublic(e.socket);
                assert(acts@[1 + k] == Action::ClosePublic(e.socket));
            }
            assert(has_action(acts@, Action::CloseControl)) by {
                let k = choose|k: int| 0 <= k < rest0.len()
                    && #[trigger] rest0[k] == Action::CloseControl;
                assert(acts@[1 + k] == Action::CloseControl);
            }
            assert forall|k: int| 0 <= k < acts@.len() implies match #[trigger] acts@[k] {
                Action::OpenListener(_) => false,
                Action::Send(m) => !(m@ matches MsgView::HelloAck(_)),
                _ => true,
            } by {
                if k >= 1 {
                    assert(acts@[k] == rest0[k - 1]);
                }
            }
            assert forall|k: int| 0 <= k < acts@.len() implies match #[trigger] acts@[k] {
                Action::CloseControl => true,
                Action::ClosePublic(sock) => exists|e: Pending|
                    #[trigger] old(pairings).has_entry(e) && e.session == old(self).id
                        && e.socket == sock,
                Action::Send(m) => {
                    &&& k == 0
                    &&& m@ == MsgView::Error(reason_of(why))
                },
                Action::OpenListener(_) => false,
            } by {
                if k >= 1 {
                    assert(acts@[k] == rest0[k - 1]);
                }
            }
        }
        acts
    }

    /// A public connection was accepted on this session's leased port at
    /// time `now`: registers the pairing under `id` and announces it, or —
    /// if the identifier is unexpectedly already taken — refuses the socket.
    pub fn handle_public_accepted(
        &self,
        pairings: &mut PairingTable,
        id: u128,
        socket: u64,
        now: u64,
    ) -> (acts: Vec<Action>)
        requires
            old(pairings).wf(),
            self.phase == Phase::Active,
        ensures
            final(pairings).wf(),
            !old(pairings).has_id(id) ==> {
                &&& forall|e: Pending| final(pairings).has_entry(e)
                    <==> (old(pairings).has_entry(e)
                        || e == (Pending { id, session: self.id, socket, created: now }))
                &&& acts@ == seq![Action::Send(Message::Connect(id))]
            },
            old(pairings).has_id(id) ==> {
                &&& *final(pairings) == *old(pairings)
                &&& acts@ == seq![Action::ClosePublic(socket)]
            },
    {
        let mut acts: Vec<Action> = Vec::new();
        if pairings.contains(id) {
            acts.push(Action::ClosePublic(socket));
            proof {
                assert(acts@ =~= seq![Action::ClosePublic(socket)]);
            }
        } else {
            pairings.insert(Pending { id, session: self.id, socket, created: now });
            acts.push(Action::Send(Message::Connect(id)));
            proof {
                assert(acts@ =~= seq![Action::Send(Message::Connect(id))]);
            }
        }
        acts
    }

    /// A public connection was accepted: draws a fresh random identifier
    /// and registers the pairing under it. Whatever identifier came back,
    /// either it was free and the pairing now waits under it, announced by
    /// `Connect`, or it collided with a waiting one and the new socket is
    /// refused instead of ever resolving a pairing twice.
    pub fn accept_public(&self, pairings: &mut PairingTable, socket: u64, now: u64)
        -> (acts: Vec<Action>)
        requires
            old(pairings).wf(),
            self.phase == Phase::Active,
        ensures
            final(pairings).wf(),
            acts@.len() == 1,
            acts@[0] is Send || acts@[0] is ClosePublic,
            acts@[0] matches Action::Send(m) ==> {
                &&& m@ matches MsgView::Connect(id)
                &&& !old(pairings).has_id(id)
                &&& forall|e: Pending| final(pairings).has_entry(e)
                    <==> (old(pairings).has_entry(e)
                        || e == (Pending { id, session: self.id, socket, created: now }))
            },
            acts@[0] matches Action::ClosePublic(s2) ==> {
                &&& s2 == socket
                &&& *final(pairings) == *old(pairings)
            },
    {
        let id = fresh_id();
        self.handle_public_accepted(pairings, id, socket, now)
    }

    /// The control channel reached end-of-stream or failed: the session is
    /// lost and torn down without a farewell frame.
    pub fn handle_eof(&mut self, reg: &mut PortRegistry, pairings: &mut PairingTable)
        -> (acts: Vec<Action>)
        requires
            old(reg).wf(),
            old(pairings).wf(),
        ensures
            final(self).phase == Phase::Closed,
            old(self).same_identity(final(self)),
            final(self).port == old(self).port,
            final(self).last_activity == old(self).last_activity,
            final(self).last_beat == old(self).last_beat,
            final(self).wf(),
            final(reg).wf(),
            final(pairings).wf(),
            final(reg).min_port == old(reg).min_port,
            released(old(self).id, *old(reg), *final(reg), *old(pairings), *final(pairings)),
            final(self).owns_ok(final(reg)),
            teardown_actions(old(self).id, *old(pairings), acts@),
            only_teardown_actions(old(self).id, *old(pairings), acts@, None),
            grants_nothing(acts@),
            !sends_error(acts@),
    {
        self.close_now(reg, pairings)
    }

    /// The clock ticked. Prolonged silence from the client kills the
    /// session; otherwise a heartbeat is emitted whenever its interval has
    /// passed, traffic or not.
    pub fn handle_tick(
        &mut self,
        reg: &mut PortRegistry,
        pairings: &mut PairingTable,
        timing: &ServerTiming,
        now: u64,
    ) -> (acts: Vec<Action>)
        requires
            old(self).wf(),
            old(reg).wf(),
            old(pairings).wf(),
            old(self).owns_ok(old(reg)),
        ensures
            final(self).wf(),
            final(reg).wf(),
            final(pairings).wf(),
            final(self).owns_ok(final(reg)),
            old(self).same_identity(final(self)),
            final(reg).min_port == old(reg).min_port,
            old(self).phase == Phase::Closed ==> {
                &&& *final(self) == *old(self)
                &&& acts@.len() == 0
                &&& tables_unchanged(*old(reg), *final(reg), *old(pairings), *final(pairings))
            },
            old(self).phase != Phase::Closed
                && now >= old(self).last_activity + timing.liveness_timeout_ms ==> {
                &&& final(self).phase == Phase::Closed
                &&& final(self).port == old(self).port
                &&& final(self).last_activity == old(self).last_activity
                &&& final(self).last_beat == old(self).last_beat
                &&& released(old(self).id, *old(reg), *final(reg), *old(pairings),
                    *final(pairings))
                &&& teardown_actions(old(self).id, *old(pairings), acts@)
                &&& only_teardown_actions(old(self).id, *old(pairings), acts@, None)
                &&& grants_nothing(acts@)
                &&& !sends_error(acts@)
            },
            old(self).phase != Phase::Closed
                && now < old(self).last_activity + timing.liveness_timeout_ms ==> {
                &&& final(self).phase == old(self).phase
                &&& final(self).port == old(self).port
                &&& final(self).last_activity == old(self).last_activity
                &&& tables_unchanged(*old(reg), *final(reg), *old(pairings), *final(pairings))
                &&& (now >= old(self).last_beat + timing.heartbeat_ms ==> {
                    &&& final(self).last_beat == now
                    &&& acts@ == seq![Action::Send(Message::Heartbeat)]
                })
                &&& (now < old(self).last_beat + timing.heartbeat_ms ==> {
                    &&& final(self).last_beat == old(self).last_beat
                    &&& acts@.len() == 0
                })
            },
    {
        if let Phase::Closed = self.phase {
            return Vec::new();
        }
        if self.last_activity <= now && now - self.last_activity >= timing.liveness_timeout_ms
        {
            return self.close_now(reg, pairings);
        }
        if self.last_beat <= now && now - self.last_beat >= timing.heartbeat_ms {
            self.last_beat = now;
            let mut acts: Vec<Action> = Vec::new();
            acts.push(Action::Send(Message::Heartbeat));
            proof {
                assert(acts@ =~= seq![Action::Send(Message::Heartbeat)]);
            }
            return acts;
        }
        Vec::new()
    }
}

/// A fresh inbound connection's first frame decides its fate: only an
/// `Accept` naming a waiting pairing claims the public socket, exactly once;
/// everything else — a consumed, expired or unknown identifier, or any other
/// first frame — is refused.
pub fn accept_data_connection(pairings: &mut PairingTable, first: &Message)
    -> (r: Option<u64>)
    requires old(pairings).wf(),
    ensures
        final(pairings).wf(),
        first@ matches MsgView::Accept(id) ==> match r {
            Some(socket) => {
                &&& exists|e: Pending| old(pairings).has_entry(e) && #[trigger] e.id == id
                    && e.socket == socket
                &&& !final(pairings).has_id(id)
                &&& forall|e: Pending| final(pairings).has_entry(e)
                    <==> (old(pairings).has_entry(e) && e.id != id)
            },
            None => {
                &&& !old(pairings).has_id(id)
                &&& *final(pairings) == *old(pairings)
            },
        },
        !(first@ matches MsgView::Accept(_)) ==> {
            r is None && *final(pairings) == *old(pairings)
        },
{
    match first {
        Message::Accept(id) => {
            match pairings.claim(*id) {
                Some(e) => {
                    proof {
                        assert(old(pairings).has_entry(e) && e.id == *id
                            && e.socket == e.socket);
                    }
                    Some(e.socket)
                }
                None => None,
            }
        }
        _ => None,
    }
}

/// Sweeps the pairing table at time `now`: every pairing older than `ttl`
/// is removed — traffic or not — and owes the caller the closing of its
/// public socket, before any relay ever started on it.
pub fn expire_pairings(pairings: &mut PairingTable, now: u64, ttl: u64) -> (acts: Vec<Action>)
    requires old(pairings).wf(),
    ensures
        final(pairings).wf(),
        forall|e: Pending|
            #![trigger final(pairings).has_entry(e)]
            #![trigger old(pairings).has_entry(e)]
            final(pairings).has_entry(e)
                <==> (old(pairings).has_entry(e) && !crate::pairing::pairing_expired(e, now, ttl)),
        forall|e: Pending| old(pairings).has_entry(e)
            && crate::pairing::pairing_expired(e, now, ttl)
            ==> #[trigger] has_action(acts@, Action::ClosePublic(e.socket)),
        forall|k: int| 0 <= k < acts@.len() ==> match #[trigger] acts@[k] {
            Action::ClosePublic(sock) => exists|e: Pending|
                #[trigger] old(pairings).has_entry(e)
                    && crate::pairing::pairing_expired(e, now, ttl) && e.socket == sock,
            _ => false,
        },
{
    let gone = pairings.expire(now, ttl);
    let mut acts: Vec<Action> = Vec::new();
    let n = gone.len();
    let mut i: usize = 0;
    while i < n
        invariant
            i <= n,
            n == gone.len(),
            acts@.len() == i,
            forall|j: int| 0 <= j < i
                ==> #[trigger] acts@[j] == Action::ClosePublic(gone@[j].socket),
        decreases n - i,
    {
        acts.push(Action::ClosePublic(gone[i].socket));
        i = i + 1;
    }
    proof {
        assert forall|e: Pending| old(pairings).has_entry(e)
            && crate::pairing::pairing_expired(e, now, ttl)
            implies #[trigger] has_action(acts@, Action::ClosePublic(e.socket)) by {
            assert(crate::pairing::contains_pending(gone@, e));
            let k = choose|k: int| 0 <= k < gone@.len() && #[trigger] gone@[k] == e;
            assert(acts@[k] == Action::ClosePublic(e.socket));
        }
        assert forall|k: int| 0 <= k < acts@.len() implies match #[trigger] acts@[k] {
            Action::ClosePublic(sock) => exists|e: Pending|
                #[trigger] old(pairings).has_entry(e)
                    && crate::pairing::pairing_expired(e, now, ttl) && e.socket == sock,
            _ => false,
        } by {
            let e = gone@[k];
            assert(acts@[k] == Action::ClosePublic(e.socket));
            assert(crate::pairing::contains_pending(gone@, e)) by {
                assert(gone@[k] == e);
            }
            assert(old(pairings).has_entry(e)
                && crate::pairing::pairing_expired(e, now, ttl));
        }
    }
    acts
}

/// Law: a teardown emits no frame beyond its farewell: of everything a
/// dying session does, the only message ever sent is the one `Error`
/// carrying the owed reason — never a `Challenge`, a `HelloAck` or anything
/// else. The only challenge a server ever sends is the one `open` issues,
/// and it issues one exactly when a secret is configured.
pub proof fn lemma_teardown_sends_only_farewell(
    sid: u64,
    pt0: PairingTable,
    s: Seq<Action>,
    farewell: Option<Seq<u8>>,
)
    requires only_teardown_actions(sid, pt0, s, farewell),
    ensures forall|k: int| 0 <= k < s.len()
        ==> (#[trigger] s[k] matches Action::Send(m)
            ==> (farewell matches Some(rsn) && m@ == MsgView::Error(rsn))),
{
}

/// Law: a closed-down session frees its resources at once: the public port
/// it held is leased by nobody — immediately grantable again — and no
/// pairing it owned survives.
pub proof fn lemma_close_frees_resources(
    sid: u64,
    port: u16,
    reg0: PortRegistry,
    reg1: PortRegistry,
    pt0: PairingTable,
    pt1: PairingTable,
)
    requires
        reg0.wf(),
        reg0.leased_by(port, sid),
        released(sid, reg0, reg1, pt0, pt1),
    ensures
        !reg1.leased(port),
        forall|e: Pending| e.session == sid ==> !pt1.has_entry(e),
{
    if reg1.leased(port) {
        let s2 = choose|s2: u64| reg1.leased_by(port, s2);
        assert(reg0.leased_by(port, s2) && s2 != sid);
        let i = choose|i: int| 0 <= i < reg0.leases@.len()
            && #[trigger] reg0.leases@[i] == (crate::ports::Lease { port, session: s2 });
        let j = choose|j: int| 0 <= j < reg0.leases@.len()
            && #[trigger] reg0.leases@[j] == (crate::ports::Lease { port, session: sid });
        assert(i != j);
        assert(reg0.leases@[i].port == reg0.leases@[j].port);
        assert(false);
    }
    assert forall|e: Pending| e.session == sid implies !pt1.has_entry(e) by {
        if pt1.has_entry(e) {
            assert(pt0.has_entry(e) && e.session != sid);
        }
    }
}

/// Moves every action of `extra` to the back of `out`, in order.
fn append_actions(out: &mut Vec<Action>, extra: &mut Vec<Action>)
    ensures
        final(out)@ == old(out)@ + old(extra)@,
{
    let n = extra.len();
    let mut i: usize = 0;
    while i < n
        invariant
            i <= n,
            n == old(extra)@.len(),
            extra@ == old(extra)@.skip(i as int),
            out@ == old(out)@ + old(extra)@.take(i as int),
        decreases n - i,
    {
        let a = extra.remove(0);
        proof {
            assert(a == old(extra)@[i as int]);
            assert(extra@ =~= old(extra)@.skip(i as int + 1));
        }
        out.push(a);
        proof {
            assert(out@ =~= old(out)@ + old(extra)@.take(i as int + 1));
        }
        i = i + 1;
    }
    proof {
        assert(old(extra)@.take(n as int) =~= old(extra)@);
    }
}

} // verus!
