//! The server's port registry: which public port is leased to which control
//! session.
//!
//! At most one lease per port and one per session at any time; every granted
//! port is nonzero and at or above the configured minimum. A request for
//! port 0 means "any free port at or above the minimum". A refused request
//! leaves the registry exactly as it was, so no listener is ever bound for
//! it.

use vstd::prelude::*;
use crate::fault::Fault;

verus! {

/// One granted lease: a public port owned by one control session.
#[derive(Clone, Copy, Debug, PartialEq, Eq, Structural)]
pub struct Lease {
    pub port: u16,
    pub session: u64,
}

/// Whether `(port, session)` stands somewhere in `s`.
pub open spec fn contains_lease(s: Seq<Lease>, port: u16, session: u64) -> bool {
    exists|i: int| 0 <= i < s.len() && #[trigger] s[i] == (Lease { port, session })
}

pub struct PortRegistry {
    pub min_port: u16,
    pub leases: Vec<Lease>,
}

impl PortRegistry {
    /// Port `p` is leased to session `s`.
    pub open spec fn leased_by(&self, p: u16, s: u64) -> bool {
        contains_lease(self.leases@, p, s)
    }

    /// Port `p` is leased to someone.
    pub open spec fn leased(&self, p: u16) -> bool {
        exists|s: u64| self.leased_by(p, s)
    }

    /// Session `s` holds some lease.
    pub open spec fn session_holds(&self, s: u64) -> bool {
        exists|p: u16| self.leased_by(p, s)
    }

    /// Lowest port this registry will ever grant (the configured minimum,
    /// but never port 0).
    pub open spec fn floor(&self) -> u16 {
        if self.min_port >= 1 { self.min_port } else { 1 }
    }

    /// Ports are unique, sessions are unique, and every lease respects the
    /// floor.
    pub open spec fn wf(&self) -> bool {
        &&& forall|i: int, j: int| 0 <= i < j < self.leases@.len()
            ==> #[trigger] self.leases@[i].port != #[trigger] self.leases@[j].port
        &&& forall|i: int, j: int| 0 <= i < j < self.leases@.len()
            ==> #[trigger] self.leases@[i].session != #[trigger] self.leases@[j].session
        &&& forall|i: int| 0 <= i < self.leases@.len()
            ==> #[trigger] self.leases@[i].port >= self.floor()
    }

    pub fn new(min_port: u16) -> (r: PortRegistry)
        ensures
            r.wf(),
            r.min_port == min_port,
            forall|p: u16, s: u64| !r.leased_by(p, s),
    {
        PortRegistry { min_port, leases: Vec::new() }
    }

    /// Whether `p` is currently leased.
    pub fn is_leased(&self, p: u16) -> (r: bool)
        ensures r == self.leased(p),
    {
        let n = self.leases.len();
        let mut i: usize = 0;
        while i < n
            invariant
                i <= n,
                n == self.leases.len(),
                forall|k: int| 0 <= k < i ==> #[trigger] self.leases@[k].port != p,
            decreases n - i,
        {
            if self.leases[i].port == p {
                proof {
                    let l = self.leases@[i as int];
                    assert(self.leases@[i as int] == (Lease { port: p, session: l.session }));
                    assert(self.leased_by(p, l.session));
                }
                return true;
            }
            i = i + 1;
        }
        proof {
            if self.leased(p) {
                let s = choose|s: u64| self.leased_by(p, s);
                let k = choose|k: int| 0 <= k < self.leases@.len()
                    && #[trigger] self.leases@[k] == (Lease { port: p, session: s });
                assert(self.leases@[k].port == p);
                assert(false);
            }
        }
        false
    }

    /// Grants `requested` (or any free port, for 0) to `session`.
    ///
    /// Refusal reports [`Fault::PortUnavailable`] and changes nothing, so the
    /// caller binds a listener only on success.
    pub fn grant(&mut self, requested: u16, session: u64) -> (r: Result<u16, Fault>)
        requires
            old(self).wf(),
            !old(self).session_holds(session),
        ensures
            final(self).wf(),
            final(self).min_port == old(self).min_port,
            match r {
                Ok(p) => {
                    &&& p >= old(self).floor()
                    &&& requested != 0 ==> p == requested
                    &&& !old(self).leased(p)
                    &&& forall|q: u16, s: u64| final(self).leased_by(q, s)
                        <==> (old(self).leased_by(q, s) || (q == p && s == session))
                },
                Err(e) => {
                    &&& e == Fault::PortUnavailable
                    &&& *final(self) == *old(self)
                    &&& requested != 0 ==> (requested < old(self).floor() || old(self).leased(requested))
                    &&& requested == 0 ==> (forall|q: u16| q >= old(self).floor() ==> old(self).leased(q))
                },
            },
    {
        let floor = if self.min_port >= 1 { self.min_port } else { 1 };
        if requested != 0 {
            if requested < floor {
                return Err(Fault::PortUnavailable);
            }
            if self.is_leased(requested) {
                return Err(Fault::PortUnavailable);
            }
            self.push_lease(requested, session);
            Ok(requested)
        } else {
            let mut p: u32 = floor as u32;
            while p <= 65535
                invariant
                    requested == 0,
                    floor == old(self).floor(),
                    floor as u32 <= p <= 65536,
                    *self == *old(self),
                    old(self).wf(),
                    !old(self).session_holds(session),
                    forall|q: u16| floor <= q < p ==> old(self).leased(q),
                decreases 65536 - p,
            {
                let cand: u16 = p as u16;
                if !self.is_leased(cand) {
                    self.push_lease(cand, session);
                    return Ok(cand);
                }
                p = p + 1;
            }
            Err(Fault::PortUnavailable)
        }
    }

    /// Appends a fresh lease; the registry-level effect of a grant.
    fn push_lease(&mut self, p: u16, session: u64)
        requires
            old(self).wf(),
            p >= old(self).floor(),
            !old(self).leased(p),
            !old(self).session_holds(session),
        ensures
            final(self).wf(),
            final(self).min_port == old(self).min_port,
            final(self).leases@ == old(self).leases@.push(Lease { port: p, session }),
            forall|q: u16, s: u64| final(self).leased_by(q, s)
                <==> (old(self).leased_by(q, s) || (q == p && s == session)),
    {
        proof {
            let pre = self.leases@;
            assert forall|i: int| 0 <= i < pre.len() implies #[trigger] pre[i].port != p by {
                if pre[i].port == p {
                    assert(pre[i] == (Lease { port: p, session: pre[i].session }));
                    assert(self.leased_by(p, pre[i].session));
                }
            }
            assert forall|i: int| 0 <= i < pre.len() implies #[trigger] pre[i].session != session by {
                if pre[i].session == session {
                    assert(pre[i] == (Lease { port: pre[i].port, session }));
                    assert(self.leased_by(pre[i].port, session));
                }
            }
        }
        self.leases.push(Lease { port: p, session });
        proof {
            let pre = old(self).leases@;
            let post = self.leases@;
            assert forall|q: u16, s: u64| self.leased_by(q, s)
                implies (old(self).leased_by(q, s) || (q == p && s == session)) by {
                let i = choose|i: int| 0 <= i < post.len()
                    && #[trigger] post[i] == (Lease { port: q, session: s });
                if i < pre.len() {
                    assert(pre[i] == (Lease { port: q, session: s }));
                }
            }
            assert forall|q: u16, s: u64|
                (old(self).leased_by(q, s) || (q == p && s == session))
                implies self.leased_by(q, s) by {
                if old(self).leased_by(q, s) {
                    let i = choose|i: int| 0 <= i < pre.len()
                        && #[trigger] pre[i] == (Lease { port: q, session: s });
                    assert(post[i] == (Lease { port: q, session: s }));
                } else {
                    assert(post[pre.len() as int] == (Lease { port: q, session: s }));
                }
            }
        }
    }

    /// Drops whatever lease `session` holds, returning its port.
    ///
    /// Afterwards the session holds nothing and its former port is free to
    /// lease again; every other lease is untouched.
    pub fn release(&mut self, session: u64) -> (r: Option<u16>)
        requires old(self).wf(),
        ensures
            final(self).wf(),
            final(self).min_port == old(self).min_port,
            forall|q: u16, s: u64| final(self).leased_by(q, s)
                <==> (old(self).leased_by(q, s) && s != session),
            match r {
                Some(p) => old(self).leased_by(p, session),
                None => !old(self).session_holds(session),
            },
    {
        let n = self.leases.len();
        let mut i: usize = 0;
        while i < n
            invariant
                i <= n,
                n == self.leases.len(),
                *self == *old(self),
                old(self).wf(),
                forall|k: int| 0 <= k < i ==> #[trigger] self.leases@[k].session != session,
            decreases n - i,
        {
            if self.leases[i].session == session {
                let p = self.leases[i].port;
                proof {
                    assert(self.leases@[i as int] == (Lease { port: p, session }));
                    assert(self.leased_by(p, session));
                }
                let ghost pre = self.leases@;
                self.leases.remove(i);
                proof {
                    let post = self.leases@;
                    assert(post == pre.remove(i as int));
                    assert forall|q: u16, s: u64| self.leased_by(q, s)
                        implies (old(self).leased_by(q, s) && s != session) by {
                        let k = choose|k: int| 0 <= k < post.len()
                            && #[trigger] post[k] == (Lease { port: q, session: s });
                        let k0 = if k < i as int { k } else { k + 1 };
                        assert(pre[k0] == (Lease { port: q, session: s }));
                        if s == session && k0 != i as int {
                            assert(pre[i as int].session == pre[k0].session);
                            assert(false);
                        }
                    }
                    assert forall|q: u16, s: u64|
                        (old(self).leased_by(q, s) && s != session)
                        implies self.leased_by(q, s) by {
                        let k0 = choose|k0: int| 0 <= k0 < pre.len()
                            && #[trigger] pre[k0] == (Lease { port: q, session: s });
                        if k0 < i as int {
                            assert(post[k0] == (Lease { port: q, session: s }));
                        } else {
                            assert(post[k0 - 1] == (Lease { port: q, session: s }));
                        }
                    }
                }
                return Some(p);
            }
            i = i + 1;
        }
        proof {
            if self.session_holds(session) {
                let p = choose|p: u16| self.leased_by(p, session);
                let k = choose|k: int| 0 <= k < self.leases@.len()
                    && #[trigger] self.leases@[k] == (Lease { port: p, session });
                assert(self.leases@[k].session == session);
                assert(false);
            }
        }
        None
    }
}

} // verus!
