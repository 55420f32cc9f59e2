//! The pending-pairing table: public-side sockets waiting, keyed by
//! connection identifier, for the client's matching data connection.
//!
//! An entry is removed exactly once — claimed by the first matching
//! `Accept`, expired by the timeout, or failed with its owning session — and
//! an identifier matches at most one claim: claiming it removes it, so a
//! racing second claim of the same identifier finds nothing.

use vstd::prelude::*;

verus! {

/// One waiting public connection: its identifier, the control session that
/// announced it, an opaque socket token the caller maps to the live socket,
/// and when it was created.
#[derive(Clone, Copy, Debug, PartialEq, Eq, Structural)]
pub struct Pending {
    pub id: u128,
    pub session: u64,
    pub socket: u64,
    pub created: u64,
}

/// Whether `e` stands somewhere in `s`.
pub open spec fn contains_pending(s: Seq<Pending>, e: Pending) -> bool {
    exists|i: int| 0 <= i < s.len() && #[trigger] s[i] == e
}

/// An entry is expired at `now` once `ttl` has passed since its creation.
pub open spec fn pairing_expired(e: Pending, now: u64, ttl: u64) -> bool {
    now >= e.created + ttl
}

/// What a sweep removes entries by.
enum Sweep {
    /// Entries older than `ttl` at `now`.
    Expired { now: u64, ttl: u64 },
    /// Entries owned by a closing session.
    Owned { session: u64 },
}

/// Whether the sweep `c` removes `e`.
spec fn swept(c: Sweep, e: Pending) -> bool {
    match c {
        Sweep::Expired { now, ttl } => pairing_expired(e, now, ttl),
        Sweep::Owned { session } => e.session == session,
    }
}

pub struct PairingTable {
    pub entries: Vec<Pending>,
}

impl PairingTable {
    /// Entry `e` is waiting.
    pub open spec fn has_entry(&self, e: Pending) -> bool {
        contains_pending(self.entries@, e)
    }

    /// Some entry with identifier `id` is waiting.
    pub open spec fn has_id(&self, id: u128) -> bool {
        exists|e: Pending| self.has_entry(e) && #[trigger] e.id == id
    }

    /// Identifiers are unique across the table.
    pub open spec fn wf(&self) -> bool {
        forall|i: int, j: int| 0 <= i < j < self.entries@.len()
            ==> #[trigger] self.entries@[i].id != #[trigger] self.entries@[j].id
    }

    pub fn new() -> (r: PairingTable)
        ensures
            r.wf(),
            forall|e: Pending| !r.has_entry(e),
            forall|id: u128| !r.has_id(id),
    {
        PairingTable { entries: Vec::new() }
    }

    /// Whether `id` is waiting.
    pub fn contains(&self, id: u128) -> (r: bool)
        ensures r == self.has_id(id),
    {
        let n = self.entries.len();
        let mut i: usize = 0;
        while i < n
            invariant
                i <= n,
                n == self.entries.len(),
                forall|k: int| 0 <= k < i ==> #[trigger] self.entries@[k].id != id,
            decreases n - i,
        {
            if self.entries[i].id == id {
                proof {
                    assert(self.has_entry(self.entries@[i as int]));
                }
                return true;
            }
            i = i + 1;
        }
        proof {
            if self.has_id(id) {
                let e = choose|e: Pending| self.has_entry(e) && #[trigger] e.id == id;
                let k = choose|k: int| 0 <= k < self.entries@.len()
                    && #[trigger] self.entries@[k] == e;
                assert(self.entries@[k].id == id);
                assert(false);
            }
        }
        false
    }

    /// Registers a fresh waiting connection.
    pub fn insert(&mut self, e: Pending)
        requires
            old(self).wf(),
            !old(self).has_id(e.id),
        ensures
            final(self).wf(),
            forall|e2: Pending| final(self).has_entry(e2)
                <==> (old(self).has_entry(e2) || e2 == e),
            forall|id: u128| final(self).has_id(id)
                <==> (old(self).has_id(id) || id == e.id),
    {
        proof {
            let pre = self.entries@;
            assert forall|i: int| 0 <= i < pre.len() implies #[trigger] pre[i].id != e.id by {
                if pre[i].id == e.id {
                    assert(self.has_entry(pre[i]));
                }
            }
        }
        self.entries.push(e);
        proof {
            let pre = old(self).entries@;
            let post = self.entries@;
            assert forall|e2: Pending| self.has_entry(e2)
                implies (old(self).has_entry(e2) || e2 == e) by {
                let i = choose|i: int| 0 <= i < post.len() && #[trigger] post[i] == e2;
                if i < pre.len() {
                    assert(pre[i] == e2);
                }
            }
            assert forall|e2: Pending| (old(self).has_entry(e2) || e2 == e)
                implies self.has_entry(e2) by {
                if old(self).has_entry(e2) {
                    let i = choose|i: int| 0 <= i < pre.len() && #[trigger] pre[i] == e2;
                    assert(post[i] == e2);
                } else {
                    assert(post[pre.len() as int] == e2);
                }
            }
            assert forall|id: u128| final(self).has_id(id)
                implies (old(self).has_id(id) || id == e.id) by {
                let e2 = choose|e2: Pending| self.has_entry(e2) && #[trigger] e2.id == id;
            }
            assert forall|id: u128| (old(self).has_id(id) || id == e.id)
                implies final(self).has_id(id) by {
                if old(self).has_id(id) {
                    let e2 = choose|e2: Pending| old(self).has_entry(e2) && #[trigger] e2.id == id;
                    assert(self.has_entry(e2));
                } else {
                    assert(self.has_entry(e));
                }
            }
        }
    }

    /// Hands over the waiting connection for `id`, if any, removing it: the
    /// first claim wins and any later claim of the same identifier finds
    /// nothing.
    pub fn claim(&mut self, id: u128) -> (r: Option<Pending>)
        requires old(self).wf(),
        ensures
            final(self).wf(),
            match r {
                Some(e) => {
                    &&& e.id == id
                    &&& old(self).has_entry(e)
                    &&& !final(self).has_id(id)
                    &&& forall|e2: Pending| final(self).has_entry(e2)
                        <==> (old(self).has_entry(e2) && e2.id != id)
                },
                None => {
                    &&& !old(self).has_id(id)
                    &&& *final(self) == *old(self)
                },
            },
    {
        let n = self.entries.len();
        let mut i: usize = 0;
        while i < n
            invariant
                i <= n,
                n == self.entries.len(),
                *self == *old(self),
                old(self).wf(),
                forall|k: int| 0 <= k < i ==> #[trigger] self.entries@[k].id != id,
            decreases n - i,
        {
            if self.entries[i].id == id {
                let e = self.entries[i];
                proof {
                    assert(self.has_entry(self.entries@[i as int]));
                }
                let ghost pre = self.entries@;
                self.entries.remove(i);
                proof {
                    let post = self.entries@;
                    assert forall|e2: Pending| self.has_entry(e2)
                        implies (old(self).has_entry(e2) && e2.id != id) by {
                        let k = choose|k: int| 0 <= k < post.len() && #[trigger] post[k] == e2;
                        let k0 = if k < i as int { k } else { k + 1 };
                        assert(pre[k0] == e2);
                        if e2.id == id && k0 != i as int {
                            assert(pre[i as int].id == pre[k0].id);
                            assert(false);
                        }
                    }
                    assert forall|e2: Pending| (old(self).has_entry(e2) && e2.id != id)
                        implies self.has_entry(e2) by {
                        let k0 = choose|k0: int| 0 <= k0 < pre.len() && #[trigger] pre[k0] == e2;
                        if k0 < i as int {
                            assert(post[k0] == e2);
                        } else {
                            assert(post[k0 - 1] == e2);
                        }
                    }
                    if self.has_id(id) {
                        let e2 = choose|e2: Pending| self.has_entry(e2) && #[trigger] e2.id == id;
                        assert(false);
                    }
                }
                return Some(e);
            }
            i = i + 1;
        }
        proof {
            if self.has_id(id) {
                let e = choose|e: Pending| self.has_entry(e) && #[trigger] e.id == id;
                let k = choose|k: int| 0 <= k < self.entries@.len()
                    && #[trigger] self.entries@[k] == e;
                assert(self.entries@[k].id == id);
                assert(false);
            }
        }
        None
    }

    /// Removes and returns every entry older than `ttl` at `now`, whether or
    /// not any traffic arrives: the caller closes their public sockets.
    pub fn expire(&mut self, now: u64, ttl: u64) -> (r: Vec<Pending>)
        requires old(self).wf(),
        ensures
            final(self).wf(),
            forall|e: Pending|
                #![trigger final(self).has_entry(e)]
                #![trigger old(self).has_entry(e)]
                final(self).has_entry(e)
                    <==> (old(self).has_entry(e) && !pairing_expired(e, now, ttl)),
            forall|e: Pending|
                #![trigger contains_pending(r@, e)]
                #![trigger old(self).has_entry(e)]
                contains_pending(r@, e)
                    <==> (old(self).has_entry(e) && pairing_expired(e, now, ttl)),
    {
        self.sweep(Sweep::Expired { now, ttl })
    }

    /// Removes and returns every entry a closing session owns: the caller
    /// closes their public sockets, failing those pairings.
    pub fn fail_session(&mut self, session: u64) -> (r: Vec<Pending>)
        requires old(self).wf(),
        ensures
            final(self).wf(),
            forall|e: Pending|
                #![trigger final(self).has_entry(e)]
                #![trigger old(self).has_entry(e)]
                final(self).has_entry(e)
                    <==> (old(self).has_entry(e) && e.session != session),
            forall|e: Pending|
                #![trigger contains_pending(r@, e)]
                #![trigger old(self).has_entry(e)]
                contains_pending(r@, e)
                    <==> (old(self).has_entry(e) && e.session == session),
    {
        self.sweep(Sweep::Owned { session })
    }

    /// Splits the table: matching entries leave and are returned.
    fn sweep(&mut self, c: Sweep) -> (r: Vec<Pending>)
        requires old(self).wf(),
        ensures
            final(self).wf(),
            forall|e: Pending|
                #![trigger final(self).has_entry(e)]
                #![trigger old(self).has_entry(e)]
                final(self).has_entry(e) <==> (old(self).has_entry(e) && !swept(c, e)),
            forall|e: Pending|
                #![trigger contains_pending(r@, e)]
                #![trigger old(self).has_entry(e)]
                contains_pending(r@, e) <==> (old(self).has_entry(e) && swept(c, e)),
    {
        let ghost pre = self.entries@;
        let n = self.entries.len();
        let mut kept: Vec<Pending> = Vec::new();
        let mut gone: Vec<Pending> = Vec::new();
        let mut i: usize = 0;
        while i < n
            invariant
                i <= n,
                n == self.entries.len(),
                pre == self.entries@,
                old(self).wf(),
                forall|e: Pending|
                    #![trigger contains_pending(kept@, e)]
                    #![trigger contains_pending(pre.take(i as int), e)]
                    contains_pending(kept@, e)
                        <==> (contains_pending(pre.take(i as int), e) && !swept(c, e)),
                forall|e: Pending|
                    #![trigger contains_pending(gone@, e)]
                    #![trigger contains_pending(pre.take(i as int), e)]
                    contains_pending(gone@, e)
                        <==> (contains_pending(pre.take(i as int), e) && swept(c, e)),
                forall|j: int| 0 <= j < kept@.len()
                    ==> contains_pending(pre.take(i as int), #[trigger] kept@[j]),
                forall|a: int, b: int| 0 <= a < b < kept@.len()
                    ==> #[trigger] kept@[a].id != #[trigger] kept@[b].id,
            decreases n - i,
        {
            let e = self.entries[i];
            let hit = match &c {
                Sweep::Expired { now, ttl } => e.created <= *now && *now - e.created >= *ttl,
                Sweep::Owned { session } => e.session == *session,
            };
            proof {
                assert(hit == swept(c, e));
            }
            let ghost kept0 = kept@;
            let ghost gone0 = gone@;
            if hit {
                gone.push(e);
            } else {
                kept.push(e);
            }
            proof {
                let tk = pre.take(i as int);
                let tk1 = pre.take(i as int + 1);
                assert(tk1 =~= tk.push(e));
                lemma_push_membership(tk, e);
                lemma_push_membership(kept0, e);
                lemma_push_membership(gone0, e);
                assert forall|e2: Pending| contains_pending(gone@, e2)
                    implies (contains_pending(tk1, e2) && swept(c, e2)) by {
                    if hit && e2 == e {
                        assert(contains_pending(tk1, e));
                    } else {
                        assert(contains_pending(gone0, e2));
                        assert(contains_pending(tk, e2) && swept(c, e2));
                        assert(contains_pending(tk1, e2));
                    }
                }
                assert forall|e2: Pending| (contains_pending(tk1, e2) && swept(c, e2))
                    implies contains_pending(gone@, e2) by {
                    if e2 == e {
                        assert(hit);
                        assert(gone0.push(e)[gone0.len() as int] == e);
                        assert(contains_pending(gone0.push(e), e));
                    } else {
                        assert(contains_pending(tk, e2));
                        assert(contains_pending(gone0, e2));
                        if hit {
                            assert(contains_pending(gone0.push(e), e2));
                        }
                    }
                }
                assert forall|e2: Pending| contains_pending(kept@, e2)
                    implies (contains_pending(tk1, e2) && !swept(c, e2)) by {
                    if !hit && e2 == e {
                        assert(contains_pending(tk1, e));
                    } else {
                        assert(contains_pending(kept0, e2));
                        assert(contains_pending(tk, e2) && !swept(c, e2));
                        assert(contains_pending(tk1, e2));
                    }
                }
                assert forall|e2: Pending| (contains_pending(tk1, e2) && !swept(c, e2))
                    implies contains_pending(kept@, e2) by {
                    if e2 == e {
                        assert(!hit);
                        assert(kept0.push(e)[kept0.len() as int] == e);
                        assert(contains_pending(kept0.push(e), e));
                    } else {
                        assert(contains_pending(tk, e2));
                        assert(contains_pending(kept0, e2));
                        if !hit {
                            assert(contains_pending(kept0.push(e), e2));
                        }
                    }
                }
                assert forall|j: int| 0 <= j < kept@.len()
                    implies contains_pending(tk1, #[trigger] kept@[j]) by {
                    if j < kept0.len() {
                        assert(kept@[j] == kept0[j]);
                        assert(contains_pending(tk, kept0[j])) by {
                            assert(contains_pending(kept0, kept0[j])) by {
                                assert(kept0[j] == kept0[j]);
                            }
                        }
                        let k = choose|k: int| 0 <= k < tk.len() && #[trigger] tk[k] == kept0[j];
                        assert(tk1[k] == kept0[j]);
                    } else {
                        assert(kept@[j] == e);
                        assert(tk1[i as int] == e);
                    }
                }
                if !hit {
                    assert forall|a: int, b: int| 0 <= a < b < kept@.len()
                        implies #[trigger] kept@[a].id != #[trigger] kept@[b].id by {
                        if b == kept@.len() - 1 {
                            let ea = kept@[a];
                            assert(ea == kept0[a]);
                            assert(contains_pending(tk, ea)) by {
                                assert(contains_pending(kept0, ea)) by {
                                    assert(kept0[a] == ea);
                                }
                            }
                            let k = choose|k: int| 0 <= k < tk.len() && #[trigger] tk[k] == ea;
                            assert(pre[k] == ea);
                            assert(pre[i as int] == e);
                            assert(kept@[b] == e);
                            if ea.id == e.id {
                                assert(false);
                            }
                        } else {
                            assert(kept0[a] == kept@[a]);
                            assert(kept0[b] == kept@[b]);
                        }
                    }
                }
            }
            i = i + 1;
        }
        proof {
            assert(pre.take(n as int) =~= pre);
        }
        self.entries = kept;
        gone
    }
}

/// Membership in a sequence extended by one entry.
proof fn lemma_push_membership(s: Seq<Pending>, e: Pending)
    ensures forall|x: Pending| contains_pending(s.push(e), x)
        <==> (contains_pending(s, x) || x == e),
{
    assert forall|x: Pending| contains_pending(s.push(e), x)
        implies (contains_pending(s, x) || x == e) by {
        let k = choose|k: int| 0 <= k < s.push(e).len() && #[trigger] s.push(e)[k] == x;
        if k < s.len() {
            assert(s[k] == x);
        }
    }
    assert forall|x: Pending| (contains_pending(s, x) || x == e)
        implies contains_pending(s.push(e), x) by {
        if contains_pending(s, x) {
            let k = choose|k: int| 0 <= k < s.len() && #[trigger] s[k] == x;
            assert(s.push(e)[k] == x);
        } else {
            assert(s.push(e)[s.len() as int] == x);
        }
    }
}

} // verus!
