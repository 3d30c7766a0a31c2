//! Connections and the containers that own them between steps: the pool of
//! plain HTTP connections and the registry of upgraded ones. Each holds a
//! connection by value, so a connection is in at most one place at a time.

use vstd::prelude::*;

verus! {

/// A live transport with the time of its last completed step, in
/// milliseconds on a clock that the caller keeps.
pub struct Connection<S> {
    pub stream: S,
    pub last_active: u64,
}

/// More than `timeout_secs` seconds passed from `last` to `now` (milliseconds).
pub open spec fn idle_exceeds(last: u64, now: u64, timeout_secs: u64) -> bool {
    now > last && now - last > timeout_secs * 1000
}

impl<S> Connection<S> {
    pub fn new(stream: S, now_ms: u64) -> (r: Connection<S>)
        ensures
            r.stream == stream,
            r.last_active == now_ms,
    {
        Connection { stream, last_active: now_ms }
    }

    /// Whether the connection has been idle for longer than `timeout_secs`.
    pub fn is_timeout(&self, now_ms: u64, timeout_secs: u64) -> (r: bool)
        ensures
            r == idle_exceeds(self.last_active, now_ms, timeout_secs),
    {
        if now_ms <= self.last_active {
            return false;
        }
        let idle = now_ms - self.last_active;
        match timeout_secs.checked_mul(1000) {
            Some(limit) => idle > limit,
            None => false,
        }
    }

    /// Records a completed step at `now_ms`.
    pub fn touch(&mut self, now_ms: u64)
        ensures
            final(self).last_active == now_ms,
            final(self).stream == old(self).stream,
    {
        self.last_active = now_ms;
    }
}

/// What `claim` hands out from pending connections `q`.
pub open spec fn claimed<T>(q: Seq<T>) -> Option<T> {
    if q.len() == 0 {
        None
    } else {
        Some(q.last())
    }
}

/// What stays pending after a claim.
pub open spec fn after_claim<T>(q: Seq<T>) -> Seq<T> {
    if q.len() == 0 {
        q
    } else {
        q.drop_last()
    }
}

/// The result of claiming a connection for service.
pub enum Claim<S> {
    /// Nothing was pending.
    Empty,
    /// The connection was idle too long: it is not to be serviced but closed.
    Expired(Connection<S>),
    /// The connection is the caller's to service.
    Ready(Connection<S>),
}

/// Pending plain connections. New ones join at the active end and are
/// claimed first; requeued ones join at the other end.
pub struct ConnectionPool<T> {
    pending: Vec<T>,
    capacity: usize,
}

impl<T> View for ConnectionPool<T> {
    type V = Seq<T>;

    closed spec fn view(&self) -> Seq<T> {
        self.pending@
    }
}

impl<T> ConnectionPool<T> {
    /// The most connections that `enqueue` lets wait.
    pub closed spec fn spec_capacity(&self) -> nat {
        self.capacity as nat
    }

    pub fn new(capacity: usize) -> (r: ConnectionPool<T>)
        ensures
            r@ == Seq::<T>::empty(),
            r.spec_capacity() == capacity,
    {
        let r = ConnectionPool { pending: Vec::new(), capacity };
        assert(r@ =~= Seq::<T>::empty());
        r
    }

    pub fn len(&self) -> (r: usize)
        ensures
            r == self@.len(),
    {
        self.pending.len()
    }

    /// Adds a newly accepted connection, or hands it back when `capacity`
    /// connections are already waiting.
    pub fn enqueue(&mut self, conn: T) -> (r: Result<(), T>)
        ensures
            final(self).spec_capacity() == old(self).spec_capacity(),
            old(self)@.len() < old(self).spec_capacity() ==> r is Ok && final(self)@ == old(
                self,
            )@.push(conn),
            old(self)@.len() >= old(self).spec_capacity() ==> r == Err::<(), T>(conn)
                && final(self)@ == old(self)@,
    {
        if self.pending.len() < self.capacity {
            self.pending.push(conn);
            Ok(())
        } else {
            Err(conn)
        }
    }

    /// Removes and returns one connection, if any is pending.
    pub fn claim(&mut self) -> (r: Option<T>)
        ensures
            r == claimed(old(self)@),
            final(self)@ == after_claim(old(self)@),
            final(self).spec_capacity() == old(self).spec_capacity(),
    {
        self.pending.pop()
    }

    /// Puts back a connection that was claimed and serviced.
    pub fn requeue(&mut self, conn: T)
        ensures
            final(self)@ == seq![conn] + old(self)@,
            final(self).spec_capacity() == old(self).spec_capacity(),
    {
        self.pending.insert(0, conn);
        assert(self@ =~= seq![conn] + old(self)@);
    }
}

impl<S> ConnectionPool<Connection<S>> {
    /// Claims one connection and decides whether it may be serviced: one
    /// idle for longer than `keep_alive_secs` comes back as `Expired`.
    pub fn claim_for_service(&mut self, now_ms: u64, keep_alive_secs: u64) -> (r: Claim<S>)
        ensures
            final(self)@ == after_claim(old(self)@),
            final(self).spec_capacity() == old(self).spec_capacity(),
            match r {
                Claim::Empty => old(self)@.len() == 0,
                Claim::Expired(c) => claimed(old(self)@) == Some(c) && idle_exceeds(
                    c.last_active,
                    now_ms,
                    keep_alive_secs,
                ),
                Claim::Ready(c) => claimed(old(self)@) == Some(c) && !idle_exceeds(
                    c.last_active,
                    now_ms,
                    keep_alive_secs,
                ),
            },
    {
        match self.claim() {
            None => Claim::Empty,
            Some(conn) => {
                if conn.is_timeout(now_ms, keep_alive_secs) {
                    Claim::Expired(conn)
                } else {
                    Claim::Ready(conn)
                }
            },
        }
    }
}

/// A claim hands out each pending connection once: what it returns and
/// what stays pending make up exactly what was pending.
pub proof fn lemma_claim_conserves<T>(q: Seq<T>)
    ensures
        match claimed(q) {
            Some(c) => after_claim(q).to_multiset().insert(c) == q.to_multiset(),
            None => q.len() == 0 && after_claim(q) == q,
        },
{
    if q.len() > 0 {
        assert(q =~= q.drop_last().push(q.last()));
        vstd::seq_lib::to_multiset_build(q.drop_last(), q.last());
    }
}

/// Of successive claims on a pool holding one connection, the first gets
/// it and the next gets nothing: one connection goes to one claimant.
pub proof fn lemma_single_connection_claimed_once<T>(q: Seq<T>)
    requires
        q.len() == 1,
    ensures
        claimed(q) == Some(q[0]),
        after_claim(q).len() == 0,
        claimed(after_claim(q)) is None,
{
}

/// Upgraded connections, each under a fingerprint that no other connection
/// of the registry has had: the fingerprints count up from zero.
pub struct WebSocketConnections<T> {
    entries: Vec<(u64, T)>,
    next_id: u64,
}

impl<T> View for WebSocketConnections<T> {
    type V = Seq<(u64, T)>;

    closed spec fn view(&self) -> Seq<(u64, T)> {
        self.entries@
    }
}

impl<T> WebSocketConnections<T> {
    /// The fingerprint that the next insert hands out.
    pub closed spec fn next_fingerprint(&self) -> u64 {
        self.next_id
    }

    /// Fingerprints are below the next one and fall from front to back,
    /// so no two entries share one.
    pub closed spec fn wf(&self) -> bool {
        &&& forall|i: int| 0 <= i < self.entries@.len() ==> #[trigger] self.entries@[i].0 < self.next_id
        &&& forall|i: int, j: int|
            0 <= i < j < self.entries@.len() ==> self.entries@[i].0 > self.entries@[j].0
    }

    pub fn new() -> (r: WebSocketConnections<T>)
        ensures
            r@ == Seq::<(u64, T)>::empty(),
            r.next_fingerprint() == 0,
            r.wf(),
    {
        let r = WebSocketConnections { entries: Vec::new(), next_id: 0 };
        assert(r@ =~= Seq::<(u64, T)>::empty());
        r
    }

    pub fn len(&self) -> (r: usize)
        ensures
            r == self@.len(),
    {
        self.entries.len()
    }

    /// Registers a connection and returns its fingerprint; hands the
    /// connection back once every fingerprint has been used.
    pub fn insert(&mut self, connection: T) -> (r: Result<u64, T>)
        ensures
            old(self).wf() ==> final(self).wf(),
            old(self).next_fingerprint() < u64::MAX ==> r == Ok::<u64, T>(
                old(self).next_fingerprint(),
            ) && final(self)@ == seq![(old(self).next_fingerprint(), connection)] + old(self)@
                && final(self).next_fingerprint() == old(self).next_fingerprint() + 1,
            old(self).next_fingerprint() == u64::MAX ==> r == Err::<u64, T>(connection)
                && final(self)@ == old(self)@ && final(self).next_fingerprint()
                == old(self).next_fingerprint(),
            old(self).wf() ==> forall|i: int|
                0 <= i < old(self)@.len() ==> old(self)@[i].0 < old(self).next_fingerprint(),
    {
        if self.next_id == u64::MAX {
            return Err(connection);
        }
        let id = self.next_id;
        self.entries.insert(0, (id, connection));
        self.next_id = id + 1;
        assert(self@ =~= seq![(id, connection)] + old(self)@);
        Ok(id)
    }

    /// Removes and returns one connection, if any is registered.
    pub fn pop(&mut self) -> (r: Option<T>)
        ensures
            old(self).wf() ==> final(self).wf(),
            final(self).next_fingerprint() == old(self).next_fingerprint(),
            old(self)@.len() == 0 ==> r is None && final(self)@ == old(self)@,
            old(self)@.len() > 0 ==> r == Some(old(self)@.last().1) && final(self)@ == old(
                self,
            )@.drop_last(),
    {
        match self.entries.pop() {
            Some(entry) => Some(entry.1),
            None => None,
        }
    }
}

/// No two connections of a registry share a fingerprint.
pub proof fn lemma_fingerprints_unique<T>(reg: &WebSocketConnections<T>)
    requires
        reg.wf(),
    ensures
        forall|i: int, j: int| 0 <= i < reg@.len() && 0 <= j < reg@.len() && i != j ==> reg@[i].0 != reg@[j].0,
{
    assert forall|i: int, j: int| 0 <= i < reg@.len() && 0 <= j < reg@.len() && i != j implies reg@[i].0
        != reg@[j].0 by {
        if i < j {
            assert(reg.entries@[i].0 > reg.entries@[j].0);
        } else {
            assert(reg.entries@[j].0 > reg.entries@[i].0);
        }
    }
}

} // verus!
