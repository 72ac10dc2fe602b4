use vstd::prelude::*;
use std::collections::HashMap;
use crate::errors::{ErrorKind, SshError};

verus! {

broadcast use vstd::std_specs::hash::group_hash_axioms;

/// Process-wide table of live sessions: the single source of truth for
/// whether a session id is alive. The handle type is a parameter so the table
/// itself carries no transport detail; callers store their shared connection
/// handles in it.
///
/// Ids are issued from a strictly increasing counter and never reused within
/// the lifetime of the registry, even after removal.
pub struct Registry<T> {
    next_id: u32,
    table: HashMap<u32, T>,
    issued: Ghost<Seq<u32>>,
}

impl<T> Registry<T> {
    /// The sessions currently registered, as a map from id to handle.
    pub closed spec fn sessions(&self) -> Map<u32, T> {
        self.table@
    }

    /// Every id this registry has ever returned from `register`, oldest
    /// first.
    pub closed spec fn issued_ids(&self) -> Seq<u32> {
        self.issued@
    }

    /// The id the next successful registration will return.
    pub closed spec fn next(&self) -> u32 {
        self.next_id
    }

    /// Well-formedness: every issued id is below the next id to issue, issued
    /// ids are strictly increasing (hence pairwise distinct), and every
    /// registered id was issued.
    pub closed spec fn wf(&self) -> bool {
        &&& forall|i: int|
            0 <= i < self.issued@.len() ==> (#[trigger] self.issued@[i]) < self.next_id
        &&& forall|i: int, j: int|
            0 <= i < j < self.issued@.len() ==> self.issued@[i] < self.issued@[j]
        &&& forall|id: u32| #[trigger] self.table@.contains_key(id) ==> self.issued@.contains(id)
    }

    /// An empty registry that has issued no ids yet.
    pub fn new() -> (r: Registry<T>)
        ensures
            r.wf(),
            r.sessions() == Map::<u32, T>::empty(),
            r.issued_ids() == Seq::<u32>::empty(),
            r.next() == 0,
    {
        Registry { next_id: 0, table: HashMap::new(), issued: Ghost(Seq::empty()) }
    }

    /// Store a handle and return its id. The id is fresh: it has never been
    /// returned by this registry before and will never be returned again.
    pub fn register(&mut self, handle: T) -> (id: u32)
        requires
            old(self).wf(),
            old(self).next() < u32::MAX,
        ensures
            final(self).wf(),
            id == old(self).next(),
            !old(self).issued_ids().contains(id),
            !old(self).sessions().contains_key(id),
            final(self).sessions() == old(self).sessions().insert(id, handle),
            final(self).issued_ids() == old(self).issued_ids().push(id),
            final(self).next() == old(self).next() + 1,
    {
        let id = self.next_id;
        proof {
            assert forall|k: int| 0 <= k < self.issued@.len() implies self.issued@[k] != id by {
                assert(self.issued@[k] < self.next_id);
            }
            assert(!self.issued@.contains(id));
            assert(!self.table@.contains_key(id));
        }
        self.next_id = self.next_id + 1;
        let _previous = self.table.insert(id, handle);
        proof {
            self.issued@ = self.issued@.push(id);
            assert forall|q: u32| #[trigger]
                self.table@.contains_key(q) implies self.issued@.contains(q) by {
                if q == id {
                    assert(self.issued@[self.issued@.len() - 1] == id);
                } else {
                    assert(old(self).table@.contains_key(q));
                    let w = choose|w: int|
                        0 <= w < old(self).issued@.len() && old(self).issued@[w] == q;
                    assert(self.issued@[w] == q);
                }
            }
        }
        id
    }

    /// Look up a registered session. Returns a reference to the stored handle
    /// exactly when the id is present; the unknown-session error otherwise.
    pub fn lookup(&self, id: u32) -> (r: Result<&T, SshError>)
        ensures
            match r {
                Ok(h) => self.sessions().contains_key(id) && *h == self.sessions()[id],
                Err(e) => !self.sessions().contains_key(id) && e.kind == ErrorKind::UnknownSession,
            },
    {
        match self.table.get(&id) {
            Some(h) => Ok(h),
            None => Err(SshError::unknown_session()),
        }
    }

    /// Whether another id can still be issued.
    pub fn can_register(&self) -> (r: bool)
        ensures
            r == (self.next() < u32::MAX),
    {
        self.next_id < u32::MAX
    }

    /// Whether the id is currently registered.
    pub fn contains(&self, id: u32) -> (r: bool)
        ensures
            r == self.sessions().contains_key(id),
    {
        self.table.contains_key(&id)
    }

    /// Remove a session. Returns the stored handle if the id was present, and
    /// `None`, changing nothing, if it was not. The id is not reissued later.
    pub fn remove(&mut self, id: u32) -> (r: Option<T>)
        requires
            old(self).wf(),
        ensures
            final(self).wf(),
            final(self).sessions() == old(self).sessions().remove(id),
            final(self).issued_ids() == old(self).issued_ids(),
            final(self).next() == old(self).next(),
            match r {
                Some(h) => old(self).sessions().contains_key(id) && h == old(self).sessions()[id],
                None => !old(self).sessions().contains_key(id),
            },
    {
        self.table.remove(&id)
    }
}

/// Final step of connection establishment: only an authentication result that
/// reports success registers the session; a rejected authentication leaves
/// the registry untouched and yields the dedicated error. No failure path
/// leaves partial state behind.
pub fn finish_connect<T>(registry: &mut Registry<T>, auth_success: bool, handle: T) -> (r: Result<
    u32,
    SshError,
>)
    requires
        old(registry).wf(),
        old(registry).next() < u32::MAX,
    ensures
        final(registry).wf(),
        match r {
            Ok(id) => {
                &&& auth_success
                &&& id == old(registry).next()
                &&& !old(registry).issued_ids().contains(id)
                &&& final(registry).sessions() == old(registry).sessions().insert(id, handle)
                &&& final(registry).issued_ids() == old(registry).issued_ids().push(id)
            },
            Err(e) => {
                &&& !auth_success
                &&& e.kind == ErrorKind::AuthRejected
                &&& *final(registry) == *old(registry)
            },
        },
{
    if auth_success {
        let id = registry.register(handle);
        Ok(id)
    } else {
        Err(
            SshError::new(
                ErrorKind::AuthRejected,
                "authentication reported unsuccessful".to_owned(),
            ),
        )
    }
}

/// Ids issued over the registry's whole lifetime are pairwise distinct: a
/// registered session's id can never collide with an earlier one, even after
/// removals.
pub proof fn lemma_issued_ids_distinct<T>(r: Registry<T>)
    requires
        r.wf(),
    ensures
        forall|i: int, j: int|
            0 <= i < j < r.issued_ids().len() ==> r.issued_ids()[i] != r.issued_ids()[j],
{
}

/// Disconnecting is idempotent: removing an id a second time finds nothing
/// and changes nothing.
pub proof fn lemma_disconnect_idempotent<T>(sessions: Map<u32, T>, id: u32)
    ensures
        !sessions.remove(id).contains_key(id),
        sessions.remove(id).remove(id) == sessions.remove(id),
{
    assert(sessions.remove(id).remove(id) =~= sessions.remove(id));
}

} // verus!
