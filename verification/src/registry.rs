use vstd::prelude::*;
use crate::oid::Oid;

verus! {

/// The deduplication registry: the set of content-object identifiers already
/// searched during one run. It is created once per run, never pre-seeded and
/// never persisted. The backing store is a sharded concurrent set, so a
/// caller that shares one registry across worker threads (behind its own
/// synchronization of the `&mut` accesses) keeps safe interior state.
#[verifier::external_body]
pub struct DedupRegistry {
    set: dashmap::DashSet<[u8; 20]>,
}

/// The set of identifier byte strings the registry currently holds.
pub uninterp spec fn registry_view(r: DedupRegistry) -> Set<Seq<u8>>;

impl DedupRegistry {
    /// Relies on dashmap::DashSet::new: a freshly created set holds nothing.
    #[verifier::external_body]
    pub fn new() -> (r: DedupRegistry)
        ensures
            registry_view(r) == Set::<Seq<u8>>::empty(),
            registry_view(r).finite(),
    {
        DedupRegistry { set: dashmap::DashSet::new() }
    }

    /// Relies on dashmap::DashSet::contains: whether the set holds the key.
    #[verifier::external_body]
    pub fn contains(&self, id: &Oid) -> (r: bool)
        requires
            id.wf(),
        ensures
            r == registry_view(*self).contains(id@),
    {
        let mut key = [0u8; 20];
        key.copy_from_slice(id.as_bytes());
        self.set.contains(&key)
    }

    /// Relies on dashmap::DashSet::insert: adds the key and reports whether
    /// it was newly inserted.
    #[verifier::external_body]
    pub fn insert(&mut self, id: &Oid) -> (r: bool)
        requires
            id.wf(),
        ensures
            r == !registry_view(*old(self)).contains(id@),
            registry_view(*final(self)) == registry_view(*old(self)).insert(id@),
    {
        let mut key = [0u8; 20];
        key.copy_from_slice(id.as_bytes());
        self.set.insert(key)
    }
}

} // verus!
