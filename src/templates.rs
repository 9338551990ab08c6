use crate::error::Error;
use crate::mapping::{lemma_merge_nothing, lookup, Mapping, TemplateMap};
use crate::store::{merged_as, MemoryStore, PartialStore, TemplateStore};
use vstd::prelude::*;

verus! {

/// What one refresh owes. It asks the store once whether it changed; if it did,
/// it parses once, and keeps what was parsed, or keeps the map it had and fails
/// with the parse's error; if it did not, it keeps the map it had.
pub open spec fn refreshed<S: TemplateStore>(
    store: S,
    map: Map<Seq<char>, Map<Seq<char>, Seq<char>>>,
    after_store: S,
    after_map: Map<Seq<char>, Map<Seq<char>, Seq<char>>>,
    r: Result<(), Error>,
) -> bool {
    exists|mid: S, c: bool|
        #[trigger] S::changed_step(store, mid, c) && if c {
            parsed_into(mid, map, after_store, after_map, r)
        } else {
            after_store == mid && after_map == map && r is Ok
        }
}

/// What the parse of a refresh owes, from the store `store` and the map `map`
pub open spec fn parsed_into<S: TemplateStore>(
    store: S,
    map: Map<Seq<char>, Map<Seq<char>, Seq<char>>>,
    after_store: S,
    after_map: Map<Seq<char>, Map<Seq<char>, Seq<char>>>,
    r: Result<(), Error>,
) -> bool {
    exists|p: Result<TemplateMap, Error>|
        #[trigger] S::parse_step(store, after_store, p) && match p {
            Ok(m) => r is Ok && after_map == m@,
            Err(e) => r == Err::<(), Error>(e) && after_map == map,
        }
}

/// A refresh of a store that reports a change parses exactly once.
pub proof fn lemma_reported_change_parses<S: TemplateStore>(
    store: S,
    map: Map<Seq<char>, Map<Seq<char>, Seq<char>>>,
    after_store: S,
    after_map: Map<Seq<char>, Map<Seq<char>, Seq<char>>>,
    r: Result<(), Error>,
)
    requires
        refreshed(store, map, after_store, after_map, r),
        forall|mid: S, c: bool| #[trigger] S::changed_step(store, mid, c) ==> c && mid == store,
    ensures
        parsed_into(store, map, after_store, after_map, r),
{
}

/// A fresh memory store reports a change at its first check, so the first
/// refresh of a collection over it parses exactly once, and leaves it clean.
pub proof fn lemma_first_refresh_parses(
    store: MemoryStore,
    after_store: MemoryStore,
    after_map: Map<Seq<char>, Map<Seq<char>, Seq<char>>>,
    r: Result<(), Error>,
)
    requires
        store.dirty(),
        refreshed(store, Map::empty(), after_store, after_map, r),
    ensures
        parsed_into(store, Map::empty(), after_store, after_map, r),
        !after_store.dirty(),
{
    lemma_reported_change_parses(store, Map::empty(), after_store, after_map, r);
}

/// A refresh of a store that reports no change neither parses nor changes the
/// store or the templates, so every lookup gives what it gave before.
pub proof fn lemma_no_change_keeps_answers<S: TemplateStore>(
    store: S,
    map: Map<Seq<char>, Map<Seq<char>, Seq<char>>>,
    after_store: S,
    after_map: Map<Seq<char>, Map<Seq<char>, Seq<char>>>,
    r: Result<(), Error>,
    ns: Seq<char>,
    name: Seq<char>,
)
    requires
        refreshed(store, map, after_store, after_map, r),
        forall|mid: S, c: bool| #[trigger] S::changed_step(store, mid, c) ==> !c && mid == store,
    ensures
        after_store == store,
        after_map == map,
        r is Ok,
        lookup(after_map, ns, name) == lookup(map, ns, name),
{
}

/// Over a partial store whose partial tier cannot be parsed, a refresh succeeds
/// with exactly the default tier's map, where it finds a change or already held
/// that map, so every lookup gives what the default tier holds. (A partial tier
/// that never reports a change, such as a `NullStore`, never has the default
/// tier loaded at all.)
pub proof fn lemma_partial_resilience<D: TemplateStore, P: TemplateStore>(
    store: PartialStore<D, P>,
    map: Map<Seq<char>, Map<Seq<char>, Seq<char>>>,
    after_store: PartialStore<D, P>,
    after_map: Map<Seq<char>, Map<Seq<char>, Seq<char>>>,
    r: Result<(), Error>,
    default_map: Map<Seq<char>, Map<Seq<char>, Seq<char>>>,
    ns: Seq<char>,
    name: Seq<char>,
)
    requires
        refreshed(store, map, after_store, after_map, r),
        forall|mid: PartialStore<D, P>, c: bool| #[trigger]
            PartialStore::<D, P>::changed_step(store, mid, c) ==> c || map == default_map,
        forall|mid: P, c: bool, p: P, rp: Result<TemplateMap, Error>|
            #[trigger] P::changed_step(store.partial_store(), mid, c) && #[trigger] P::parse_step(mid, p, rp)
                ==> rp is Err,
        forall|d: D, rd: Result<TemplateMap, Error>| #[trigger]
            D::parse_step(store.default_store(), d, rd) ==> (rd matches Ok(t) && t@ == default_map),
    ensures
        r is Ok,
        after_map == default_map,
        lookup(after_map, ns, name) == lookup(default_map, ns, name),
{
    let (mid, c) = choose|mid: PartialStore<D, P>, c: bool|
        #[trigger] PartialStore::<D, P>::changed_step(store, mid, c) && if c {
            parsed_into(mid, map, after_store, after_map, r)
        } else {
            after_store == mid && after_map == map && r is Ok
        };
    if c {
        let p = choose|p: Result<TemplateMap, Error>|
            #[trigger] PartialStore::<D, P>::parse_step(mid, after_store, p) && match p {
                Ok(m) => r is Ok && after_map == m@,
                Err(e) => r == Err::<(), Error>(e) && after_map == map,
            };
        let (rd, rp) = choose|rd: Result<TemplateMap, Error>, rp: Result<TemplateMap, Error>|
            #[trigger] D::parse_step(mid.default_store(), after_store.default_store(), rd)
                && #[trigger] P::parse_step(mid.partial_store(), after_store.partial_store(), rp)
                && merged_as(p, rd, rp);
        assert(P::changed_step(store.partial_store(), mid.partial_store(), c));
        assert(rp is Err);
        if let Ok(d) = rd {
            lemma_merge_nothing(d@);
        }
    }
}

/// A refresh that fails leaves the templates as the last successful refresh
/// left them.
pub proof fn lemma_stale_retention<S: TemplateStore>(
    s0: S,
    m0: Map<Seq<char>, Map<Seq<char>, Seq<char>>>,
    s1: S,
    m1: Map<Seq<char>, Map<Seq<char>, Seq<char>>>,
    s2: S,
    m2: Map<Seq<char>, Map<Seq<char>, Seq<char>>>,
    e: Error,
)
    requires
        refreshed(s0, m0, s1, m1, Ok(())),
        refreshed(s1, m1, s2, m2, Err(e)),
    ensures
        m2 == m1,
{
}

/// Where the default store of a partial store cannot be parsed, a refresh that
/// finds a change fails and keeps the templates it had.
pub proof fn lemma_default_required<D: TemplateStore, P: TemplateStore>(
    store: PartialStore<D, P>,
    map: Map<Seq<char>, Map<Seq<char>, Seq<char>>>,
    after_store: PartialStore<D, P>,
    after_map: Map<Seq<char>, Map<Seq<char>, Seq<char>>>,
    r: Result<(), Error>,
)
    requires
        refreshed(store, map, after_store, after_map, r),
        forall|mid: PartialStore<D, P>, c: bool| #[trigger]
            PartialStore::<D, P>::changed_step(store, mid, c) ==> c,
        forall|d: D, rd: Result<TemplateMap, Error>| #[trigger]
            D::parse_step(store.default_store(), d, rd) ==> rd is Err,
    ensures
        r is Err,
        after_map == map,
{
    let (mid, c) = choose|mid: PartialStore<D, P>, c: bool|
        #[trigger] PartialStore::<D, P>::changed_step(store, mid, c) && if c {
            parsed_into(mid, map, after_store, after_map, r)
        } else {
            after_store == mid && after_map == map && r is Ok
        };
    let p = choose|p: Result<TemplateMap, Error>|
        #[trigger] PartialStore::<D, P>::parse_step(mid, after_store, p) && match p {
            Ok(m) => r is Ok && after_map == m@,
            Err(e) => r == Err::<(), Error>(e) && after_map == map,
        };
    let (rd, rp) = choose|rd: Result<TemplateMap, Error>, rp: Result<TemplateMap, Error>|
        #[trigger] D::parse_step(mid.default_store(), after_store.default_store(), rd)
            && #[trigger] P::parse_step(mid.partial_store(), after_store.partial_store(), rp)
            && merged_as(p, rd, rp);
    assert(rd is Err);
}

/// A collection of templates backed by a `TemplateStore`
#[derive(Debug)]
pub struct Templates<S> {
    store: S,
    templates: TemplateMap,
}

impl<S> View for Templates<S> {
    type V = Map<Seq<char>, Map<Seq<char>, Seq<char>>>;

    /// The templates last parsed
    closed spec fn view(&self) -> Map<Seq<char>, Map<Seq<char>, Seq<char>>> {
        self.templates@
    }
}

impl<S: TemplateStore> Templates<S> {
    /// The store that backs the collection
    pub closed spec fn backing(&self) -> S {
        self.store
    }

    /// Create a collection over a store, and refresh it once
    ///
    /// # Errors
    /// - An I/O Error if the data was to be loaded from a missing file
    /// - A deserialization error from the template source
    pub fn new(store: S) -> (r: Result<Self, Error>)
        ensures
            match r {
                Ok(t) => refreshed(store, Map::empty(), t.backing(), t@, Ok(())),
                Err(e) => exists|after: S| #[trigger]
                    refreshed(store, Map::empty(), after, Map::empty(), Err(e)),
            },
    {
        let mut this = Templates { store, templates: TemplateMap::new() };
        match this.refresh() {
            Ok(()) => Ok(this),
            Err(e) => {
                proof {
                    assert(refreshed(store, Map::empty(), this.store, Map::empty(), Err(e)));
                }
                Err(e)
            },
        }
    }

    /// Tries to get the key (`namespace`) from the collection
    ///
    /// The returned value will let you get the value (`variant`).
    pub fn get(&self, parent: &str) -> (r: Option<&Mapping>)
        ensures
            r is Some <==> self@.contains_key(parent@),
            r matches Some(m) ==> m@ == self@[parent@],
    {
        self.templates.get(parent)
    }

    /// Refreshes the collection from the backing store
    ///
    /// # Errors
    /// - An I/O Error if the data was to be loaded from a missing file
    /// - A deserialization error from the template source
    pub fn refresh(&mut self) -> (r: Result<(), Error>)
        ensures
            refreshed(old(self).backing(), old(self)@, final(self).backing(), final(self)@, r),
            r is Err ==> final(self)@ == old(self)@,
    {
        let ghost before = *self;
        if self.store.changed() {
            let ghost mid = self.store;
            let parsed = self.store.parse_map();
            let ghost p = parsed;
            let r = match parsed {
                Ok(m) => {
                    self.templates = m;
                    Ok(())
                },
                Err(e) => Err(e),
            };
            proof {
                assert(parsed_into(mid, before@, self.store, self@, r));
                assert(S::changed_step(before.store, mid, true));
            }
            r
        } else {
            proof {
                assert(S::changed_step(before.store, self.store, false));
            }
            Ok(())
        }
    }

    /// Get a reference to the inner store
    pub fn store(&self) -> (r: &S)
        ensures
            *r == self.backing(),
    {
        &self.store
    }

    /// Get a mutable reference to the inner store
    pub fn store_mut(&mut self) -> (r: &mut S)
        ensures
            *r == old(self).backing(),
            final(self).backing() == *final(r),
            final(self)@ == old(self)@,
    {
        &mut self.store
    }

    /// Consume this returning the inner store
    pub fn into_inner(self) -> (r: S)
        ensures
            r == self.backing(),
    {
        self.store
    }
}

} // verus!
