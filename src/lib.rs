//! Templates looked up by namespace and name, kept fresh from a backing store
use std::path::PathBuf;
use vstd::prelude::*;

mod error;
pub use error::Error;

mod mapping;
pub use mapping::{Mapping, TemplateMap};
use mapping::lookup;

mod loader;
pub use loader::{load_json, load_toml, load_yaml, LoadFunction};

mod store;
pub use store::{FileStore, MemoryStore, NullStore, PartialStore, TemplateStore};

mod templates;
pub use templates::Templates;
use templates::{lemma_no_change_keeps_answers, parsed_into, refreshed};

verus! {

/// Template for applying a templated string to an enum variant
///
/// Each variant of an implementing type stands for the template named
/// `variant()` in the namespace `namespace()`; its fields are the template's
/// arguments.
pub trait Template {
    /// Namespace of the template
    fn namespace() -> &'static str;

    /// Name of the template (the enum's name, in _snake_case_)
    fn name() -> &'static str;

    /// Name of the specific variant (in _snake_case_)
    fn variant(&self) -> &'static str;

    /// Apply this template string to this variant
    fn apply(&self, input: &str) -> Option<String>;
}

/// A Template Resolver
///
/// Provides a simple way to always get the latest template string for a `namespace.variant`
#[derive(Debug)]
pub struct Resolver<S> {
    templates: Templates<S>,
}

impl<S: TemplateStore> Resolver<S> {
    /// The collection that the resolver reads
    pub closed spec fn cache(&self) -> Templates<S> {
        self.templates
    }

    /// Create a new resolver using this `TemplateStore`
    ///
    /// # Errors
    /// - Failure to load/parse the initial templates
    pub fn new(store: S) -> (r: Result<Self, Error>)
        ensures
            match r {
                Ok(res) => refreshed(store, Map::empty(), res.cache().backing(), res.cache()@, Ok(())),
                Err(e) => exists|after: S| #[trigger]
                    refreshed(store, Map::empty(), after, Map::empty(), Err(e)),
            },
    {
        match Templates::new(store) {
            Ok(templates) => Ok(Resolver { templates }),
            Err(e) => Err(e),
        }
    }

    /// Tries to get the template string for `namespace.variant`
    ///
    /// The collection is refreshed first; where that fails, the templates last
    /// parsed are read.
    pub fn resolve(&mut self, namespace: &str, variant: &str) -> (r: Option<&String>)
        ensures
            exists|rr: Result<(), Error>| #[trigger]
                refreshed(
                    old(self).cache().backing(),
                    old(self).cache()@,
                    final(self).cache().backing(),
                    final(self).cache()@,
                    rr,
                ),
            match lookup(final(self).cache()@, namespace@, variant@) {
                Some(v) => r matches Some(s) && s@ == v,
                None => r is None,
            },
    {
        self.resolve_reporting(namespace, variant).1
    }

    /// Tries to get the template string for `namespace.variant`, and hands back
    /// with it how the refresh before the lookup went
    pub fn resolve_reporting(&mut self, namespace: &str, variant: &str) -> (r: (
        Result<(), Error>,
        Option<&String>,
    ))
        ensures
            refreshed(
                old(self).cache().backing(),
                old(self).cache()@,
                final(self).cache().backing(),
                final(self).cache()@,
                r.0,
            ),
            r.0 is Err ==> final(self).cache()@ == old(self).cache()@,
            match lookup(final(self).cache()@, namespace@, variant@) {
                Some(v) => r.1 matches Some(s) && s@ == v,
                None => r.1 is None,
            },
    {
        let refresh = self.templates.refresh();
        let found = match self.templates.get(namespace) {
            Some(m) => m.get(variant),
            None => None,
        };
        (refresh, found)
    }

    /// Get a reference to the inner store
    pub fn store(&self) -> (r: &S)
        ensures
            *r == self.cache().backing(),
    {
        self.templates.store()
    }

    /// Get a mutable reference to the inner store
    pub fn store_mut(&mut self) -> (r: &mut S)
        ensures
            *r == old(self).cache().backing(),
            final(self).cache().backing() == *final(r),
            final(self).cache()@ == old(self).cache()@,
    {
        self.templates.store_mut()
    }

    /// Get the templates
    pub fn templates(&self) -> (r: &Templates<S>)
        ensures
            *r == self.cache(),
    {
        &self.templates
    }

    /// Get the templates
    pub fn templates_mut(&mut self) -> (r: &mut Templates<S>)
        ensures
            *r == old(self).cache(),
            final(self).cache() == *final(r),
    {
        &mut self.templates
    }
}

/// Over a memory store that is not updated between them, two resolutions in a
/// row give the same answer, and the second neither parses nor changes anything.
pub proof fn lemma_repeated_resolve(
    r0: Resolver<MemoryStore>,
    r1: Resolver<MemoryStore>,
    r2: Resolver<MemoryStore>,
    rr1: Result<(), Error>,
    rr2: Result<(), Error>,
    namespace: Seq<char>,
    variant: Seq<char>,
)
    requires
        refreshed(r0.cache().backing(), r0.cache()@, r1.cache().backing(), r1.cache()@, rr1),
        refreshed(r1.cache().backing(), r1.cache()@, r2.cache().backing(), r2.cache()@, rr2),
    ensures
        r2.cache().backing() == r1.cache().backing(),
        r2.cache()@ == r1.cache()@,
        lookup(r2.cache()@, namespace, variant) == lookup(r1.cache()@, namespace, variant),
{
    let (mid, c) = choose|mid: MemoryStore, c: bool|
        #[trigger] MemoryStore::changed_step(r0.cache().backing(), mid, c) && if c {
            parsed_into(mid, r0.cache()@, r1.cache().backing(), r1.cache()@, rr1)
        } else {
            r1.cache().backing() == mid && r1.cache()@ == r0.cache()@ && rr1 is Ok
        };
    assert(!r1.cache().backing().dirty());
}

/// Where the store reports no change, a resolution neither parses nor changes
/// the store or the templates, and so gives what the templates held before.
pub proof fn lemma_resolve_without_change<S: TemplateStore>(
    r1: Resolver<S>,
    r2: Resolver<S>,
    rr: Result<(), Error>,
    namespace: Seq<char>,
    variant: Seq<char>,
)
    requires
        refreshed(r1.cache().backing(), r1.cache()@, r2.cache().backing(), r2.cache()@, rr),
        forall|mid: S, c: bool| #[trigger]
            S::changed_step(r1.cache().backing(), mid, c) ==> !c && mid == r1.cache().backing(),
    ensures
        r2.cache().backing() == r1.cache().backing(),
        r2.cache()@ == r1.cache()@,
        lookup(r2.cache()@, namespace, variant) == lookup(r1.cache()@, namespace, variant),
{
    lemma_no_change_keeps_answers(
        r1.cache().backing(),
        r1.cache()@,
        r2.cache().backing(),
        r2.cache()@,
        rr,
        namespace,
        variant,
    );
}

/// Simple constructor for creating a `PartialStore` from two `MemoryStore`s
pub fn partial_memory_store(default: &str, partial: &str, loader: LoadFunction) -> (r: PartialStore<
    MemoryStore,
    MemoryStore,
>)
    ensures
        r.default_store().text() == default@,
        r.default_store().dirty(),
        r.default_store().format() == loader,
        r.partial_store().text() == partial@,
        r.partial_store().dirty(),
        r.partial_store().format() == loader,
{
    let default = MemoryStore::new(default, loader);
    let partial = MemoryStore::new(partial, loader);
    PartialStore::new(default, partial)
}

/// Simple constructor for creating a `PartialStore` using `FileStore`s
///
/// A `FileStore` only decides; to back `Templates`, each tier is wrapped by a
/// store that looks at and reads its file and hands the outcome to the
/// `FileStore`.
pub fn partial_file_store(default: PathBuf, partial: PathBuf, loader: LoadFunction) -> (r: Result<
    PartialStore<FileStore, FileStore>,
    Error,
>)
    ensures
        r matches Ok(s) && s.default_store().path() == default && s.default_store().last_seen() is None
            && s.default_store().format() == loader && s.partial_store().path() == partial
            && s.partial_store().last_seen() is None && s.partial_store().format() == loader,
{
    let default = FileStore::new(default, loader)?;
    let partial = FileStore::new(partial, loader)?;
    Ok(PartialStore::new(default, partial))
}

} // verus!
