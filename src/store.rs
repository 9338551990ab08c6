use crate::error::Error;
use crate::loader::{loaded_as, LoadFunction};
use crate::mapping::{lemma_merge_nothing, merged, TemplateMap};
use std::path::PathBuf;
use vstd::prelude::*;

verus! {

/// A backing store for a set of templates
pub trait TemplateStore: Sized {
    /// Whether one call of `changed` may take the store from `before` to `after`
    /// and report `r`; of a store that does not say, nothing is known
    open spec fn changed_step(before: Self, after: Self, r: bool) -> bool {
        true
    }

    /// Whether one call of `parse_map` may take the store from `before` to `after`
    /// and give `r`; of a store that does not say, nothing is known
    open spec fn parse_step(before: Self, after: Self, r: Result<TemplateMap, Error>) -> bool {
        true
    }

    /// Tries to parse the template map
    ///
    /// # Errors
    /// - Any I/O error associated with fetching this data
    /// - Any deserialization error
    fn parse_map(&mut self) -> (r: Result<TemplateMap, Error>)
        ensures
            Self::parse_step(*old(self), *final(self), r),
    ;

    /// Returns whether the template changed
    fn changed(&mut self) -> (r: bool)
        ensures
            Self::changed_step(*old(self), *final(self), r),
    ;
}

/// A memory-backed store for a template
#[derive(Debug)]
pub struct MemoryStore {
    data: String,
    changed: bool,
    loader: LoadFunction,
}

impl MemoryStore {
    /// The text that this store holds
    pub closed spec fn text(&self) -> Seq<char> {
        self.data@
    }

    /// Whether the text has been replaced since it was last parsed
    pub closed spec fn dirty(&self) -> bool {
        self.changed
    }

    /// The format that the text is read in
    pub closed spec fn format(&self) -> LoadFunction {
        self.loader
    }

    /// Create a new store for the templates in `data`
    pub fn new(data: &str, loader: LoadFunction) -> (r: MemoryStore)
        ensures
            r.text() == data@,
            r.dirty(),
            r.format() == loader,
    {
        MemoryStore { data: data.to_owned(), changed: true, loader }
    }

    /// Update the templates with `data` (replaces it)
    pub fn update(&mut self, data: &str)
        ensures
            final(self).text() == data@,
            final(self).dirty(),
            final(self).format() == old(self).format(),
    {
        self.changed = true;
        self.data = data.to_owned();
    }
}

impl TemplateStore for MemoryStore {
    open spec fn changed_step(before: Self, after: Self, r: bool) -> bool {
        after == before && r == before.dirty()
    }

    open spec fn parse_step(before: Self, after: Self, r: Result<TemplateMap, Error>) -> bool {
        &&& after.text() == before.text()
        &&& after.format() == before.format()
        &&& !after.dirty()
        &&& loaded_as(r, before.format().parsed(before.text()))
    }

    fn parse_map(&mut self) -> (r: Result<TemplateMap, Error>) {
        self.changed = false;
        self.loader.load(self.data.as_str())
    }

    fn changed(&mut self) -> (r: bool) {
        self.changed
    }
}

/// A store that always returns an error
#[derive(Debug, Clone, Copy)]
pub struct NullStore {}

impl NullStore {
    /// Create a new NullStore
    pub fn new() -> (r: NullStore) {
        NullStore {  }
    }
}

impl TemplateStore for NullStore {
    open spec fn changed_step(before: Self, after: Self, r: bool) -> bool {
        !r
    }

    open spec fn parse_step(before: Self, after: Self, r: Result<TemplateMap, Error>) -> bool {
        r matches Err(Error::Io(_))
    }

    fn parse_map(&mut self) -> (r: Result<TemplateMap, Error>) {
        Err(Error::Io("NullStore will always be empty".to_owned()))
    }

    fn changed(&mut self) -> (r: bool) {
        false
    }
}

/// What a merge owes, given what the default and the partial store gave: the
/// default's error where it failed, else the default's map overridden entry by
/// entry with the partial's, where the partial gave one
pub open spec fn merged_as(
    r: Result<TemplateMap, Error>,
    default: Result<TemplateMap, Error>,
    partial: Result<TemplateMap, Error>,
) -> bool {
    match default {
        Err(e) => r == Err::<TemplateMap, Error>(e),
        Ok(d) => r matches Ok(t) && t@ == merged(
            d@,
            match partial {
                Ok(p) => p@,
                Err(_) => Map::empty(),
            },
        ),
    }
}

/// A partial Template store
///
/// This combines two `TemplateStore`s into a single store: the entries of the
/// partial store override those of the default store, one by one.
#[derive(Debug)]
pub struct PartialStore<D, P> {
    default: D,
    partial: P,
}

impl<D, P> PartialStore<D, P> {
    /// The default store
    pub closed spec fn default_store(&self) -> D {
        self.default
    }

    /// The partial store
    pub closed spec fn partial_store(&self) -> P {
        self.partial
    }

    /// Create a new `PartialStore` from a default `TemplateStore` and a partial `TemplateStore`
    pub fn new(default: D, partial: P) -> (r: Self)
        ensures
            r.default_store() == default,
            r.partial_store() == partial,
    {
        PartialStore { default, partial }
    }

    /// Get a reference to the default template store
    pub fn default(&self) -> (r: &D)
        ensures
            *r == self.default_store(),
    {
        &self.default
    }

    /// Get a mutable reference to the default template store
    pub fn default_mut(&mut self) -> (r: &mut D)
        ensures
            *r == old(self).default_store(),
            final(self).partial_store() == old(self).partial_store(),
            final(self).default_store() == *final(r),
    {
        &mut self.default
    }

    /// Get a reference to the partial template store
    pub fn partial(&self) -> (r: &P)
        ensures
            *r == self.partial_store(),
    {
        &self.partial
    }

    /// Get a mutable reference to the partial template store
    pub fn partial_mut(&mut self) -> (r: &mut P)
        ensures
            *r == old(self).partial_store(),
            final(self).default_store() == old(self).default_store(),
            final(self).partial_store() == *final(r),
    {
        &mut self.partial
    }

    /// Consume this wrapper, returning the default and partial stores
    pub fn into_inner(self) -> (r: (D, P))
        ensures
            r == (self.default_store(), self.partial_store()),
    {
        (self.default, self.partial)
    }
}

impl<D: TemplateStore, P: TemplateStore> TemplateStore for PartialStore<D, P> {
    /// Only the partial store is asked: the default store is taken to stay as it
    /// is while the program runs
    open spec fn changed_step(before: Self, after: Self, r: bool) -> bool {
        &&& after.default_store() == before.default_store()
        &&& P::changed_step(before.partial_store(), after.partial_store(), r)
    }

    open spec fn parse_step(before: Self, after: Self, r: Result<TemplateMap, Error>) -> bool {
        exists|rd: Result<TemplateMap, Error>, rp: Result<TemplateMap, Error>|
            #[trigger] D::parse_step(before.default_store(), after.default_store(), rd)
                && #[trigger] P::parse_step(before.partial_store(), after.partial_store(), rp)
                && merged_as(r, rd, rp)
    }

    fn parse_map(&mut self) -> (r: Result<TemplateMap, Error>) {
        let left = self.partial.parse_map();
        let right = self.default.parse_map();
        let ghost rd = right;
        let ghost rp = left;
        let r = match right {
            Err(e) => Err(e),
            Ok(mut right) => {
                match left {
                    Ok(left) => right.extend(left),
                    Err(_) => {
                        proof {
                            assert(merged(right@, Map::empty()) =~= right@);
                        }
                    },
                }
                Ok(right)
            },
        };
        proof {
            assert(merged_as(r, rd, rp));
            assert(D::parse_step(old(self).default_store(), self.default_store(), rd));
            assert(P::parse_step(old(self).partial_store(), self.partial_store(), rp));
            assert(Self::parse_step(*old(self), *self, r));
        }
        r
    }

    fn changed(&mut self) -> (r: bool) {
        self.partial.changed()
    }
}

/// Where the partial store cannot be parsed, a partial store's parse gives what
/// its default store gives, unmodified.
pub proof fn lemma_failed_partial_gives_default<D: TemplateStore, P: TemplateStore>(
    before: PartialStore<D, P>,
    after: PartialStore<D, P>,
    r: Result<TemplateMap, Error>,
)
    requires
        PartialStore::<D, P>::parse_step(before, after, r),
        forall|p: P, rp: Result<TemplateMap, Error>| #[trigger]
            P::parse_step(before.partial_store(), p, rp) ==> rp is Err,
    ensures
        exists|rd: Result<TemplateMap, Error>| #[trigger]
            D::parse_step(before.default_store(), after.default_store(), rd) && match rd {
                Ok(d) => r matches Ok(t) && t@ == d@,
                Err(e) => r == Err::<TemplateMap, Error>(e),
            },
{
    let (rd, rp) = choose|rd: Result<TemplateMap, Error>, rp: Result<TemplateMap, Error>|
        #[trigger] D::parse_step(before.default_store(), after.default_store(), rd)
            && #[trigger] P::parse_step(before.partial_store(), after.partial_store(), rp)
            && merged_as(r, rd, rp);
    if let Ok(d) = rd {
        lemma_merge_nothing(d@);
    }
    assert(D::parse_step(before.default_store(), after.default_store(), rd));
}

impl<T: TemplateStore> TemplateStore for Option<T> {
    /// A present store is asked; a missing one is always taken to have changed
    open spec fn changed_step(before: Self, after: Self, r: bool) -> bool {
        match before {
            None => after is None && r,
            Some(s) => after matches Some(t) && T::changed_step(s, t, r),
        }
    }

    open spec fn parse_step(before: Self, after: Self, r: Result<TemplateMap, Error>) -> bool {
        match before {
            None => after is None && r matches Err(Error::Io(_)),
            Some(s) => after matches Some(t) && T::parse_step(s, t, r),
        }
    }

    fn parse_map(&mut self) -> (r: Result<TemplateMap, Error>) {
        match self {
            None => Err(Error::Io("None store always returns an error".to_owned())),
            Some(s) => s.parse_map(),
        }
    }

    fn changed(&mut self) -> (r: bool) {
        match self {
            None => true,
            Some(s) => s.changed(),
        }
    }
}

impl<T: TemplateStore> TemplateStore for Box<T> {
    open spec fn changed_step(before: Self, after: Self, r: bool) -> bool {
        T::changed_step(*before, *after, r)
    }

    open spec fn parse_step(before: Self, after: Self, r: Result<TemplateMap, Error>) -> bool {
        T::parse_step(*before, *after, r)
    }

    fn parse_map(&mut self) -> (r: Result<TemplateMap, Error>) {
        (**self).parse_map()
    }

    fn changed(&mut self) -> (r: bool) {
        (**self).changed()
    }
}

impl<'a, T: TemplateStore> TemplateStore for &'a mut T {
    open spec fn changed_step(before: Self, after: Self, r: bool) -> bool {
        T::changed_step(*before, *after, r)
    }

    open spec fn parse_step(before: Self, after: Self, r: Result<TemplateMap, Error>) -> bool {
        T::parse_step(*before, *after, r)
    }

    fn parse_map(&mut self) -> (r: Result<TemplateMap, Error>) {
        (**self).parse_map()
    }

    fn changed(&mut self) -> (r: bool) {
        (**self).changed()
    }
}

/// What a file store makes of one look at its file: the time it keeps next, and
/// whether it reports a change. Before any look it takes `now` and reports a
/// change; after that, only a modification time strictly later than the one kept
/// is a change, and a file that could not be looked at is none.
pub open spec fn observed(last: Option<i128>, now: i128, modified: Option<i128>) -> (Option<i128>, bool) {
    match last {
        None => (Some(now), true),
        Some(prev) => {
            if modified is Some && modified->0 > prev {
                (modified, true)
            } else {
                (last, false)
            }
        },
    }
}

/// A file store's first look always reports a change; after that a strictly
/// later modification time is reported as a change exactly once, and an equal
/// or earlier one, or a failed look, is not.
pub proof fn lemma_change_detection(prev: i128, now: i128, later: i128, earlier: i128)
    requires
        later > prev,
        earlier <= prev,
    ensures
        observed(None, now, None) == (Some(now), true),
        observed(Some(prev), now, Some(later)) == (Some(later), true),
        observed(Some(later), now, Some(later)) == (Some(later), false),
        observed(Some(prev), now, Some(earlier)) == (Some(prev), false),
        observed(Some(prev), now, None) == (Some(prev), false),
{
}

/// A path of the file system, carried through and never looked into
#[verifier::external_type_specification]
#[verifier::external_body]
pub struct ExPathBuf(std::path::PathBuf);

/// A file-based backing for templates
///
/// It holds what it decides on: the path, the modification time last taken (in
/// nanoseconds from the Unix epoch, negative before it), and the format. The caller looks at the file
/// and reads it, and hands the outcome to `changed` and `parse_map`.
#[derive(Debug)]
pub struct FileStore {
    file: PathBuf,
    last: Option<i128>,
    loader: LoadFunction,
}

impl FileStore {
    /// The path of the file
    pub closed spec fn path(&self) -> PathBuf {
        self.file
    }

    /// The modification time last taken, if any
    pub closed spec fn last_seen(&self) -> Option<i128> {
        self.last
    }

    /// The format that the file is read in
    pub closed spec fn format(&self) -> LoadFunction {
        self.loader
    }

    /// Create a store from this path
    pub fn new(file: PathBuf, loader: LoadFunction) -> (r: Result<FileStore, Error>)
        ensures
            r matches Ok(s) && s.path() == file && s.last_seen() is None && s.format() == loader,
    {
        Ok(FileStore { file, last: None, loader })
    }

    /// The path of the file
    pub fn file(&self) -> (r: &PathBuf)
        ensures
            *r == self.path(),
    {
        &self.file
    }

    /// The modification time last taken, if any
    pub fn last(&self) -> (r: Option<i128>)
        ensures
            r == self.last_seen(),
    {
        self.last
    }

    /// The format that the file is read in
    pub fn loader(&self) -> (r: LoadFunction)
        ensures
            r == self.format(),
    {
        self.loader
    }

    /// Returns whether the file changed, given the time `now` and the file's
    /// modification time (`None` where it could not be had)
    pub fn changed(&mut self, now: i128, modified: Option<i128>) -> (r: bool)
        ensures
            (final(self).last_seen(), r) == observed(old(self).last_seen(), now, modified),
            final(self).path() == old(self).path(),
            final(self).format() == old(self).format(),
    {
        match self.last {
            None => {
                self.last = Some(now);
                true
            },
            Some(prev) => match modified {
                Some(time) => {
                    if time > prev {
                        self.last = Some(time);
                        true
                    } else {
                        false
                    }
                },
                None => false,
            },
        }
    }

    /// Parses the file's contents, or passes on the error met in reading them
    pub fn parse_map(&self, contents: Result<String, Error>) -> (r: Result<TemplateMap, Error>)
        ensures
            match contents {
                Ok(text) => loaded_as(r, self.format().parsed(text@)),
                Err(e) => r == Err::<TemplateMap, Error>(e),
            },
    {
        match contents {
            Ok(text) => self.loader.load(text.as_str()),
            Err(e) => Err(e),
        }
    }
}

} // verus!
