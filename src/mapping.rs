use vstd::prelude::*;

verus! {

/// The map that a sequence of keyed entries stands for: where a key occurs
/// more than once, its last entry wins.
pub open spec fn last_wins<V>(s: Seq<(Seq<char>, V)>) -> Map<Seq<char>, V>
    decreases s.len(),
{
    if s.len() == 0 {
        Map::empty()
    } else {
        last_wins(s.drop_last()).insert(s.last().0, s.last().1)
    }
}

/// A key that no entry carries is not in the map.
pub proof fn lemma_last_wins_absent<V>(s: Seq<(Seq<char>, V)>, k: Seq<char>)
    requires
        forall|i: int| 0 <= i < s.len() ==> s[i].0 != k,
    ensures
        !last_wins(s).contains_key(k),
    decreases s.len(),
{
    if s.len() > 0 {
        lemma_last_wins_absent(s.drop_last(), k);
    }
}

/// The last entry that carries a key gives its value.
pub proof fn lemma_last_wins_at<V>(s: Seq<(Seq<char>, V)>, k: Seq<char>, j: int)
    requires
        0 <= j < s.len(),
        s[j].0 == k,
        forall|i: int| j < i < s.len() ==> s[i].0 != k,
    ensures
        last_wins(s).contains_key(k),
        last_wins(s)[k] == s[j].1,
    decreases s.len(),
{
    if j < s.len() - 1 {
        lemma_last_wins_at(s.drop_last(), k, j);
    }
}

/// Replacing the value at the last entry of a key replaces that key's value.
pub proof fn lemma_last_wins_update<V>(s: Seq<(Seq<char>, V)>, j: int, v: V)
    requires
        0 <= j < s.len(),
        forall|i: int| j < i < s.len() ==> s[i].0 != s[j].0,
    ensures
        last_wins(s.update(j, (s[j].0, v))) == last_wins(s).insert(s[j].0, v),
    decreases s.len(),
{
    let t = s.update(j, (s[j].0, v));
    if j == s.len() - 1 {
        assert(t.drop_last() =~= s.drop_last());
        assert(last_wins(t) =~= last_wins(s).insert(s[j].0, v));
    } else {
        assert(t.drop_last() =~= s.drop_last().update(j, (s[j].0, v)));
        lemma_last_wins_update(s.drop_last(), j, v);
        assert(last_wins(t) =~= last_wins(s).insert(s[j].0, v));
    }
}

/// Entries appended after others override them.
pub proof fn lemma_last_wins_concat<V>(a: Seq<(Seq<char>, V)>, b: Seq<(Seq<char>, V)>)
    ensures
        last_wins(a + b) == last_wins(a).union_prefer_right(last_wins(b)),
    decreases b.len(),
{
    if b.len() == 0 {
        assert(a + b =~= a);
        assert(last_wins(a).union_prefer_right(last_wins(b)) =~= last_wins(a));
    } else {
        assert((a + b).drop_last() =~= a + b.drop_last());
        lemma_last_wins_concat(a, b.drop_last());
        assert(last_wins(a + b) =~= last_wins(a).union_prefer_right(last_wins(b)));
    }
}

/// No key occurs in two entries.
pub open spec fn distinct_keys<V>(s: Seq<(Seq<char>, V)>) -> bool {
    forall|i: int, j: int| 0 <= i < j < s.len() ==> s[i].0 != s[j].0
}

/// The keys and values of string pairs, as character sequences
pub open spec fn pairs_view(s: Seq<(String, String)>) -> Seq<(Seq<char>, Seq<char>)> {
    s.map_values(|p: (String, String)| (p.0@, p.1@))
}

/// A mapping of template names to template strings
#[derive(Debug)]
pub struct Mapping {
    entries: Vec<(String, String)>,
}

impl View for Mapping {
    type V = Map<Seq<char>, Seq<char>>;

    closed spec fn view(&self) -> Map<Seq<char>, Seq<char>> {
        last_wins(pairs_view(self.entries@))
    }
}

impl Mapping {
    /// A mapping with no entries
    pub fn new() -> (r: Mapping)
        ensures
            r@ == Map::<Seq<char>, Seq<char>>::empty(),
    {
        Mapping { entries: Vec::new() }
    }

    /// A mapping of these (name, template) pairs; a later pair overrides an earlier one of the same name
    pub fn from_entries(entries: Vec<(String, String)>) -> (r: Mapping)
        ensures
            r@ == last_wins(pairs_view(entries@)),
    {
        Mapping { entries }
    }

    /// Sets `name` to `value`, overriding any earlier value
    pub fn insert(&mut self, name: String, value: String)
        ensures
            final(self)@ == old(self)@.insert(name@, value@),
    {
        let ghost before = self.entries@;
        self.entries.push((name, value));
        proof {
            assert(pairs_view(self.entries@).drop_last() =~= pairs_view(before));
        }
    }

    /// Adds every entry of `other`, whose values override those of this mapping
    pub fn append(&mut self, other: Mapping)
        ensures
            final(self)@ == old(self)@.union_prefer_right(other@),
    {
        let ghost a = self.entries@;
        let mut rest = other.entries;
        let ghost b = rest@;
        self.entries.append(&mut rest);
        proof {
            assert(pairs_view(self.entries@) =~= pairs_view(a) + pairs_view(b));
            lemma_last_wins_concat(pairs_view(a), pairs_view(b));
        }
    }

    /// Tries to get the value for the key
    pub fn get(&self, key: &str) -> (r: Option<&String>)
        ensures
            r is Some <==> self@.contains_key(key@),
            r matches Some(v) ==> v@ == self@[key@],
    {
        let k = key.to_owned();
        let n = self.entries.len();
        let mut i: usize = n;
        while i > 0
            invariant
                i <= n,
                n == self.entries.len(),
                k@ == key@,
                forall|j: int| i <= j < n ==> pairs_view(self.entries@)[j].0 != key@,
            decreases i,
        {
            i = i - 1;
            if self.entries[i].0 == k {
                proof {
                    lemma_last_wins_at(pairs_view(self.entries@), key@, i as int);
                }
                return Some(&self.entries[i].1);
            }
        }
        proof {
            lemma_last_wins_absent(pairs_view(self.entries@), key@);
        }
        None
    }
}

/// The namespaces and mappings of a namespace list, as views
pub open spec fn namespaces_view(s: Seq<(String, Mapping)>) -> Seq<(Seq<char>, Map<Seq<char>, Seq<char>>)> {
    s.map_values(|p: (String, Mapping)| (p.0@, p.1@))
}

/// What a map of namespaces holds under `ns`; nothing where it lacks `ns`
pub open spec fn namespace_or_empty(
    m: Map<Seq<char>, Map<Seq<char>, Seq<char>>>,
    ns: Seq<char>,
) -> Map<Seq<char>, Seq<char>> {
    if m.contains_key(ns) {
        m[ns]
    } else {
        Map::empty()
    }
}

/// Entry-level override: each (namespace, name) of `partial` takes the place of
/// the same one in `default`, and every other entry of `default` stays.
pub open spec fn merged(
    default: Map<Seq<char>, Map<Seq<char>, Seq<char>>>,
    partial: Map<Seq<char>, Map<Seq<char>, Seq<char>>>,
) -> Map<Seq<char>, Map<Seq<char>, Seq<char>>> {
    Map::new(
        |ns: Seq<char>| default.contains_key(ns) || partial.contains_key(ns),
        |ns: Seq<char>|
            if partial.contains_key(ns) {
                namespace_or_empty(default, ns).union_prefer_right(partial[ns])
            } else {
                default[ns]
            },
    )
}

/// The template string under `ns` and `name`, if there is one
pub open spec fn lookup(
    m: Map<Seq<char>, Map<Seq<char>, Seq<char>>>,
    ns: Seq<char>,
    name: Seq<char>,
) -> Option<Seq<char>> {
    if m.contains_key(ns) && m[ns].contains_key(name) {
        Some(m[ns][name])
    } else {
        None
    }
}

/// In a merge, the partial map wins for each namespace and name that it holds,
/// and every other entry of the default map survives.
pub proof fn lemma_merge_precedence(
    default: Map<Seq<char>, Map<Seq<char>, Seq<char>>>,
    partial: Map<Seq<char>, Map<Seq<char>, Seq<char>>>,
    ns: Seq<char>,
    name: Seq<char>,
)
    ensures
        lookup(merged(default, partial), ns, name) == if lookup(partial, ns, name) is Some {
            lookup(partial, ns, name)
        } else {
            lookup(default, ns, name)
        },
{
}

/// A namespace that a map lacks holds no template under any name.
pub proof fn lemma_unknown_key(m: Map<Seq<char>, Map<Seq<char>, Seq<char>>>, ns: Seq<char>, name: Seq<char>)
    requires
        !m.contains_key(ns),
    ensures
        lookup(m, ns, name) is None,
{
}

/// A merge with no overrides leaves the default map as it is.
pub proof fn lemma_merge_nothing(default: Map<Seq<char>, Map<Seq<char>, Seq<char>>>)
    ensures
        merged(default, Map::empty()) == default,
{
    assert(merged(default, Map::empty()) =~= default);
}

/// A map of namespaces to their template mappings
#[derive(Debug)]
pub struct TemplateMap {
    namespaces: Vec<(String, Mapping)>,
}

impl View for TemplateMap {
    type V = Map<Seq<char>, Map<Seq<char>, Seq<char>>>;

    closed spec fn view(&self) -> Map<Seq<char>, Map<Seq<char>, Seq<char>>> {
        last_wins(namespaces_view(self.namespaces@))
    }
}

impl TemplateMap {
    #[verifier::type_invariant]
    spec fn inv(&self) -> bool {
        distinct_keys(namespaces_view(self.namespaces@))
    }

    /// A map with no namespaces
    pub fn new() -> (r: TemplateMap)
        ensures
            r@ == Map::<Seq<char>, Map<Seq<char>, Seq<char>>>::empty(),
    {
        TemplateMap { namespaces: Vec::new() }
    }

    /// A map of these namespaces, no two of which are equal
    pub fn from_namespaces(namespaces: Vec<(String, Mapping)>) -> (r: TemplateMap)
        requires
            distinct_keys(namespaces_view(namespaces@)),
        ensures
            r@ == last_wins(namespaces_view(namespaces@)),
    {
        TemplateMap { namespaces }
    }

    /// The number of namespaces
    pub fn len(&self) -> (r: usize)
        ensures
            r == self@.len(),
    {
        proof {
            use_type_invariant(self);
            lemma_distinct_len(namespaces_view(self.namespaces@));
        }
        self.namespaces.len()
    }

    /// The position of `ns` among the namespaces, if it is there
    fn position(&self, ns: &String) -> (r: Option<usize>)
        ensures
            match r {
                Some(j) => j < self.namespaces@.len() && self.namespaces@[j as int].0@ == ns@,
                None => forall|i: int|
                    0 <= i < self.namespaces@.len() ==> self.namespaces@[i].0@ != ns@,
            },
    {
        let n = self.namespaces.len();
        let mut i: usize = 0;
        while i < n
            invariant
                i <= n,
                n == self.namespaces.len(),
                forall|j: int| 0 <= j < i ==> self.namespaces@[j].0@ != ns@,
            decreases n - i,
        {
            if self.namespaces[i].0 == *ns {
                return Some(i);
            }
            i = i + 1;
        }
        None
    }

    /// Tries to get the mapping of the namespace `ns`
    pub fn get(&self, ns: &str) -> (r: Option<&Mapping>)
        ensures
            r is Some <==> self@.contains_key(ns@),
            r matches Some(m) ==> m@ == self@[ns@],
    {
        proof {
            use_type_invariant(self);
        }
        let k = ns.to_owned();
        let ghost s = namespaces_view(self.namespaces@);
        match self.position(&k) {
            Some(j) => {
                proof {
                    assert forall|i: int| j < i < s.len() implies s[i].0 != ns@ by {
                        assert(s[j as int].0 != s[i].0);
                    }
                    lemma_last_wins_at(s, ns@, j as int);
                }
                Some(&self.namespaces[j].1)
            },
            None => {
                proof {
                    lemma_last_wins_absent(s, ns@);
                }
                None
            },
        }
    }

    /// Adds the entries of `m` to the namespace `ns`, overriding those of the same name
    pub fn merge_namespace(&mut self, ns: String, m: Mapping)
        ensures
            final(self)@ == old(self)@.insert(ns@, namespace_or_empty(old(self)@, ns@).union_prefer_right(m@)),
    {
        proof {
            use_type_invariant(&*self);
        }
        let ghost s = namespaces_view(self.namespaces@);
        let found = self.position(&ns);
        let mut taken = TemplateMap::new();
        core::mem::swap(self, &mut taken);
        proof {
            use_type_invariant(&taken);
        }
        let TemplateMap { namespaces: mut v } = taken;
        match found {
            Some(j) => {
                proof {
                    assert forall|i: int| j < i < s.len() implies s[i].0 != ns@ by {
                        assert(s[j as int].0 != s[i].0);
                    }
                    lemma_last_wins_at(s, ns@, j as int);
                }
                let (k, mut cur) = v.remove(j);
                cur.append(m);
                v.insert(j, (k, cur));
                proof {
                    assert(namespaces_view(v@) =~= s.update(j as int, (ns@, cur@)));
                    lemma_last_wins_update(s, j as int, cur@);
                    assert(distinct_keys(namespaces_view(v@))) by {
                        assert forall|a: int, b: int| 0 <= a < b < v@.len() implies
                            namespaces_view(v@)[a].0 != namespaces_view(v@)[b].0 by {
                            assert(s[a].0 != s[b].0);
                        }
                    }
                }
            },
            None => {
                proof {
                    lemma_last_wins_absent(s, ns@);
                    assert(Map::<Seq<char>, Seq<char>>::empty().union_prefer_right(m@) =~= m@);
                }
                v.push((ns, m));
                proof {
                    assert(namespaces_view(v@).drop_last() =~= s);
                    assert(distinct_keys(namespaces_view(v@))) by {
                        assert forall|a: int, b: int| 0 <= a < b < v@.len() implies
                            namespaces_view(v@)[a].0 != namespaces_view(v@)[b].0 by {
                            if b < s.len() {
                                assert(s[a].0 != s[b].0);
                            }
                        }
                    }
                }
            },
        }
        *self = TemplateMap { namespaces: v };
    }

    /// Merges `partial` into this map, entry by entry: its entries override those of
    /// the same namespace and name, and every other entry stays
    pub fn extend(&mut self, partial: TemplateMap)
        ensures
            final(self)@ == merged(old(self)@, partial@),
    {
        proof {
            use_type_invariant(&partial);
        }
        let ghost d = self@;
        let ghost s = namespaces_view(partial.namespaces@);
        let TemplateMap { namespaces: mut rest } = partial;
        let ghost all = rest@;
        let n = rest.len();
        let mut i: usize = 0;
        proof {
            assert(s.take(0) =~= Seq::<(Seq<char>, Map<Seq<char>, Seq<char>>)>::empty());
            assert(merged(d, Map::empty()) =~= d);
        }
        while i < n
            invariant
                n == all.len(),
                i <= n,
                s == namespaces_view(all),
                distinct_keys(s),
                rest@ == all.subrange(i as int, n as int),
                self@ == merged(d, last_wins(s.take(i as int))),
            decreases n - i,
        {
            let (ns, m) = rest.remove(0);
            let ghost p = last_wins(s.take(i as int));
            proof {
                assert(all[i as int] == (ns, m));
                assert forall|j: int| 0 <= j < s.take(i as int).len() implies s.take(i as int)[j].0 != ns@ by {
                    assert(s[j].0 != s[i as int].0);
                }
                lemma_last_wins_absent(s.take(i as int), ns@);
                assert(s.take(i as int + 1).drop_last() =~= s.take(i as int));
            }
            let ghost mv = m@;
            self.merge_namespace(ns, m);
            i = i + 1;
            proof {
                assert(last_wins(s.take(i as int)) == p.insert(s[i - 1].0, mv));
                assert(merged(d, p.insert(s[i - 1].0, mv)) =~= merged(d, p).insert(
                    s[i - 1].0,
                    namespace_or_empty(merged(d, p), s[i - 1].0).union_prefer_right(mv),
                ));
            }
        }
        proof {
            assert(s.take(n as int) =~= s);
        }
    }
}

/// A map over distinct keys has one key per entry.
proof fn lemma_distinct_len<V>(s: Seq<(Seq<char>, V)>)
    requires
        distinct_keys(s),
    ensures
        last_wins(s).len() == s.len(),
        last_wins(s).dom().finite(),
    decreases s.len(),
{
    if s.len() > 0 {
        lemma_distinct_len(s.drop_last());
        lemma_last_wins_absent(s.drop_last(), s.last().0);
    }
}

} // verus!
