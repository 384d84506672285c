//! A map from names to values, kept in the order of the names.

use vstd::prelude::*;

use crate::text::to_chars;

verus! {

// ---------------------------------------------------------------------------
// The order of names

/// Whether `a` comes before `b` in lexicographic order.
pub open spec fn lex_before(a: Seq<char>, b: Seq<char>) -> bool
    decreases a.len(),
{
    if b.len() == 0 {
        false
    } else if a.len() == 0 {
        true
    } else if a[0] != b[0] {
        a[0] < b[0]
    } else {
        lex_before(a.skip(1), b.skip(1))
    }
}

pub proof fn lemma_lex_irreflexive(a: Seq<char>)
    ensures
        !lex_before(a, a),
    decreases a.len(),
{
    if a.len() > 0 {
        lemma_lex_irreflexive(a.skip(1));
    }
}

pub proof fn lemma_lex_transitive(a: Seq<char>, b: Seq<char>, c: Seq<char>)
    requires
        lex_before(a, b),
        lex_before(b, c),
    ensures
        lex_before(a, c),
    decreases a.len(),
{
    if a.len() > 0 && a[0] == b[0] && b[0] == c[0] {
        lemma_lex_transitive(a.skip(1), b.skip(1), c.skip(1));
    }
}

pub proof fn lemma_lex_total(a: Seq<char>, b: Seq<char>)
    ensures
        a == b || lex_before(a, b) || lex_before(b, a),
    decreases a.len(),
{
    if a.len() > 0 && b.len() > 0 {
        if a[0] == b[0] {
            lemma_lex_total(a.skip(1), b.skip(1));
            if a.skip(1) == b.skip(1) {
                assert(a =~= seq![a[0]] + a.skip(1));
                assert(b =~= seq![b[0]] + b.skip(1));
            }
        }
    } else if a.len() == 0 && b.len() == 0 {
        assert(a =~= b);
    }
}

/// Whether `a` comes before `b` in lexicographic order.
pub fn is_before(a: &str, b: &str) -> (r: bool)
    ensures
        r == lex_before(a@, b@),
{
    let x = to_chars(a);
    let y = to_chars(b);
    let mut i: usize = 0;
    assert(x@.skip(0) =~= x@);
    assert(y@.skip(0) =~= y@);
    loop
        invariant
            x@ == a@,
            y@ == b@,
            i <= x@.len(),
            i <= y@.len(),
            lex_before(a@, b@) == lex_before(x@.skip(i as int), y@.skip(i as int)),
        decreases x@.len() - i,
    {
        if i == y.len() {
            return false;
        }
        if i == x.len() {
            return true;
        }
        if x[i] != y[i] {
            return x[i] < y[i];
        }
        assert(x@.skip(i as int).skip(1) =~= x@.skip(i + 1));
        assert(y@.skip(i as int).skip(1) =~= y@.skip(i + 1));
        i = i + 1;
    }
}

// ---------------------------------------------------------------------------
// The map

/// Whether the names of `entries` stand in strictly ascending order.
pub open spec fn ascending<V>(entries: Seq<(String, V)>) -> bool {
    forall|i: int, j: int|
        0 <= i < j < entries.len() ==> lex_before(#[trigger] entries[i].0@, #[trigger] entries[j].0@)
}

/// Whether `entries[i]` carries the name `key`.
pub open spec fn named<V>(entries: Seq<(String, V)>, i: int, key: Seq<char>) -> bool {
    0 <= i < entries.len() && entries[i].0@ == key
}

/// The map that `entries` stands for.
pub open spec fn entries_map<V>(entries: Seq<(String, V)>) -> Map<Seq<char>, V> {
    Map::new(
        |key: Seq<char>| exists|i: int| named(entries, i, key),
        |key: Seq<char>| entries[choose|i: int| named(entries, i, key)].1,
    )
}

proof fn lemma_entry<V>(entries: Seq<(String, V)>, i: int)
    requires
        ascending(entries),
        0 <= i < entries.len(),
    ensures
        entries_map(entries).contains_key(entries[i].0@),
        entries_map(entries)[entries[i].0@] == entries[i].1,
{
    let key = entries[i].0@;
    assert(named(entries, i, key));
    let j = choose|j: int| named(entries, j, key);
    assert(named(entries, j, key));
    lemma_lex_irreflexive(key);
    if i < j {
        assert(lex_before(entries[i].0@, entries[j].0@));
    }
    if j < i {
        assert(lex_before(entries[j].0@, entries[i].0@));
    }
}

/// The names of `entries`.
pub open spec fn entry_names<V>(entries: Seq<(String, V)>) -> Seq<Seq<char>> {
    Seq::new(entries.len(), |i: int| entries[i].0@)
}

/// Whether `names` stand in strictly ascending order.
pub open spec fn names_ascend(names: Seq<Seq<char>>) -> bool {
    forall|i: int, j: int|
        0 <= i < j < names.len() ==> lex_before(#[trigger] names[i], #[trigger] names[j])
}

/// Whether `names` lists the domain of `m`, ascending and each name once.
pub open spec fn lists_domain<V>(names: Seq<Seq<char>>, m: Map<Seq<char>, V>) -> bool {
    &&& names_ascend(names)
    &&& names.no_duplicates()
    &&& forall|k: Seq<char>| m.contains_key(k) <==> names.contains(k)
    &&& m.dom().finite()
    &&& m.dom().len() == names.len()
}

proof fn lemma_names<V>(entries: Seq<(String, V)>)
    requires
        ascending(entries),
    ensures
        lists_domain(entry_names(entries), entries_map(entries)),
{
    let names = entry_names(entries);
    let m = entries_map(entries);
    assert forall|i: int, j: int| 0 <= i < j < names.len() implies lex_before(
        #[trigger] names[i],
        #[trigger] names[j],
    ) by {
        assert(lex_before(entries[i].0@, entries[j].0@));
    }
    assert forall|i: int, j: int|
        0 <= i < names.len() && 0 <= j < names.len() && i != j implies names[i] != names[j] by {
        lemma_lex_irreflexive(names[i]);
        if i < j {
            assert(lex_before(names[i], names[j]));
        } else {
            assert(lex_before(names[j], names[i]));
        }
    }
    assert forall|k: Seq<char>| m.contains_key(k) <==> names.contains(k) by {
        if m.contains_key(k) {
            let i = choose|i: int| named(entries, i, k);
            assert(names[i] == k);
        }
        if names.contains(k) {
            let i = choose|i: int| 0 <= i < names.len() && names[i] == k;
            assert(named(entries, i, k));
        }
    }
    names.unique_seq_to_set();
    assert(m.dom() =~= names.to_set());
}

/// A map from names to values.
#[derive(Debug, PartialEq)]
pub struct KeyedMap<V> {
    entries: Vec<(String, V)>,
}

impl<V> View for KeyedMap<V> {
    type V = Map<Seq<char>, V>;

    closed spec fn view(&self) -> Map<Seq<char>, V> {
        entries_map(self.entries@)
    }
}

impl<V> KeyedMap<V> {
    #[verifier::type_invariant]
    closed spec fn ordered(&self) -> bool {
        ascending(self.entries@)
    }

    /// The names of the map, in ascending order.
    pub closed spec fn names(&self) -> Seq<Seq<char>> {
        entry_names(self.entries@)
    }

    /// A map without entries.
    pub fn new() -> (r: KeyedMap<V>)
        ensures
            r@ == Map::<Seq<char>, V>::empty(),
    {
        let r = KeyedMap { entries: Vec::new() };
        assert(r@ =~= Map::<Seq<char>, V>::empty()) by {
            assert forall|k: Seq<char>| !r@.contains_key(k) by {
                assert forall|i: int| !named(r.entries@, i, k) by {}
            }
        }
        r
    }

    /// The number of entries. The names ascend, and are those of the map's domain, once each.
    pub fn len(&self) -> (r: usize)
        ensures
            r == self.names().len(),
            lists_domain(self.names(), self@),
    {
        proof {
            use_type_invariant(self);
            lemma_names(self.entries@);
        }
        self.entries.len()
    }

    /// The position of the first name that does not come before `key`.
    fn position(&self, key: &str) -> (r: usize)
        ensures
            r <= self.entries@.len(),
            forall|j: int| 0 <= j < r ==> lex_before((#[trigger] self.entries@[j]).0@, key@),
            r < self.entries@.len() ==> !lex_before(self.entries@[r as int].0@, key@),
    {
        let mut i: usize = 0;
        while i < self.entries.len() && is_before(self.entries[i].0.as_str(), key)
            invariant
                i <= self.entries@.len(),
                forall|j: int| 0 <= j < i ==> lex_before((#[trigger] self.entries@[j]).0@, key@),
            decreases self.entries@.len() - i,
        {
            i = i + 1;
        }
        i
    }

    /// The position of `key`, where the map has it.
    fn locate(&self, key: &str) -> (r: Option<usize>)
        ensures
            match r {
                Some(i) => named(self.entries@, i as int, key@) && self@.contains_key(key@)
                    && self@[key@] == self.entries@[i as int].1,
                None => !self@.contains_key(key@),
            },
    {
        proof {
            use_type_invariant(self);
        }
        let i: usize = self.position(key);
        if i < self.entries.len() && !is_before(key, self.entries[i].0.as_str()) {
            proof {
                lemma_lex_total(self.entries@[i as int].0@, key@);
                lemma_entry(self.entries@, i as int);
            }
            Some(i)
        } else {
            proof {
                lemma_lex_irreflexive(key@);
                assert forall|j: int| !named(self.entries@, j, key@) by {
                    if 0 <= j < i {
                        assert(lex_before(self.entries@[j].0@, key@));
                    } else if i < j < self.entries@.len() {
                        assert(lex_before(self.entries@[i as int].0@, self.entries@[j].0@));
                        if self.entries@[j].0@ == key@ {
                            assert(lex_before(self.entries@[i as int].0@, key@));
                        }
                    }
                }
            }
            None
        }
    }

    /// Whether the map has an entry for `key`.
    pub fn contains_key(&self, key: &str) -> (r: bool)
        ensures
            r == self@.contains_key(key@),
    {
        self.locate(key).is_some()
    }

    /// The value of `key`.
    pub fn get(&self, key: &str) -> (r: Option<&V>)
        ensures
            match r {
                Some(v) => self@.contains_key(key@) && *v == self@[key@],
                None => !self@.contains_key(key@),
            },
    {
        match self.locate(key) {
            Some(i) => Some(&self.entries[i].1),
            None => None,
        }
    }

    /// The `i`-th name, in ascending order.
    pub fn name_at(&self, i: usize) -> (r: &String)
        requires
            i < self.names().len(),
        ensures
            r@ == self.names()[i as int],
            self@.contains_key(r@),
    {
        proof {
            use_type_invariant(self);
            lemma_entry(self.entries@, i as int);
        }
        &self.entries[i].0
    }

    /// The value of the `i`-th name, in ascending order of names.
    pub fn value_at(&self, i: usize) -> (r: &V)
        requires
            i < self.names().len(),
        ensures
            self@.contains_key(self.names()[i as int]),
            *r == self@[self.names()[i as int]],
    {
        proof {
            use_type_invariant(self);
            lemma_entry(self.entries@, i as int);
        }
        &self.entries[i].1
    }

    /// Sets the value of `key`.
    pub fn insert(&mut self, key: String, value: V)
        ensures
            final(self)@ == old(self)@.insert(key@, value),
    {
        proof {
            use_type_invariant(&*self);
        }
        let ghost was = self.entries@;
        let ghost k = key@;
        let i: usize = self.position(key.as_str());
        if i < self.entries.len() && !is_before(key.as_str(), self.entries[i].0.as_str()) {
            proof {
                lemma_lex_total(was[i as int].0@, k);
            }
            let mut entries: Vec<(String, V)> = Vec::new();
            std::mem::swap(&mut entries, &mut self.entries);
            entries.set(i, (key, value));
            proof {
                lemma_replaced(was, i as int, entries@[i as int]);
            }
            self.entries = entries;
        } else {
            proof {
                if i < was.len() {
                    lemma_lex_total(was[i as int].0@, k);
                }
            }
            let mut entries: Vec<(String, V)> = Vec::new();
            std::mem::swap(&mut entries, &mut self.entries);
            entries.insert(i, (key, value));
            proof {
                lemma_inserted(was, i as int, entries@[i as int]);
            }
            self.entries = entries;
        }
    }

    /// Takes the entry of `key` out of the map.
    pub fn remove(&mut self, key: &str) -> (r: Option<V>)
        ensures
            final(self)@ == old(self)@.remove(key@),
            match r {
                Some(v) => old(self)@.contains_key(key@) && v == old(self)@[key@],
                None => !old(self)@.contains_key(key@),
            },
    {
        proof {
            use_type_invariant(&*self);
        }
        match self.locate(key) {
            Some(i) => {
                let ghost was = self.entries@;
                let mut entries: Vec<(String, V)> = Vec::new();
                std::mem::swap(&mut entries, &mut self.entries);
                let (_, value) = entries.remove(i);
                proof {
                    lemma_removed(was, i as int);
                }
                self.entries = entries;
                Some(value)
            },
            None => {
                assert(self@.remove(key@) =~= self@);
                None
            },
        }
    }
}

impl<V: Clone> Clone for KeyedMap<V> {
    fn clone(&self) -> (r: KeyedMap<V>)
        ensures
            r.names() == self.names(),
            r@.dom() == self@.dom(),
            forall|k: Seq<char>| #[trigger] r@.contains_key(k) ==> cloned(self@[k], r@[k]),
    {
        proof {
            use_type_invariant(self);
        }
        let mut entries: Vec<(String, V)> = Vec::new();
        let mut i: usize = 0;
        while i < self.entries.len()
            invariant
                i <= self.entries@.len(),
                entries@.len() == i,
                forall|j: int|
                    0 <= j < i ==> (#[trigger] entries@[j]).0@ == self.entries@[j].0@ && cloned(
                        self.entries@[j].1,
                        entries@[j].1,
                    ),
            decreases self.entries@.len() - i,
        {
            entries.push((self.entries[i].0.clone(), self.entries[i].1.clone()));
            i = i + 1;
        }
        assert forall|a: int, b: int| 0 <= a < b < entries@.len() implies lex_before(
            #[trigger] entries@[a].0@,
            #[trigger] entries@[b].0@,
        ) by {
            assert(lex_before(self.entries@[a].0@, self.entries@[b].0@));
        }
        proof {
            let was = self.entries@;
            let now = entries@;
            assert forall|k: Seq<char>| #[trigger] entries_map(now).contains_key(k) implies
                entries_map(was).contains_key(k) && cloned(entries_map(was)[k], entries_map(now)[k]) by {
                let i = choose|i: int| named(now, i, k);
                assert(named(now, i, k));
                lemma_entry(was, i);
                lemma_entry(now, i);
            }
            assert forall|k: Seq<char>| #[trigger] entries_map(was).contains_key(k) implies
                entries_map(now).contains_key(k) by {
                let i = choose|i: int| named(was, i, k);
                assert(named(was, i, k));
                assert(now[i].0@ == was[i].0@);
                lemma_entry(now, i);
            }
            assert(entries_map(now).dom() =~= entries_map(was).dom());
        }
        let r = KeyedMap { entries };
        assert(r.names() =~= self.names());
        r
    }
}

proof fn lemma_replaced<V>(was: Seq<(String, V)>, i: int, e: (String, V))
    requires
        ascending(was),
        0 <= i < was.len(),
        was[i].0@ == e.0@,
    ensures
        ascending(was.update(i, e)),
        entries_map(was.update(i, e)) == entries_map(was).insert(e.0@, e.1),
{
    let now = was.update(i, e);
    assert forall|a: int, b: int| 0 <= a < b < now.len() implies lex_before(
        #[trigger] now[a].0@,
        #[trigger] now[b].0@,
    ) by {
        assert(lex_before(was[a].0@, was[b].0@));
    }
    assert forall|k: Seq<char>| #[trigger] entries_map(now).contains_key(k) <==> entries_map(was).insert(
        e.0@,
        e.1,
    ).contains_key(k) by {
        if exists|j: int| named(now, j, k) {
            let j = choose|j: int| named(now, j, k);
            assert(named(was, j, k));
        }
        if exists|j: int| named(was, j, k) {
            let j = choose|j: int| named(was, j, k);
            assert(named(now, j, k));
        }
        assert(named(now, i, e.0@));
    }
    assert forall|k: Seq<char>| #[trigger] entries_map(now).contains_key(k) implies entries_map(now)[k]
        == entries_map(was).insert(e.0@, e.1)[k] by {
        let j = choose|j: int| named(now, j, k);
        lemma_entry(now, j);
        lemma_entry(was, j);
        lemma_entry(now, i);
    }
    assert(entries_map(now) =~= entries_map(was).insert(e.0@, e.1));
}

proof fn lemma_inserted<V>(was: Seq<(String, V)>, i: int, e: (String, V))
    requires
        ascending(was),
        0 <= i <= was.len(),
        forall|j: int| 0 <= j < i ==> lex_before((#[trigger] was[j]).0@, e.0@),
        i < was.len() ==> lex_before(e.0@, was[i].0@),
    ensures
        ascending(was.insert(i, e)),
        entries_map(was.insert(i, e)) == entries_map(was).insert(e.0@, e.1),
{
    let now = was.insert(i, e);
    assert forall|j: int| i <= j < was.len() implies lex_before(e.0@, (#[trigger] was[j]).0@) by {
        if j > i {
            lemma_lex_transitive(e.0@, was[i].0@, was[j].0@);
        }
    }
    assert forall|a: int, b: int| 0 <= a < b < now.len() implies lex_before(
        #[trigger] now[a].0@,
        #[trigger] now[b].0@,
    ) by {
        let a0 = if a < i { a } else { a - 1 };
        let b0 = if b < i { b } else { b - 1 };
        if a == i {
            assert(lex_before(e.0@, was[b0].0@));
        } else if b == i {
            assert(lex_before(was[a0].0@, e.0@));
        } else {
            assert(lex_before(was[a0].0@, was[b0].0@));
        }
    }
    assert forall|k: Seq<char>| #[trigger] entries_map(now).contains_key(k) <==> entries_map(was).insert(
        e.0@,
        e.1,
    ).contains_key(k) by {
        if exists|j: int| named(now, j, k) {
            let j = choose|j: int| named(now, j, k);
            if j != i {
                assert(named(was, if j < i { j } else { j - 1 }, k));
            }
        }
        if exists|j: int| named(was, j, k) {
            let j = choose|j: int| named(was, j, k);
            assert(named(now, if j < i { j } else { j + 1 }, k));
        }
        assert(named(now, i, e.0@));
    }
    assert forall|k: Seq<char>| #[trigger] entries_map(now).contains_key(k) implies entries_map(now)[k]
        == entries_map(was).insert(e.0@, e.1)[k] by {
        let j = choose|j: int| named(now, j, k);
        lemma_entry(now, j);
        lemma_entry(now, i);
        lemma_lex_irreflexive(e.0@);
        if j != i {
            let j0 = if j < i { j } else { j - 1 };
            lemma_entry(was, j0);
            assert(was[j0].0@ != e.0@);
        }
    }
    assert(entries_map(now) =~= entries_map(was).insert(e.0@, e.1));
}

proof fn lemma_removed<V>(was: Seq<(String, V)>, i: int)
    requires
        ascending(was),
        0 <= i < was.len(),
    ensures
        ascending(was.remove(i)),
        entries_map(was.remove(i)) == entries_map(was).remove(was[i].0@),
{
    let now = was.remove(i);
    let key = was[i].0@;
    lemma_lex_irreflexive(key);
    assert forall|a: int, b: int| 0 <= a < b < now.len() implies lex_before(
        #[trigger] now[a].0@,
        #[trigger] now[b].0@,
    ) by {
        let a0 = if a < i { a } else { a + 1 };
        let b0 = if b < i { b } else { b + 1 };
        assert(lex_before(was[a0].0@, was[b0].0@));
    }
    assert forall|j: int| 0 <= j < now.len() implies (#[trigger] now[j]).0@ != key by {
        let j0 = if j < i { j } else { j + 1 };
        if j0 < i {
            assert(lex_before(was[j0].0@, was[i].0@));
        } else {
            assert(lex_before(was[i].0@, was[j0].0@));
        }
    }
    assert forall|k: Seq<char>| #[trigger] entries_map(now).contains_key(k) <==> entries_map(was).remove(
        key,
    ).contains_key(k) by {
        if exists|j: int| named(now, j, k) {
            let j = choose|j: int| named(now, j, k);
            assert(now[j].0@ != key);
            assert(named(was, if j < i { j } else { j + 1 }, k));
        }
        if k != key && exists|j: int| named(was, j, k) {
            let j = choose|j: int| named(was, j, k);
            assert(named(now, if j < i { j } else { j - 1 }, k));
        }
    }
    assert forall|k: Seq<char>| #[trigger] entries_map(now).contains_key(k) implies entries_map(now)[k]
        == entries_map(was).remove(key)[k] by {
        let j = choose|j: int| named(now, j, k);
        lemma_entry(now, j);
        lemma_entry(was, if j < i { j } else { j + 1 });
    }
    assert(entries_map(now) =~= entries_map(was).remove(key));
}

} // verus!
