//! Names and their values. A context maps names to values; a render! block
//! opens a scope of its own, and a name is looked up from the innermost scope
//! out, so that a binding inside a scope hides one outside it until the scope
//! closes.
use vstd::prelude::*;

use crate::common::text::str_eq;

verus! {

/// The value of the last entry for `k`.
pub open spec fn find<V>(entries: Seq<(Seq<char>, V)>, k: Seq<char>) -> Option<V>
    decreases entries.len(),
{
    if entries.len() == 0 {
        None
    } else if entries.last().0 == k {
        Some(entries.last().1)
    } else {
        find(entries.drop_last(), k)
    }
}

/// The map that entries stand for: a later entry for a name replaces an
/// earlier one.
pub open spec fn entries_map<V>(entries: Seq<(Seq<char>, V)>) -> Map<Seq<char>, V> {
    Map::new(|k: Seq<char>| find(entries, k) is Some, |k: Seq<char>| find(entries, k)->Some_0)
}

/// Values by name.
pub struct DataContext<V> {
    // Later entries replace earlier entries for the same name
    data: Vec<(String, V)>,
}

impl<V> DataContext<V> {
    pub closed spec fn entries(&self) -> Seq<(Seq<char>, V)> {
        self.data@.map_values(|e: (String, V)| (e.0@, e.1))
    }
}

impl<V> View for DataContext<V> {
    type V = Map<Seq<char>, V>;

    open spec fn view(&self) -> Map<Seq<char>, V> {
        entries_map(self.entries())
    }
}

/// No entry after position `i` is for `k`.
pub open spec fn last_for<V>(entries: Seq<(Seq<char>, V)>, i: int, k: Seq<char>) -> bool {
    forall|j: int| i < j < entries.len() ==> (#[trigger] entries[j]).0 != k
}

proof fn lemma_find_last<V>(entries: Seq<(Seq<char>, V)>, i: int, k: Seq<char>)
    requires
        -1 <= i < entries.len(),
        last_for(entries, i, k),
        i >= 0 ==> entries[i].0 == k,
    ensures
        find(entries, k) == if i >= 0 { Some(entries[i].1) } else { None::<V> },
    decreases entries.len(),
{
    if entries.len() > 0 && entries.len() - 1 != i {
        let shorter = entries.drop_last();
        assert forall|j: int| i < j < shorter.len() implies (#[trigger] shorter[j]).0 != k by {
            assert(shorter[j] == entries[j]);
        }
        lemma_find_last(shorter, i, k);
        if i >= 0 {
            assert(shorter[i] == entries[i]);
        }
    }
}

proof fn lemma_find_update<V>(entries: Seq<(Seq<char>, V)>, i: int, k: Seq<char>, v: V, k2: Seq<char>)
    requires
        0 <= i < entries.len(),
        last_for(entries, i, k),
        entries[i].0 == k,
    ensures
        find(entries.update(i, (k, v)), k2) == if k2 == k { Some(v) } else { find(entries, k2) },
    decreases entries.len(),
{
    let updated = entries.update(i, (k, v));
    if k2 == k {
        assert forall|j: int| i < j < updated.len() implies (#[trigger] updated[j]).0 != k by {
            assert(updated[j] == entries[j]);
        }
        lemma_find_last(updated, i, k);
    } else if entries.len() - 1 != i {
        let shorter = entries.drop_last();
        assert forall|j: int| i < j < shorter.len() implies (#[trigger] shorter[j]).0 != k by {
            assert(shorter[j] == entries[j]);
        }
        lemma_find_update(shorter, i, k, v, k2);
        assert(updated.drop_last() =~= shorter.update(i, (k, v)));
    } else {
        assert(updated.drop_last() =~= entries.drop_last());
    }
}

proof fn lemma_map_update<V>(entries: Seq<(Seq<char>, V)>, i: int, k: Seq<char>, v: V)
    requires
        0 <= i < entries.len(),
        last_for(entries, i, k),
        entries[i].0 == k,
    ensures
        entries_map(entries.update(i, (k, v))) == entries_map(entries).insert(k, v),
{
    assert forall|k2: Seq<char>| #[trigger] find(entries.update(i, (k, v)), k2) == if k2 == k {
        Some(v)
    } else {
        find(entries, k2)
    } by {
        lemma_find_update(entries, i, k, v, k2);
    }
    assert(entries_map(entries.update(i, (k, v))) =~= entries_map(entries).insert(k, v));
}

proof fn lemma_entries_update<V>(data: Seq<(String, V)>, i: int, e: (String, V))
    requires
        0 <= i < data.len(),
    ensures
        data.update(i, e).map_values(|e: (String, V)| (e.0@, e.1)) == data.map_values(
            |e: (String, V)| (e.0@, e.1),
        ).update(i, (e.0@, e.1)),
{
    assert(data.update(i, e).map_values(|e: (String, V)| (e.0@, e.1)) =~= data.map_values(
        |e: (String, V)| (e.0@, e.1),
    ).update(i, (e.0@, e.1)));
}

proof fn lemma_map_push<V>(entries: Seq<(Seq<char>, V)>, k: Seq<char>, v: V)
    ensures
        entries_map(entries.push((k, v))) == entries_map(entries).insert(k, v),
{
    let pushed = entries.push((k, v));
    assert(pushed.drop_last() =~= entries);
    assert(entries_map(pushed) =~= entries_map(entries).insert(k, v));
}

impl<V> DataContext<V> {
    pub fn new() -> (ctx: DataContext<V>)
        ensures
            ctx@ == Map::<Seq<char>, V>::empty(),
    {
        let ctx = DataContext { data: Vec::new() };
        assert(ctx.entries() =~= Seq::<(Seq<char>, V)>::empty());
        assert(ctx@ =~= Map::<Seq<char>, V>::empty());
        ctx
    }

    /// The position of the last entry for `key`.
    fn last_index_of(&self, key: &str) -> (r: Option<usize>)
        ensures
            match r {
                Some(i) => i < self.entries().len() && self.entries()[i as int].0 == key@ && last_for(
                    self.entries(),
                    i as int,
                    key@,
                ),
                None => last_for(self.entries(), -1, key@),
            },
    {
        let ghost entries = self.entries();
        let mut i = self.data.len();
        while i > 0
            invariant
                i <= self.data.len(),
                entries == self.entries(),
                entries.len() == self.data.len(),
                last_for(entries, i - 1, key@),
            decreases i,
        {
            let entry = &self.data[i - 1];
            assert(entries[i - 1] == (entry.0@, entry.1));
            if str_eq(entry.0.as_str(), key) {
                return Some(i - 1);
            }
            i = i - 1;
        }
        None
    }

    /// The value of `key`, if it has one.
    pub fn get(&self, key: &str) -> (r: Option<&V>)
        ensures
            r is Some <==> self@.dom().contains(key@),
            r matches Some(v) ==> *v == self@[key@],
    {
        match self.last_index_of(key) {
            Some(i) => {
                proof {
                    lemma_find_last(self.entries(), i as int, key@);
                }
                assert(self.entries()[i as int] == (self.data@[i as int].0@, self.data@[i as int].1));
                Some(&self.data[i].1)
            },
            None => {
                proof {
                    lemma_find_last(self.entries(), -1, key@);
                }
                None
            },
        }
    }

    /// The value of `key`, to change in place, if it has one. What is written
    /// through the reference becomes the value of `key`; no other name changes.
    pub fn get_mut(&mut self, key: &str) -> (r: Option<&mut V>)
        ensures
            r is Some <==> old(self)@.dom().contains(key@),
            r is Some ==> *r.unwrap() == old(self)@[key@] && final(self)@ == old(self)@.insert(
                key@,
                *final(r.unwrap()),
            ),
            r is None ==> final(self)@ == old(self)@,
    {
        let ghost entries = self.entries();
        let ghost data = self.data@;
        match self.last_index_of(key) {
            Some(i) => {
                proof {
                    lemma_find_last(entries, i as int, key@);
                }
                assert(entries[i as int] == (self.data@[i as int].0@, self.data@[i as int].1));
                let entry = &mut self.data[i];
                let value = &mut entry.1;
                proof {
                    lemma_map_update(entries, i as int, key@, *final(value));
                    lemma_entries_update(data, i as int, (data[i as int].0, *final(value)));
                }
                Some(value)
            },
            None => {
                proof {
                    lemma_find_last(entries, -1, key@);
                }
                None
            },
        }
    }

    /// Binds `key` to `value`; returns the value it had before, if any.
    pub fn insert(&mut self, key: String, value: V) -> (previous: Option<V>)
        ensures
            final(self)@ == old(self)@.insert(key@, value),
            previous is Some <==> old(self)@.dom().contains(key@),
            previous matches Some(v) ==> v == old(self)@[key@],
    {
        let ghost k = key@;
        let ghost entries = self.entries();
        match self.last_index_of(key.as_str()) {
            Some(i) => {
                proof {
                    lemma_find_last(entries, i as int, k);
                    lemma_map_update(entries, i as int, k, value);
                }
                let old_entry = self.data.remove(i);
                self.data.insert(i, (key, value));
                assert(self.entries() =~= entries.update(i as int, (k, value)));
                Some(old_entry.1)
            },
            None => {
                proof {
                    lemma_find_last(entries, -1, k);
                    lemma_map_push(entries, k, value);
                }
                self.data.push((key, value));
                assert(self.entries() =~= entries.push((k, value)));
                None
            },
        }
    }
}

/// The value of `k` in the innermost scope that binds it.
pub open spec fn scoped_find<V>(scopes: Seq<Map<Seq<char>, V>>, k: Seq<char>) -> Option<V>
    decreases scopes.len(),
{
    if scopes.len() == 0 {
        None
    } else if scopes.last().dom().contains(k) {
        Some(scopes.last()[k])
    } else {
        scoped_find(scopes.drop_last(), k)
    }
}

/// The scopes after binding `k` to `v` in the innermost one.
pub open spec fn with_binding<V>(scopes: Seq<Map<Seq<char>, V>>, k: Seq<char>, v: V) -> Seq<Map<Seq<char>, V>> {
    scopes.update(scopes.len() - 1, scopes.last().insert(k, v))
}

/// The scopes of a template, the file's own first.
pub struct ScopeContext<V> {
    scopes: Vec<DataContext<V>>,
}

impl<V> View for ScopeContext<V> {
    type V = Seq<Map<Seq<char>, V>>;

    closed spec fn view(&self) -> Seq<Map<Seq<char>, V>> {
        self.scopes@.map_values(|c: DataContext<V>| c@)
    }
}

impl<V> ScopeContext<V> {
    /// The file scope, with no names bound.
    pub fn new() -> (ctx: ScopeContext<V>)
        ensures
            ctx@ == seq![Map::<Seq<char>, V>::empty()],
    {
        let mut scopes = Vec::new();
        scopes.push(DataContext::new());
        let ctx = ScopeContext { scopes };
        assert(ctx@ =~= seq![Map::<Seq<char>, V>::empty()]);
        ctx
    }

    /// How many scopes are open, the file scope included.
    pub fn scope_level(&self) -> (n: usize)
        ensures
            n == self@.len(),
    {
        self.scopes.len()
    }

    pub fn open_scope(&mut self)
        ensures
            final(self)@ == old(self)@.push(Map::<Seq<char>, V>::empty()),
    {
        self.scopes.push(DataContext::new());
        assert(self@ =~= old(self)@.push(Map::<Seq<char>, V>::empty()));
    }

    /// Closes the innermost scope, and forgets what it bound.
    pub fn close_scope(&mut self)
        requires
            old(self)@.len() > 0,
        ensures
            final(self)@ == old(self)@.drop_last(),
    {
        let _ = self.scopes.pop();
        assert(self@ =~= old(self)@.drop_last());
    }

    /// The value of `key` in the innermost scope that binds it.
    pub fn get(&self, key: &str) -> (r: Option<&V>)
        ensures
            r is Some <==> scoped_find(self@, key@) is Some,
            r matches Some(v) ==> scoped_find(self@, key@) == Some(*v),
    {
        let ghost scopes = self@;
        let mut i = self.scopes.len();
        assert(scopes.take(scopes.len() as int) =~= scopes);
        while i > 0
            invariant
                i <= self.scopes.len(),
                scopes == self@,
                scopes.len() == self.scopes.len(),
                scoped_find(scopes, key@) == scoped_find(scopes.take(i as int), key@),
            decreases i,
        {
            let ghost prefix = scopes.take(i as int);
            assert(prefix.last() == self.scopes@[i - 1]@);
            assert(prefix.drop_last() == scopes.take(i - 1));
            match self.scopes[i - 1].get(key) {
                Some(v) => return Some(v),
                None => {},
            }
            i = i - 1;
        }
        assert(scopes.take(0) =~= Seq::<Map<Seq<char>, V>>::empty());
        None
    }

    /// Binds `key` to `value` in the innermost scope.
    pub fn insert(&mut self, key: String, value: V)
        requires
            old(self)@.len() > 0,
        ensures
            final(self)@ == with_binding(old(self)@, key@, value),
    {
        let ghost k = key@;
        let mut innermost = match self.scopes.pop() {
            Some(c) => c,
            None => {
                assert(false);
                DataContext::new()
            },
        };
        let _ = innermost.insert(key, value);
        self.scopes.push(innermost);
        assert(self@ =~= with_binding(old(self)@, k, value));
    }
}

/// A name bound in the innermost scope reads back as bound, whatever outer
/// scopes bind it to.
pub proof fn lemma_binding_reads_back<V>(scopes: Seq<Map<Seq<char>, V>>, k: Seq<char>, v: V)
    requires
        scopes.len() > 0,
    ensures
        scoped_find(with_binding(scopes, k, v), k) == Some(v),
{
}

/// Binding a name leaves every other name as it was.
pub proof fn lemma_binding_keeps_other_names<V>(
    scopes: Seq<Map<Seq<char>, V>>,
    k: Seq<char>,
    v: V,
    other: Seq<char>,
)
    requires
        scopes.len() > 0,
        other != k,
    ensures
        scoped_find(with_binding(scopes, k, v), other) == scoped_find(scopes, other),
{
    let bound = with_binding(scopes, k, v);
    assert(bound.drop_last() =~= scopes.drop_last());
}

/// A render! scope forgets what it bound: opening a scope, binding a name in
/// it and closing it leaves every name as it was before.
pub proof fn lemma_closed_scope_forgets<V>(scopes: Seq<Map<Seq<char>, V>>, k: Seq<char>, v: V, name: Seq<char>)
    ensures
        scoped_find(with_binding(scopes.push(Map::empty()), k, v).drop_last(), name) == scoped_find(scopes, name),
{
    assert(with_binding(scopes.push(Map::empty()), k, v).drop_last() =~= scopes);
}

} // verus!
