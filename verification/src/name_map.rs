use crate::text::same_text;
use vstd::prelude::*;

verus! {

/// The position of the first entry called `name`, or `entries.len()` when no
/// entry has that name.
pub open spec fn first_index<V>(entries: Seq<(Seq<char>, V)>, name: Seq<char>) -> int
    decreases entries.len(),
{
    if entries.len() == 0 {
        0
    } else if entries[0].0 == name {
        0
    } else {
        1 + first_index(entries.skip(1), name)
    }
}

/// No two entries share a name.
pub open spec fn distinct_names<V>(entries: Seq<(Seq<char>, V)>) -> bool {
    forall|i: int, j: int| 0 <= i < j < entries.len() ==> entries[i].0 != entries[j].0
}

/// Some entry is called `name`.
pub open spec fn has_name<V>(entries: Seq<(Seq<char>, V)>, name: Seq<char>) -> bool {
    first_index(entries, name) < entries.len()
}

/// The value bound to `name`, if any entry has that name.
pub open spec fn lookup<V>(entries: Seq<(Seq<char>, V)>, name: Seq<char>) -> Option<V> {
    if has_name(entries, name) {
        Some(entries[first_index(entries, name)].1)
    } else {
        None
    }
}

/// `first_index` points at the first entry with the name and never past the end.
pub proof fn lemma_first_index<V>(entries: Seq<(Seq<char>, V)>, name: Seq<char>)
    ensures
        0 <= first_index(entries, name) <= entries.len(),
        has_name(entries, name) ==> entries[first_index(entries, name)].0 == name,
        forall|j: int| 0 <= j < first_index(entries, name) ==> entries[j].0 != name,
    decreases entries.len(),
{
    if entries.len() != 0 && entries[0].0 != name {
        let rest = entries.skip(1);
        lemma_first_index(rest, name);
        assert forall|j: int| 0 <= j < first_index(entries, name) implies entries[j].0 != name by {
            if j > 0 {
                assert(rest[j - 1] == entries[j]);
            }
        }
        if has_name(entries, name) {
            assert(rest[first_index(rest, name)] == entries[first_index(entries, name)]);
        }
    }
}

/// The only position that `first_index` can give: nothing before `i` has the
/// name, and `i` is either the end or an entry with the name.
pub proof fn lemma_first_index_is<V>(entries: Seq<(Seq<char>, V)>, name: Seq<char>, i: int)
    requires
        0 <= i <= entries.len(),
        forall|j: int| 0 <= j < i ==> entries[j].0 != name,
        i < entries.len() ==> entries[i].0 == name,
    ensures
        first_index(entries, name) == i,
{
    lemma_first_index(entries, name);
}

/// Binds `name` to `value`: an entry with that name keeps its place and gets
/// the new value, a new name goes to the end.
pub open spec fn put<V>(entries: Seq<(Seq<char>, V)>, name: Seq<char>, value: V) -> Seq<
    (Seq<char>, V),
> {
    let i: int = first_index(entries, name);
    if i < entries.len() {
        entries.update(i, (name, value))
    } else {
        entries.push((name, value))
    }
}

/// Binds every entry of `more`, first to last, on top of `entries`.
pub open spec fn put_all<V>(entries: Seq<(Seq<char>, V)>, more: Seq<(Seq<char>, V)>) -> Seq<
    (Seq<char>, V),
>
    decreases more.len(),
{
    if more.len() == 0 {
        entries
    } else {
        put(put_all(entries, more.drop_last()), more.last().0, more.last().1)
    }
}

/// The override-merge of a sequence of entry lists: each list is laid over
/// the merge of those before it.
pub open spec fn merge_all<V>(sets: Seq<Seq<(Seq<char>, V)>>) -> Seq<(Seq<char>, V)>
    decreases sets.len(),
{
    if sets.len() == 0 {
        Seq::empty()
    } else {
        put_all(merge_all(sets.drop_last()), sets.last())
    }
}

/// A merge of nothing is empty.
pub proof fn lemma_merge_all_of_nothing<V>()
    ensures
        merge_all(Seq::<Seq<(Seq<char>, V)>>::empty()) == Seq::<(Seq<char>, V)>::empty(),
{
}

/// Binding a name keeps the names distinct.
pub proof fn lemma_put_distinct<V>(entries: Seq<(Seq<char>, V)>, name: Seq<char>, value: V)
    requires
        distinct_names(entries),
    ensures
        distinct_names(put(entries, name, value)),
{
    lemma_first_index(entries, name);
}

/// After binding `name`, a lookup of `name` gives the new value and a lookup
/// of any other name gives what it gave before.
pub proof fn lemma_put_lookup<V>(
    entries: Seq<(Seq<char>, V)>,
    name: Seq<char>,
    value: V,
    other: Seq<char>,
)
    ensures
        lookup(put(entries, name, value), other) == if other == name {
            Some(value)
        } else {
            lookup(entries, other)
        },
{
    let after = put(entries, name, value);
    let i: int = first_index(entries, name);
    let k: int = first_index(entries, other);
    lemma_first_index(entries, name);
    lemma_first_index(entries, other);
    if other == name {
        lemma_first_index_is(after, other, i);
    } else if k < entries.len() {
        lemma_first_index_is(after, other, k);
    } else {
        lemma_first_index_is(after, other, after.len() as int);
    }
}

/// Laying `more` over `entries` keeps the names distinct.
pub proof fn lemma_put_all_distinct<V>(entries: Seq<(Seq<char>, V)>, more: Seq<(Seq<char>, V)>)
    requires
        distinct_names(entries),
    ensures
        distinct_names(put_all(entries, more)),
    decreases more.len(),
{
    if more.len() != 0 {
        lemma_put_all_distinct(entries, more.drop_last());
        lemma_put_distinct(put_all(entries, more.drop_last()), more.last().0, more.last().1);
    }
}

/// The overlay wins: a name that `more` binds has the value from `more`, any
/// other name has the value from `entries`.
pub proof fn lemma_put_all_lookup<V>(
    entries: Seq<(Seq<char>, V)>,
    more: Seq<(Seq<char>, V)>,
    name: Seq<char>,
)
    requires
        distinct_names(more),
    ensures
        lookup(put_all(entries, more), name) == if has_name(more, name) {
            lookup(more, name)
        } else {
            lookup(entries, name)
        },
    decreases more.len(),
{
    lemma_first_index(more, name);
    if more.len() != 0 {
        let init = more.drop_last();
        assert forall|j: int| 0 <= j < init.len() implies init[j] == more[j] by {}
        lemma_first_index(init, name);
        lemma_put_all_lookup(entries, init, name);
        lemma_put_lookup(put_all(entries, init), more.last().0, more.last().1, name);
        if more.last().0 == name {
            lemma_first_index_is(more, name, more.len() - 1);
        } else if has_name(init, name) {
            lemma_first_index_is(more, name, first_index(init, name));
        } else {
            lemma_first_index_is(more, name, more.len() as int);
        }
    }
}

/// A merge of lists with distinct names has distinct names.
pub proof fn lemma_merge_all_distinct<V>(sets: Seq<Seq<(Seq<char>, V)>>)
    ensures
        distinct_names(merge_all(sets)),
    decreases sets.len(),
{
    if sets.len() != 0 {
        lemma_merge_all_distinct(sets.drop_last());
        lemma_put_all_distinct(merge_all(sets.drop_last()), sets.last());
    }
}

/// No list from position `from` on binds `name`.
pub open spec fn unbound_from<V>(
    sets: Seq<Seq<(Seq<char>, V)>>,
    name: Seq<char>,
    from: int,
) -> bool {
    forall|j: int| from <= j < sets.len() ==> !has_name(#[trigger] sets[j], name)
}

/// Every list has distinct names.
pub open spec fn all_distinct<V>(sets: Seq<Seq<(Seq<char>, V)>>) -> bool {
    forall|k: int| 0 <= k < sets.len() ==> distinct_names(#[trigger] sets[k])
}

/// A name that no list binds has no value in the merge.
pub proof fn lemma_merge_all_absent<V>(sets: Seq<Seq<(Seq<char>, V)>>, name: Seq<char>)
    requires
        all_distinct(sets),
        unbound_from(sets, name, 0),
    ensures
        lookup(merge_all(sets), name) is None,
    decreases sets.len(),
{
    if sets.len() != 0 {
        let init = sets.drop_last();
        assert forall|k: int| 0 <= k < init.len() implies distinct_names(#[trigger] init[k])
            && !has_name(init[k], name) by {
            assert(init[k] == sets[k]);
        }
        lemma_merge_all_absent(init, name);
        assert(distinct_names(sets[sets.len() - 1]));
        assert(!has_name(sets[sets.len() - 1], name));
        lemma_put_all_lookup(merge_all(init), sets.last(), name);
    } else {
        lemma_first_index(merge_all(sets), name);
    }
}

/// The last source wins, whole entry: where list `k` binds `name` and no
/// later list does, the merge gives `name` the value that list `k` gives it.
pub proof fn lemma_merge_all_last_wins<V>(sets: Seq<Seq<(Seq<char>, V)>>, name: Seq<char>, k: int)
    requires
        all_distinct(sets),
        0 <= k < sets.len(),
        has_name(sets[k], name),
        unbound_from(sets, name, k + 1),
    ensures
        lookup(merge_all(sets), name) == lookup(sets[k], name),
    decreases sets.len(),
{
    let init = sets.drop_last();
    assert(distinct_names(sets[sets.len() - 1]));
    lemma_put_all_lookup(merge_all(init), sets.last(), name);
    if k < sets.len() - 1 {
        assert(!has_name(sets[sets.len() - 1], name));
        assert forall|j: int| 0 <= j < init.len() implies distinct_names(#[trigger] init[j]) by {
            assert(init[j] == sets[j]);
        }
        assert forall|j: int| k + 1 <= j < init.len() implies !has_name(
            #[trigger] init[j],
            name,
        ) by {
            assert(init[j] == sets[j]);
        }
        assert(init[k] == sets[k]);
        lemma_merge_all_last_wins(init, name, k);
    }
}

/// What a list of stored entries stands for: each name by its text.
pub open spec fn entry_views<V>(stored: Seq<(String, V)>) -> Seq<(Seq<char>, V)> {
    Seq::new(stored.len(), |i: int| (stored[i].0@, stored[i].1))
}

/// The entries with each value by its deep view.
pub open spec fn deep_entries<V: DeepView>(entries: Seq<(Seq<char>, V)>) -> Seq<(Seq<char>, V::V)> {
    Seq::new(entries.len(), |i: int| (entries[i].0, entries[i].1.deep_view()))
}

/// The deep view keeps the names: a name is found in it where it is found
/// in the entries.
pub proof fn lemma_deep_entries_names<V: DeepView>(entries: Seq<(Seq<char>, V)>, name: Seq<char>)
    ensures
        first_index(deep_entries(entries), name) == first_index(entries, name),
        has_name(deep_entries(entries), name) == has_name(entries, name),
{
    lemma_first_index(entries, name);
    lemma_first_index_is(deep_entries(entries), name, first_index(entries, name));
}

/// A map from names to values that keeps its entries in the order in which
/// their names first came in. No two entries share a name.
#[derive(Debug)]
pub struct NameMap<V> {
    entries: Vec<(String, V)>,
}

impl<V> View for NameMap<V> {
    type V = Seq<(Seq<char>, V)>;

    closed spec fn view(&self) -> Seq<(Seq<char>, V)> {
        entry_views(self.entries@)
    }
}

impl<V: DeepView> DeepView for NameMap<V> {
    type V = Seq<(Seq<char>, V::V)>;

    open spec fn deep_view(&self) -> Seq<(Seq<char>, V::V)> {
        deep_entries(self@)
    }
}

/// `copy` has the name of `entry` and a clone of its value.
pub open spec fn entry_cloned<V: Clone>(entry: (Seq<char>, V), copy: (Seq<char>, V)) -> bool {
    copy.0 == entry.0 && cloned::<V>(entry.1, copy.1)
}

impl<V: Clone> Clone for NameMap<V> {
    /// The copy has the same names in the same order, each with a clone of
    /// its value.
    fn clone(&self) -> (copy: Self)
        ensures
            copy@.len() == self@.len(),
            forall|i: int| 0 <= i < self@.len() ==> entry_cloned(self@[i], #[trigger] copy@[i]),
    {
        proof {
            use_type_invariant(self);
        }
        let mut entries: Vec<(String, V)> = Vec::new();
        let mut i: usize = 0;
        while i < self.entries.len()
            invariant
                i <= self.entries.len(),
                entries@.len() == i,
                forall|k: int|
                    0 <= k < i ==> entry_cloned(self@[k], #[trigger] entry_views(entries@)[k]),
            decreases self.entries.len() - i,
        {
            let name = self.entries[i].0.clone();
            let value = self.entries[i].1.clone();
            let ghost before = entries@;
            entries.push((name, value));
            assert forall|k: int| 0 <= k <= i implies entry_cloned(
                self@[k],
                #[trigger] entry_views(entries@)[k],
            ) by {
                if k < i {
                    assert(entry_views(entries@)[k] == entry_views(before)[k]);
                }
            }
            i += 1;
        }
        assert forall|a: int, b: int| 0 <= a < b < entries@.len() implies entry_views(
            entries@,
        )[a].0 != entry_views(entries@)[b].0 by {
            assert(entry_cloned(self@[a], entry_views(entries@)[a]));
            assert(entry_cloned(self@[b], entry_views(entries@)[b]));
        }
        NameMap { entries }
    }
}

impl<V> NameMap<V> {
    #[verifier::type_invariant]
    pub open spec fn names_are_distinct(&self) -> bool {
        distinct_names(self@)
    }

    /// The map without entries.
    pub fn new() -> (map: Self)
        ensures
            map@ == Seq::<(Seq<char>, V)>::empty(),
    {
        NameMap { entries: Vec::new() }
    }

    /// The number of entries.
    pub fn len(&self) -> (n: usize)
        ensures
            n == self@.len(),
    {
        self.entries.len()
    }

    /// Whether the map has no entry.
    pub fn is_empty(&self) -> (empty: bool)
        ensures
            empty == (self@.len() == 0),
    {
        self.entries.len() == 0
    }

    /// Where the entry called `name` is, or the number of entries.
    fn position(&self, name: &str) -> (i: usize)
        ensures
            i == first_index(self@, name@),
            i <= self@.len(),
    {
        let mut i: usize = 0;
        while i < self.entries.len()
            invariant
                i <= self.entries.len(),
                forall|j: int| 0 <= j < i ==> self@[j].0 != name@,
            decreases self.entries.len() - i,
        {
            assert(self@[i as int].0 == self.entries@[i as int].0@);
            if same_text(self.entries[i].0.as_str(), name) {
                proof {
                    lemma_first_index(self@, name@);
                }
                return i;
            }
            i += 1;
        }
        proof {
            lemma_first_index(self@, name@);
        }
        i
    }

    /// Whether an entry is called `name`.
    pub fn contains_key(&self, name: &str) -> (found: bool)
        ensures
            found == has_name(self@, name@),
    {
        self.position(name) < self.entries.len()
    }

    /// The value bound to `name`.
    pub fn get(&self, name: &str) -> (found: Option<&V>)
        ensures
            match found {
                Some(value) => lookup(self@, name@) == Some(*value),
                None => lookup(self@, name@) is None,
            },
    {
        let i: usize = self.position(name);
        if i < self.entries.len() {
            Some(&self.entries[i].1)
        } else {
            None
        }
    }

    /// Binds `name` to `value` and hands back the value that `name` had.
    pub fn insert(&mut self, name: String, value: V) -> (previous: Option<V>)
        ensures
            final(self)@ == put(old(self)@, name@, value),
            previous == lookup(old(self)@, name@),
    {
        proof {
            use_type_invariant(&*self);
            lemma_put_distinct(self@, name@, value);
        }
        let i: usize = self.position(name.as_str());
        let mut entries: Vec<(String, V)> = Vec::new();
        core::mem::swap(&mut entries, &mut self.entries);
        let previous = if i < entries.len() {
            let replaced = entries.remove(i);
            entries.insert(i, (name, value));
            Some(replaced.1)
        } else {
            entries.push((name, value));
            None
        };
        assert(entry_views(entries@) =~= put(old(self)@, name@, value));
        self.entries = entries;
        previous
    }

    /// The entries, first to last.
    pub fn entries(&self) -> (entries: &Vec<(String, V)>)
        ensures
            entry_views(entries@) == self@,
            distinct_names(entry_views(entries@)),
    {
        proof {
            use_type_invariant(self);
        }
        &self.entries
    }

    /// The entries, first to last, given up by the map.
    pub fn into_entries(self) -> (entries: Vec<(String, V)>)
        ensures
            entry_views(entries@) == self@,
            distinct_names(entry_views(entries@)),
    {
        proof {
            use_type_invariant(&self);
        }
        self.entries
    }

    /// Moves every entry of `other` into `self`, first to last, each one
    /// overriding an entry of the same name; `other` is left empty.
    pub fn append(&mut self, other: &mut NameMap<V>)
        ensures
            final(self)@ == put_all(old(self)@, old(other)@),
            final(other)@.len() == 0,
    {
        let mut taken: Vec<(String, V)> = Vec::new();
        core::mem::swap(&mut taken, &mut other.entries);
        let ghost stored = taken@;
        for entry in it: taken
            invariant
                it.seq() == stored,
                self@ == put_all(old(self)@, entry_views(stored.take(it.index()))),
        {
            let (name, value) = entry;
            proof {
                let done = entry_views(stored.take(it.index() + 1));
                assert(done.drop_last() =~= entry_views(stored.take(it.index())));
            }
            self.insert(name, value);
        }
        assert(stored.take(stored.len() as int) =~= stored);
    }
}

/// The entry lists of a sequence of maps.
pub open spec fn views<V>(maps: Seq<NameMap<V>>) -> Seq<Seq<(Seq<char>, V)>> {
    maps.map_values(|m: NameMap<V>| m@)
}

/// Override-merge: lays the maps over one another, first to last, so that a
/// later map replaces whole entries of an earlier one.
pub fn merge<V>(maps: Vec<NameMap<V>>) -> (merged: NameMap<V>)
    ensures
        merged@ == merge_all(views(maps@)),
        all_distinct(views(maps@)),
{
    let mut merged: NameMap<V> = NameMap::new();
    let ghost all = maps@;
    for map in it: maps
        invariant
            it.seq() == all,
            merged@ == merge_all(views(all.take(it.index()))),
            forall|k: int| 0 <= k < it.index() ==> distinct_names(#[trigger] views(all)[k]),
    {
        let mut map = map;
        proof {
            use_type_invariant(&map);
            let done = views(all.take(it.index() + 1));
            assert(done.drop_last() =~= views(all.take(it.index())));
        }
        merged.append(&mut map);
    }
    assert(all.take(all.len() as int) =~= all);
    merged
}

} // verus!
