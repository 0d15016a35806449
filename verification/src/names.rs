//! The table from the name of a capture group to the group's index.

use vstd::prelude::*;

verus! {

/// The table that a list of group names gives: each name is bound to the index
/// of the group that bears it, cut to 32 bits; where a name occurs more than
/// once, the last group wins.
pub open spec fn name_indices(names: Seq<Option<Seq<char>>>) -> Map<Seq<char>, i32>
    decreases names.len(),
{
    if names.len() == 0 {
        Map::empty()
    } else {
        let before = name_indices(names.drop_last());
        match names.last() {
            Some(name) => before.insert(name, (names.len() - 1) as i32),
            None => before,
        }
    }
}

/// The views of a list of optional names.
pub open spec fn name_views(names: Seq<Option<String>>) -> Seq<Option<Seq<char>>> {
    Seq::new(
        names.len(),
        |i: int|
            match names[i] {
                Some(s) => Some(s@),
                None => None,
            },
    )
}

/// No two entries have the same name.
pub open spec fn names_distinct(entries: Seq<(String, i32)>) -> bool {
    forall|i: int, j: int|
        0 <= i < j < entries.len() ==> (#[trigger] entries[i]).0@ != (#[trigger] entries[j]).0@
}

/// `i` is an entry with the name `name`.
pub open spec fn entry_named(entries: Seq<(String, i32)>, name: Seq<char>, i: int) -> bool {
    0 <= i < entries.len() && entries[i].0@ == name
}

/// The map that a list of entries stands for: a name is bound to the index of
/// an entry that bears it.
pub open spec fn entries_map(entries: Seq<(String, i32)>) -> Map<Seq<char>, i32> {
    Map::new(
        |name: Seq<char>| exists|i: int| entry_named(entries, name, i),
        |name: Seq<char>| entries[choose|i: int| entry_named(entries, name, i)].1,
    )
}

/// What binding `key` to `index` at entry `at` does to a list of entries in
/// which no name occurs twice, whether the entry that bore the name was
/// replaced or, where none did, a new one was added at the end: still no name
/// occurs twice, and the map is the old one with `key` bound to `index`.
proof fn lemma_entry_bound(
    before: Seq<(String, i32)>,
    after: Seq<(String, i32)>,
    key: Seq<char>,
    index: i32,
    at: int,
)
    requires
        names_distinct(before),
        0 <= at < after.len(),
        after[at].0@ == key,
        after[at].1 == index,
        forall|j: int| 0 <= j < before.len() && j != at ==> after[j] == before[j],
        (after.len() == before.len() && before[at].0@ == key) || (after.len() == before.len() + 1
            && at == before.len() && forall|j: int|
            0 <= j < before.len() ==> !entry_named(before, key, j)),
    ensures
        names_distinct(after),
        entries_map(after) == entries_map(before).insert(key, index),
{
    assert forall|j: int| 0 <= j < before.len() && j != at implies before[j].0@ != key by {
        if at < before.len() {
            assert(before[j].0@ != before[at].0@);
        } else {
            assert(!entry_named(before, key, j));
        }
    }
    assert forall|a: int, b: int| 0 <= a < b < after.len() implies (#[trigger] after[a]).0@ != (
    #[trigger] after[b]).0@ by {
        if a != at && b != at {
            assert(before[a].0@ != before[b].0@);
        }
    }
    let bound = entries_map(before).insert(key, index);
    assert forall|k: Seq<char>| #[trigger] entries_map(after).contains_key(k) == bound.contains_key(
        k,
    ) by {
        if exists|j: int| entry_named(after, k, j) {
            let j = choose|j: int| entry_named(after, k, j);
            if j != at {
                assert(entry_named(before, k, j));
            }
        }
        if exists|j: int| entry_named(before, k, j) {
            let j = choose|j: int| entry_named(before, k, j);
            if j != at {
                assert(entry_named(after, k, j));
            }
        }
        if k == key {
            assert(entry_named(after, k, at));
        }
    }
    assert forall|k: Seq<char>| #[trigger] entries_map(after).contains_key(k) implies entries_map(
        after,
    )[k] == bound[k] by {
        let j = choose|j: int| entry_named(after, k, j);
        if k != key {
            let j0 = choose|j: int| entry_named(before, k, j);
            assert(entry_named(before, k, j));
            if j != j0 {
                assert(before[j].0@ != before[j0].0@);
            }
        } else if j != at {
            assert(after[j].0@ != after[at].0@);
        }
    }
    assert(entries_map(after) =~= bound);
}

/// Binds `name` to `index` in a list of entries: the entry that bears the name
/// is replaced, or a new entry is added at the end.
fn insert_entry(entries: &mut Vec<(String, i32)>, name: String, index: i32)
    requires
        names_distinct(old(entries)@),
    ensures
        names_distinct(final(entries)@),
        entries_map(final(entries)@) == entries_map(old(entries)@).insert(name@, index),
{
    let ghost before = entries@;
    let ghost key = name@;
    let n = entries.len();
    let mut i: usize = 0;
    while i < n
        invariant
            i <= n,
            n == entries@.len(),
            entries@ == before,
            before == old(entries)@,
            names_distinct(before),
            key == name@,
            forall|j: int| 0 <= j < i ==> !entry_named(before, key, j),
        decreases n - i,
    {
        if entries[i].0 == name {
            entries[i] = (name, index);
            proof {
                lemma_entry_bound(before, entries@, key, index, i as int);
            }
            return ;
        }
        i += 1;
    }
    entries.push((name, index));
    proof {
        lemma_entry_bound(before, entries@, key, index, n as int);
    }
}

/// A map from names to group indices, kept as a list of entries in which no
/// name occurs twice.
pub struct NameTable {
    entries: Vec<(String, i32)>,
}

impl View for NameTable {
    type V = Map<Seq<char>, i32>;

    closed spec fn view(&self) -> Map<Seq<char>, i32> {
        entries_map(self.entries@)
    }
}

impl NameTable {
    #[verifier::type_invariant]
    spec fn inv(&self) -> bool {
        names_distinct(self.entries@)
    }

    /// An empty table.
    pub fn new() -> (t: NameTable)
        ensures
            t@ == Map::<Seq<char>, i32>::empty(),
    {
        let t = NameTable { entries: Vec::new() };
        assert(t@ =~= Map::<Seq<char>, i32>::empty());
        t
    }

    /// Binds `name` to `index`, in place of what it was bound to before.
    pub fn insert(&mut self, name: String, index: i32)
        ensures
            final(self)@ == old(self)@.insert(name@, index),
    {
        proof {
            use_type_invariant(&*self);
        }
        let mut entries: Vec<(String, i32)> = Vec::new();
        core::mem::swap(&mut self.entries, &mut entries);
        insert_entry(&mut entries, name, index);
        core::mem::swap(&mut self.entries, &mut entries);
    }

    /// The index that `name` is bound to, if it is bound.
    pub fn get(&self, name: &str) -> (r: Option<i32>)
        ensures
            r == if self@.contains_key(name@) {
                Some(self@[name@])
            } else {
                None
            },
    {
        proof {
            use_type_invariant(self);
        }
        let wanted = name.to_owned();
        let n = self.entries.len();
        let mut i: usize = 0;
        while i < n
            invariant
                i <= n,
                n == self.entries@.len(),
                wanted@ == name@,
                names_distinct(self.entries@),
                forall|j: int| 0 <= j < i ==> !entry_named(self.entries@, name@, j),
            decreases n - i,
        {
            if self.entries[i].0 == wanted {
                proof {
                    assert(entry_named(self.entries@, name@, i as int));
                    let j = choose|j: int| entry_named(self.entries@, name@, j);
                    if j != i {
                        assert(self.entries@[j].0@ != self.entries@[i as int].0@);
                    }
                }
                return Some(self.entries[i].1);
            }
            i += 1;
        }
        None
    }

    /// The table of a list of group names: group `i` binds its name, if it has
    /// one, to `i` cut to 32 bits, in group order, so that a later group takes
    /// a name from an earlier one.
    pub fn from_names(names: &Vec<Option<String>>) -> (t: NameTable)
        ensures
            t@ == name_indices(name_views(names@)),
    {
        let mut table = NameTable::new();
        let ghost all = name_views(names@);
        let mut i: usize = 0;
        while i < names.len()
            invariant
                i <= names.len(),
                all == name_views(names@),
                table@ == name_indices(all.take(i as int)),
            decreases names.len() - i,
        {
            proof {
                assert(all.take(i + 1).drop_last() == all.take(i as int));
                assert(all.take(i + 1).last() == all[i as int]);
            }
            match &names[i] {
                Some(name) => {
                    table.insert(name.clone(), #[verifier::truncate] (i as i32));
                },
                None => {},
            }
            i += 1;
        }
        proof {
            assert(all.take(names.len() as int) == all);
        }
        table
    }
}

/// A name that no group bears is not in the table.
pub proof fn lemma_name_indices_absent(names: Seq<Option<Seq<char>>>, name: Seq<char>)
    requires
        forall|i: int| 0 <= i < names.len() ==> names[i] != Some(name),
    ensures
        !name_indices(names).contains_key(name),
    decreases names.len(),
{
    if names.len() > 0 {
        assert(names.last() == names[names.len() - 1]);
        assert forall|i: int| 0 <= i < names.drop_last().len() implies names.drop_last()[i]
            != Some(name) by {
            assert(names.drop_last()[i] == names[i]);
        }
        lemma_name_indices_absent(names.drop_last(), name);
    }
}

/// A name is bound to the index of the last group that bears it.
pub proof fn lemma_name_indices_last_wins(names: Seq<Option<Seq<char>>>, name: Seq<char>, i: int)
    requires
        0 <= i < names.len(),
        names[i] == Some(name),
        forall|j: int| i < j < names.len() ==> names[j] != Some(name),
    ensures
        name_indices(names).contains_key(name),
        name_indices(names)[name] == i as i32,
    decreases names.len(),
{
    assert(names.last() == names[names.len() - 1]);
    if i < names.len() - 1 {
        assert(names.drop_last()[i] == names[i]);
        assert forall|j: int| i < j < names.drop_last().len() implies names.drop_last()[j] != Some(
            name,
        ) by {
            assert(names.drop_last()[j] == names[j]);
        }
        lemma_name_indices_last_wins(names.drop_last(), name, i);
    }
}

} // verus!
