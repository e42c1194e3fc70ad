//! A JSON object: keys, each with its value's compact text.

use vstd::prelude::*;

use crate::json;
use crate::text;

verus! {

/// What entries say of each key; a later entry of a key replaces an earlier one.
pub open spec fn map_of<V>(entries: Seq<(Seq<char>, V)>) -> Map<Seq<char>, V>
    decreases entries.len(),
{
    if entries.len() == 0 {
        Map::empty()
    } else {
        map_of(entries.drop_last()).insert(entries.last().0, entries.last().1)
    }
}

/// No key comes twice.
pub open spec fn distinct<V>(entries: Seq<(Seq<char>, V)>) -> bool {
    forall|i: int, j: int| 0 <= i < j < entries.len() ==> (#[trigger] entries[i]).0 != (#[trigger] entries[j]).0
}

/// Each entry counts where no key comes twice.
pub proof fn lemma_map_of<V>(entries: Seq<(Seq<char>, V)>)
    requires
        distinct(entries),
    ensures
        forall|i: int|
            0 <= i < entries.len() ==> map_of(entries).contains_key((#[trigger] entries[i]).0) && map_of(
                entries,
            )[entries[i].0] == entries[i].1,
        forall|k: Seq<char>|
            #[trigger] map_of(entries).contains_key(k) ==> exists|i: int|
                0 <= i < entries.len() && (#[trigger] entries[i]).0 == k,
    decreases entries.len(),
{
    if entries.len() > 0 {
        let before = entries.drop_last();
        assert forall|i: int, j: int| 0 <= i < j < before.len() implies (#[trigger] before[i]).0 != (
        #[trigger] before[j]).0 by {
            assert(before[i] == entries[i] && before[j] == entries[j]);
        }
        lemma_map_of(before);
        assert forall|i: int| 0 <= i < entries.len() implies map_of(entries).contains_key((#[trigger] entries[i]).0)
            && map_of(entries)[entries[i].0] == entries[i].1 by {
            if i < before.len() {
                assert(before[i] == entries[i]);
                assert(entries[i].0 != entries[entries.len() - 1].0);
            }
        }
        assert forall|k: Seq<char>| #[trigger] map_of(entries).contains_key(k) implies exists|i: int|
            0 <= i < entries.len() && (#[trigger] entries[i]).0 == k by {
            if k == entries.last().0 {
                assert(entries[entries.len() - 1].0 == k);
            } else {
                assert(map_of(before).contains_key(k));
                let i = choose|i: int| 0 <= i < before.len() && (#[trigger] before[i]).0 == k;
                assert(entries[i].0 == k);
            }
        }
    }
}

pub proof fn lemma_remove<V>(entries: Seq<(Seq<char>, V)>, at: int)
    requires
        distinct(entries),
        0 <= at < entries.len(),
    ensures
        distinct(entries.remove(at)),
        map_of(entries.remove(at)) == map_of(entries).remove(entries[at].0),
{
    let after = entries.remove(at);
    let key = entries[at].0;
    assert forall|i: int, j: int| 0 <= i < j < after.len() implies (#[trigger] after[i]).0 != (#[trigger] after[j]).0 by {
        let a = if i < at { i } else { i + 1 };
        let b = if j < at { j } else { j + 1 };
        assert(after[i] == entries[a] && after[j] == entries[b]);
    }
    lemma_map_of(entries);
    lemma_map_of(after);
    assert forall|k: Seq<char>| map_of(after).contains_key(k) == (map_of(entries).contains_key(k) && k != key) by {
        if map_of(after).contains_key(k) {
            let i = choose|i: int| 0 <= i < after.len() && (#[trigger] after[i]).0 == k;
            let a = if i < at { i } else { i + 1 };
            assert(entries[a] == after[i]);
            assert(entries[a].0 != entries[at].0);
        }
        if map_of(entries).contains_key(k) && k != key {
            let i = choose|i: int| 0 <= i < entries.len() && (#[trigger] entries[i]).0 == k;
            let b = if i < at { i } else { i - 1 };
            assert(after[b] == entries[i]);
        }
    }
    assert forall|k: Seq<char>| map_of(after).contains_key(k) implies map_of(after)[k] == map_of(entries)[k] by {
        let i = choose|i: int| 0 <= i < after.len() && (#[trigger] after[i]).0 == k;
        let a = if i < at { i } else { i + 1 };
        assert(entries[a] == after[i]);
    }
    assert(map_of(after) =~= map_of(entries).remove(key));
}

/// A value set in place.
pub proof fn lemma_update<V>(entries: Seq<(Seq<char>, V)>, at: int, value: V)
    requires
        distinct(entries),
        0 <= at < entries.len(),
    ensures
        distinct(entries.update(at, (entries[at].0, value))),
        map_of(entries.update(at, (entries[at].0, value))) == map_of(entries).insert(entries[at].0, value),
{
    let key = entries[at].0;
    let after = entries.update(at, (key, value));
    assert forall|i: int, j: int| 0 <= i < j < after.len() implies (#[trigger] after[i]).0 != (#[trigger] after[j]).0 by {
        assert(after[i].0 == entries[i].0 && after[j].0 == entries[j].0);
    }
    lemma_map_of(entries);
    lemma_map_of(after);
    assert forall|k: Seq<char>| map_of(after).contains_key(k) == (map_of(entries).contains_key(k) || k == key) by {
        if map_of(after).contains_key(k) {
            let i = choose|i: int| 0 <= i < after.len() && (#[trigger] after[i]).0 == k;
            assert(entries[i].0 == k);
        }
        if map_of(entries).contains_key(k) {
            let i = choose|i: int| 0 <= i < entries.len() && (#[trigger] entries[i]).0 == k;
            assert(after[i].0 == k);
        }
        assert(after[at].0 == key);
    }
    assert forall|k: Seq<char>| map_of(after).contains_key(k) implies map_of(after)[k] == map_of(entries).insert(
        key,
        value,
    )[k] by {
        let i = choose|i: int| 0 <= i < after.len() && (#[trigger] after[i]).0 == k;
        if i != at {
            assert(after[i] == entries[i]);
            assert(entries[i].0 != key) by {
                if i < at {
                    assert(entries[i].0 != entries[at].0);
                } else {
                    assert(entries[at].0 != entries[i].0);
                }
            }
        } else {
            assert(after[at] == (key, value));
        }
    }
    assert(map_of(after) =~= map_of(entries).insert(key, value));
}

/// A key set that was not there.
pub proof fn lemma_push<V>(entries: Seq<(Seq<char>, V)>, key: Seq<char>, value: V)
    requires
        distinct(entries),
        !map_of(entries).contains_key(key),
    ensures
        distinct(entries.push((key, value))),
        map_of(entries.push((key, value))) == map_of(entries).insert(key, value),
{
    let after = entries.push((key, value));
    assert(after.drop_last() =~= entries);
    lemma_map_of(entries);
    assert forall|i: int, j: int| 0 <= i < j < after.len() implies (#[trigger] after[i]).0 != (#[trigger] after[j]).0 by {
        assert(after[i] == entries[i]);
        if j < entries.len() {
            assert(after[j] == entries[j]);
        } else {
            assert(map_of(entries).contains_key(entries[i].0));
        }
    }
}

/// A JSON object. No key comes twice.
#[derive(Debug)]
pub struct Table {
    entries: Vec<(String, String)>,
}

impl View for Table {
    type V = Map<Seq<char>, Seq<char>>;

    closed spec fn view(&self) -> Map<Seq<char>, Seq<char>> {
        map_of(json::pairs(self.entries@))
    }
}

impl Table {
    #[verifier::type_invariant]
    spec fn keys_are_distinct(self) -> bool {
        distinct(json::pairs(self.entries@))
    }

    pub fn new() -> (table: Self)
        ensures
            table@ == Map::<Seq<char>, Seq<char>>::empty(),
    {
        let table = Table { entries: Vec::new() };
        assert(json::pairs(table.entries@) =~= Seq::<(Seq<char>, Seq<char>)>::empty());
        table
    }

    /// The keys and values, each key once.
    pub fn entries(&self) -> (entries: &Vec<(String, String)>)
        ensures
            map_of(json::pairs(entries@)) == self@,
            distinct(json::pairs(entries@)),
    {
        proof {
            use_type_invariant(self);
        }
        &self.entries
    }

    fn find(&self, key: &str) -> (at: Option<usize>)
        ensures
            match at {
                Some(i) => i < self.entries@.len() && self.entries@[i as int].0@ == key@ && self@.contains_key(key@)
                    && self@[key@] == self.entries@[i as int].1@,
                None => !self@.contains_key(key@),
            },
    {
        let ghost views = json::pairs(self.entries@);
        proof {
            use_type_invariant(self);
            lemma_map_of(views);
        }
        let mut i: usize = 0;
        while i < self.entries.len()
            invariant
                i <= self.entries@.len(),
                views == json::pairs(self.entries@),
                self@ == map_of(views),
                distinct(views),
                forall|k: int|
                    0 <= k < views.len() ==> map_of(views).contains_key((#[trigger] views[k]).0) && map_of(
                        views,
                    )[views[k].0] == views[k].1,
                forall|j: int| 0 <= j < i ==> (#[trigger] views[j]).0 != key@,
            decreases self.entries@.len() - i,
        {
            assert(views[i as int] == (self.entries@[i as int].0@, self.entries@[i as int].1@));
            if text::same(self.entries[i].0.as_str(), key) {
                return Some(i);
            }
            i += 1;
        }
        None
    }

    pub fn contains(&self, key: &str) -> (found: bool)
        ensures
            found == self@.contains_key(key@),
    {
        self.find(key).is_some()
    }

    pub fn get(&self, key: &str) -> (value: Option<&str>)
        ensures
            text::optional_str(value) == (if self@.contains_key(key@) {
                Some(self@[key@])
            } else {
                None
            }),
    {
        match self.find(key) {
            Some(at) => Some(self.entries[at].1.as_str()),
            None => None,
        }
    }

    /// Drops a key; whether it was there.
    pub fn remove(&mut self, key: &str) -> (found: bool)
        ensures
            found == old(self)@.contains_key(key@),
            final(self)@ == old(self)@.remove(key@),
    {
        proof {
            use_type_invariant(&*self);
        }
        match self.find(key) {
            Some(at) => {
                let mut entries: Vec<(String, String)> = Vec::new();
                let ghost before = json::pairs(self.entries@);
                std::mem::swap(&mut entries, &mut self.entries);
                entries.remove(at);
                proof {
                    lemma_remove(before, at as int);
                    assert(json::pairs(entries@) =~= before.remove(at as int));
                }
                self.entries = entries;
                true
            },
            None => {
                assert(self@.remove(key@) =~= self@);
                false
            },
        }
    }

    /// Sets a key's value.
    pub fn insert(&mut self, key: String, value: String)
        ensures
            final(self)@ == old(self)@.insert(key@, value@),
    {
        self.remove(key.as_str());
        proof {
            use_type_invariant(&*self);
        }
        let ghost before = json::pairs(self.entries@);
        let ghost kept = self@;
        proof {
            lemma_map_of(before);
        }
        let mut entries: Vec<(String, String)> = Vec::new();
        std::mem::swap(&mut entries, &mut self.entries);
        let ghost name = key@;
        let ghost new_value = value@;
        entries.push((key, value));
        let ghost after = json::pairs(entries@);
        proof {
            assert(after =~= before.push((name, new_value)));
            assert(after.drop_last() =~= before);
            assert forall|i: int, j: int| 0 <= i < j < after.len() implies (#[trigger] after[i]).0 != (
            #[trigger] after[j]).0 by {
                assert(after[i] == before[i]);
                if j < before.len() {
                    assert(after[j] == before[j]);
                } else {
                    assert(map_of(before).contains_key(before[i].0));
                }
            }
        }
        self.entries = entries;
        assert(self@ =~= old(self)@.insert(name, new_value));
    }

    /// The object of a list of entries.
    pub fn of(entries: &Vec<(String, String)>) -> (table: Self)
        ensures
            table@ == map_of(json::pairs(entries@)),
    {
        let ghost views = json::pairs(entries@);
        let mut table = Table::new();
        let mut i: usize = 0;
        assert(views.subrange(0, 0) =~= Seq::<(Seq<char>, Seq<char>)>::empty());
        while i < entries.len()
            invariant
                i <= entries@.len(),
                views == json::pairs(entries@),
                table@ == map_of(views.subrange(0, i as int)),
            decreases entries@.len() - i,
        {
            assert(views.subrange(0, i + 1).drop_last() =~= views.subrange(0, i as int));
            table.insert(entries[i].0.clone(), entries[i].1.clone());
            i += 1;
        }
        assert(views.subrange(0, i as int) =~= views);
        table
    }

    pub fn copied(&self) -> (copy: Self)
        ensures
            copy@ == self@,
    {
        Table::of(&self.entries)
    }

    fn within(&self, other: &Table) -> (within: bool)
        ensures
            within == (forall|k: Seq<char>|
                #[trigger] self@.contains_key(k) ==> other@.contains_key(k) && json::same_json(self@[k], other@[k])),
    {
        let ghost views = json::pairs(self.entries@);
        proof {
            use_type_invariant(self);
            lemma_map_of(views);
        }
        let mut i: usize = 0;
        while i < self.entries.len()
            invariant
                i <= self.entries@.len(),
                views == json::pairs(self.entries@),
                self@ == map_of(views),
                forall|k: int|
                    0 <= k < views.len() ==> map_of(views).contains_key((#[trigger] views[k]).0) && map_of(
                        views,
                    )[views[k].0] == views[k].1,
                forall|j: int|
                    0 <= j < i ==> other@.contains_key((#[trigger] views[j]).0) && json::same_json(
                        views[j].1,
                        other@[views[j].0],
                    ),
            decreases self.entries@.len() - i,
        {
            assert(views[i as int] == (self.entries@[i as int].0@, self.entries@[i as int].1@));
            match other.get(self.entries[i].0.as_str()) {
                Some(value) => {
                    if !json::same_value(self.entries[i].1.as_str(), value) {
                        assert(self@.contains_key(views[i as int].0));
                        return false;
                    }
                },
                None => {
                    assert(self@.contains_key(views[i as int].0));
                    return false;
                },
            }
            i += 1;
        }
        true
    }

    /// Whether every key stands in another object too.
    fn has_no_key_beside(&self, other: &Table) -> (none: bool)
        ensures
            none == self@.dom().subset_of(other@.dom()),
    {
        let ghost views = json::pairs(self.entries@);
        proof {
            use_type_invariant(self);
            lemma_map_of(views);
        }
        let mut i: usize = 0;
        while i < self.entries.len()
            invariant
                i <= self.entries@.len(),
                views == json::pairs(self.entries@),
                self@ == map_of(views),
                forall|k: int| 0 <= k < views.len() ==> map_of(views).contains_key((#[trigger] views[k]).0),
                forall|j: int| 0 <= j < i ==> other@.contains_key((#[trigger] views[j]).0),
            decreases self.entries@.len() - i,
        {
            assert(views[i as int] == (self.entries@[i as int].0@, self.entries@[i as int].1@));
            if other.get(self.entries[i].0.as_str()).is_none() {
                assert(self@.dom().contains(views[i as int].0));
                return false;
            }
            i += 1;
        }
        true
    }

    /// Whether two objects hold the same keys with the same values.
    pub fn same(&self, other: &Table) -> (same: bool)
        ensures
            same == json::same_object(self@, other@),
    {
        let same = self.within(other) && other.has_no_key_beside(self);
        proof {
            if same {
                assert(self@.dom() =~= other@.dom());
            } else if self@.dom() == other@.dom() && json::same_object(self@, other@) {
                assert forall|k: Seq<char>| #[trigger] self@.contains_key(k) implies other@.contains_key(k)
                    && json::same_json(self@[k], other@[k]) by {
                    assert(other@.dom().contains(k));
                }
            }
        }
        same
    }
}

} // verus!
