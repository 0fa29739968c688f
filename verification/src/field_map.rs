//! A finite map from field names to values, kept as a list of entries in
//! which no name occurs twice.

use vstd::prelude::*;

verus! {

/// The map that a list of entries stands for: each name is bound to the
/// value of the last entry that carries it.
pub open spec fn entries_map<T>(s: Seq<(String, T)>) -> Map<Seq<char>, T>
    decreases s.len(),
{
    if s.len() == 0 {
        Map::empty()
    } else {
        entries_map(s.drop_last()).insert(s.last().0@, s.last().1)
    }
}

/// Whether no two entries of `s` carry the same name.
pub open spec fn distinct_names<T>(s: Seq<(String, T)>) -> bool {
    forall|i: int, j: int| 0 <= i < j < s.len() ==> s[i].0@ != s[j].0@
}

/// Whether some entry of `s` carries the name `name`.
pub open spec fn has_name<T>(s: Seq<(String, T)>, name: Seq<char>) -> bool {
    exists|i: int| 0 <= i < s.len() && #[trigger] s[i].0@ == name
}

/// The names that `entries_map` binds are the names of the entries.
pub proof fn lemma_entries_map_names<T>(s: Seq<(String, T)>, name: Seq<char>)
    ensures
        entries_map(s).contains_key(name) <==> has_name(s, name),
    decreases s.len(),
{
    if s.len() > 0 {
        let r = s.drop_last();
        lemma_entries_map_names(r, name);
        if has_name(s, name) {
            let i = choose|i: int| 0 <= i < s.len() && #[trigger] s[i].0@ == name;
            if i < s.len() - 1 {
                assert(r[i].0@ == name);
            }
        }
        if has_name(r, name) {
            let i = choose|i: int| 0 <= i < r.len() && #[trigger] r[i].0@ == name;
            assert(s[i].0@ == name);
        }
        if s.last().0@ == name {
            assert(s[s.len() - 1].0@ == name);
        }
    }
}

/// Where no name occurs twice, each entry's name is bound to its value.
pub proof fn lemma_entries_map_value<T>(s: Seq<(String, T)>, i: int)
    requires
        distinct_names(s),
        0 <= i < s.len(),
    ensures
        entries_map(s).contains_key(s[i].0@),
        entries_map(s)[s[i].0@] == s[i].1,
    decreases s.len(),
{
    if i < s.len() - 1 {
        let r = s.drop_last();
        assert(distinct_names(r)) by {
            assert forall|a: int, b: int| 0 <= a < b < r.len() implies r[a].0@ != r[b].0@ by {
                assert(s[a].0@ != s[b].0@);
            }
        }
        lemma_entries_map_value(r, i);
        assert(s[i].0@ != s[s.len() - 1].0@);
    }
}

/// Where no name occurs twice, the map has as many bindings as the list has
/// entries.
pub proof fn lemma_entries_map_len<T>(s: Seq<(String, T)>)
    requires
        distinct_names(s),
    ensures
        entries_map(s).dom().finite(),
        entries_map(s).len() == s.len(),
    decreases s.len(),
{
    if s.len() > 0 {
        let r = s.drop_last();
        assert(distinct_names(r)) by {
            assert forall|a: int, b: int| 0 <= a < b < r.len() implies r[a].0@ != r[b].0@ by {
                assert(s[a].0@ != s[b].0@);
            }
        }
        lemma_entries_map_len(r);
        lemma_entries_map_names(r, s.last().0@);
        if has_name(r, s.last().0@) {
            let i = choose|i: int| 0 <= i < r.len() && #[trigger] r[i].0@ == s.last().0@;
            assert(s[i].0@ != s[s.len() - 1].0@);
        }
        assert(entries_map(s).dom() =~= entries_map(r).dom().insert(s.last().0@));
    } else {
        assert(entries_map(s).dom() =~= Set::<Seq<char>>::empty());
    }
}

/// Taking an entry out of a list without repeated names takes its name out
/// of the map and leaves the rest as it was.
pub proof fn lemma_entries_map_remove<T>(s: Seq<(String, T)>, i: int)
    requires
        distinct_names(s),
        0 <= i < s.len(),
    ensures
        distinct_names(s.remove(i)),
        !has_name(s.remove(i), s[i].0@),
        entries_map(s.remove(i)) == entries_map(s).remove(s[i].0@),
{
    let t = s.remove(i);
    assert(distinct_names(t)) by {
        assert forall|a: int, b: int| 0 <= a < b < t.len() implies t[a].0@ != t[b].0@ by {
            let a2 = if a < i { a } else { a + 1 };
            let b2 = if b < i { b } else { b + 1 };
            assert(s[a2].0@ != s[b2].0@);
        }
    }
    assert(!has_name(t, s[i].0@)) by {
        if has_name(t, s[i].0@) {
            let a = choose|a: int| 0 <= a < t.len() && #[trigger] t[a].0@ == s[i].0@;
            let a2 = if a < i { a } else { a + 1 };
            if a2 < i {
                assert(s[a2].0@ != s[i].0@);
            } else {
                assert(s[i].0@ != s[a2].0@);
            }
        }
    }
    assert(entries_map(t) =~= entries_map(s).remove(s[i].0@)) by {
        assert forall|name: Seq<char>| #[trigger]
            entries_map(t).contains_key(name) <==> entries_map(s).remove(s[i].0@).contains_key(
                name,
            ) by {
            lemma_entries_map_names(t, name);
            lemma_entries_map_names(s, name);
            if has_name(t, name) {
                let a = choose|a: int| 0 <= a < t.len() && #[trigger] t[a].0@ == name;
                let a2 = if a < i { a } else { a + 1 };
                assert(s[a2].0@ == name);
            }
            if has_name(s, name) && name != s[i].0@ {
                let a = choose|a: int| 0 <= a < s.len() && #[trigger] s[a].0@ == name;
                let a2 = if a < i { a } else { a - 1 };
                assert(t[a2].0@ == name);
            }
        }
        assert forall|name: Seq<char>| #[trigger] entries_map(t).contains_key(name) implies entries_map(
            t,
        )[name] == entries_map(s).remove(s[i].0@)[name] by {
            lemma_entries_map_names(t, name);
            let a = choose|a: int| 0 <= a < t.len() && #[trigger] t[a].0@ == name;
            let a2 = if a < i { a } else { a + 1 };
            lemma_entries_map_value(t, a);
            lemma_entries_map_value(s, a2);
        }
    }
}

/// A finite map from field names to values of type `T`. The order of its
/// entries carries no meaning.
#[derive(Debug)]
pub struct FieldMap<T> {
    entries: Vec<(String, T)>,
}

impl<T> View for FieldMap<T> {
    type V = Map<Seq<char>, T>;

    closed spec fn view(&self) -> Map<Seq<char>, T> {
        entries_map(self.entries@)
    }
}

impl<T> FieldMap<T> {
    #[verifier::type_invariant]
    spec fn no_name_twice(self) -> bool {
        distinct_names(self.entries@)
    }

    /// The entries of the map, in the order in which they are kept.
    pub closed spec fn listed(self) -> Seq<(String, T)> {
        self.entries@
    }

    /// The empty map.
    pub fn new() -> (m: Self)
        ensures
            m@ == Map::<Seq<char>, T>::empty(),
            m.listed().len() == 0,
    {
        FieldMap { entries: Vec::new() }
    }

    /// The map that a list of entries stands for. Where a name occurs more
    /// than once in the list, its last entry counts.
    pub fn from_entries(list: Vec<(String, T)>) -> (m: Self)
        ensures
            m@ == entries_map(list@),
    {
        let ghost all = list@;
        let ghost mut done: int = 0;
        let mut rest = list;
        let mut m = FieldMap::new();
        proof {
            assert(all.skip(0) =~= all);
            assert(all.take(0) =~= Seq::<(String, T)>::empty());
        }
        while rest.len() > 0
            invariant
                0 <= done <= all.len(),
                rest@ == all.skip(done),
                m@ == entries_map(all.take(done)),
            decreases rest@.len(),
        {
            let (name, value) = rest.remove(0);
            m.insert(name, value);
            proof {
                done = done + 1;
                assert(all.take(done).drop_last() =~= all.take(done - 1));
                assert(rest@ =~= all.skip(done));
            }
        }
        proof {
            assert(all.take(done) =~= all);
        }
        m
    }

    /// The entries of the map, each name once.
    pub fn entries(&self) -> (list: &Vec<(String, T)>)
        ensures
            list@ == self.listed(),
            distinct_names(list@),
            entries_map(list@) == self@,
    {
        proof {
            use_type_invariant(self);
        }
        &self.entries
    }

    /// The position of the entry named `name`, if there is one.
    fn position(&self, name: &String) -> (res: Option<usize>)
        ensures
            match res {
                Some(i) => i < self.entries@.len() && self.entries@[i as int].0@ == name@,
                None => !has_name(self.entries@, name@),
            },
    {
        let mut i: usize = 0;
        while i < self.entries.len()
            invariant
                i <= self.entries@.len(),
                forall|j: int| 0 <= j < i ==> self.entries@[j].0@ != name@,
            decreases self.entries@.len() - i,
        {
            if self.entries[i].0 == *name {
                return Some(i);
            }
            i += 1;
        }
        None
    }

    /// The number of names that the map binds.
    pub fn len(&self) -> (n: usize)
        ensures
            self@.dom().finite(),
            n == self@.len(),
            n == self.listed().len(),
    {
        proof {
            use_type_invariant(self);
            lemma_entries_map_len(self.entries@);
        }
        self.entries.len()
    }

    /// Whether the map binds `name`.
    pub fn contains_key(&self, name: &str) -> (b: bool)
        ensures
            b == self@.contains_key(name@),
    {
        let owned = String::from_str(name);
        proof {
            lemma_entries_map_names(self.entries@, name@);
        }
        self.position(&owned).is_some()
    }

    /// The value that `name` is bound to, if it is bound.
    pub fn get(&self, name: &str) -> (res: Option<&T>)
        ensures
            match res {
                Some(value) => self@.contains_key(name@) && *value == self@[name@],
                None => !self@.contains_key(name@),
            },
    {
        let owned = String::from_str(name);
        proof {
            use_type_invariant(self);
            lemma_entries_map_names(self.entries@, name@);
        }
        match self.position(&owned) {
            Some(i) => {
                proof {
                    lemma_entries_map_value(self.entries@, i as int);
                }
                Some(&self.entries[i].1)
            },
            None => None,
        }
    }

    /// Binds `name` to `value`, and returns the value that `name` was bound
    /// to before, if it was bound.
    pub fn insert(&mut self, name: String, value: T) -> (previous: Option<T>)
        ensures
            final(self)@ == old(self)@.insert(name@, value),
            match previous {
                Some(v) => old(self)@.contains_key(name@) && v == old(self)@[name@],
                None => !old(self)@.contains_key(name@),
            },
    {
        let mut taken = FieldMap { entries: Vec::new() };
        core::mem::swap(self, &mut taken);
        proof {
            use_type_invariant(&taken);
            lemma_entries_map_names(taken.entries@, name@);
        }
        let found = taken.position(&name);
        let mut entries = taken.entries;
        let ghost before = entries@;
        match found {
            Some(i) => {
                proof {
                    lemma_entries_map_value(before, i as int);
                    lemma_entries_map_remove(before, i as int);
                }
                let gone = entries.remove(i);
                entries.push((name, value));
                proof {
                    let rest = before.remove(i as int);
                    assert(entries@.drop_last() =~= rest);
                    assert(entries_map(entries@) =~= entries_map(before).insert(name@, value));
                    assert(distinct_names(entries@)) by {
                        assert forall|a: int, b: int| 0 <= a < b < entries@.len() implies entries@[a].0@
                            != entries@[b].0@ by {
                            if b < rest.len() {
                                assert(rest[a].0@ != rest[b].0@);
                            } else {
                                assert(rest[a].0@ == entries@[a].0@);
                            }
                        }
                    }
                }
                *self = FieldMap { entries };
                Some(gone.1)
            },
            None => {
                entries.push((name, value));
                proof {
                    assert(entries@.drop_last() =~= before);
                    assert(distinct_names(entries@)) by {
                        assert forall|a: int, b: int| 0 <= a < b < entries@.len() implies entries@[a].0@
                            != entries@[b].0@ by {
                            if b < before.len() {
                                assert(before[a].0@ != before[b].0@);
                            } else {
                                assert(before[a].0@ == entries@[a].0@);
                            }
                        }
                    }
                }
                *self = FieldMap { entries };
                None
            },
        }
    }
}

} // verus!
