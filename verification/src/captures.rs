//! The named values that a trigger pattern captured from a comment.

use crate::text::same_text;
use vstd::prelude::*;

verus! {

/// The map that a list of entries denotes: each entry binds its name to its
/// value, a later entry overriding an earlier one of the same name.
pub open spec fn entries_map(entries: Seq<(String, String)>) -> Map<Seq<char>, Seq<char>>
    decreases entries.len(),
{
    if entries.len() == 0 {
        Map::empty()
    } else {
        entries_map(entries.drop_last()).insert(entries.last().0@, entries.last().1@)
    }
}

/// No name occurs in two entries.
pub open spec fn names_distinct(entries: Seq<(String, String)>) -> bool {
    forall|i: int, j: int|
        0 <= i < j < entries.len() ==> (#[trigger] entries[i]).0@ != (#[trigger] entries[j]).0@
}

/// No entry after position `i` carries `name`.
pub open spec fn absent_after(entries: Seq<(String, String)>, i: int, name: Seq<char>) -> bool {
    forall|j: int| i < j < entries.len() ==> (#[trigger] entries[j]).0@ != name
}

/// A name that no entry carries is not bound.
pub proof fn lemma_entries_map_absent(entries: Seq<(String, String)>, name: Seq<char>)
    requires
        absent_after(entries, -1, name),
    ensures
        !entries_map(entries).contains_key(name),
    decreases entries.len(),
{
    if entries.len() > 0 {
        let front = entries.drop_last();
        assert forall|j: int| -1 < j < front.len() implies (#[trigger] front[j]).0@ != name by {
            assert(entries[j].0@ != name);
        }
        lemma_entries_map_absent(front, name);
        assert(entries[entries.len() - 1].0@ != name);
    }
}

/// A name is bound to the value of the last entry that carries it.
pub proof fn lemma_entries_map_value(entries: Seq<(String, String)>, i: int)
    requires
        0 <= i < entries.len(),
        absent_after(entries, i, entries[i].0@),
    ensures
        entries_map(entries).contains_key(entries[i].0@),
        entries_map(entries)[entries[i].0@] == entries[i].1@,
    decreases entries.len(),
{
    let front = entries.drop_last();
    if i < entries.len() - 1 {
        assert forall|j: int| i < j < front.len() implies (#[trigger] front[j]).0@
            != front[i].0@ by {
            assert(entries[j].0@ != entries[i].0@);
        }
        lemma_entries_map_value(front, i);
        assert(entries[entries.len() - 1].0@ != entries[i].0@);
    }
}

/// Replacing the last entry that carries a name rebinds the name and
/// nothing else.
pub proof fn lemma_entries_map_update(entries: Seq<(String, String)>, i: int, entry: (String, String))
    requires
        0 <= i < entries.len(),
        entry.0@ == entries[i].0@,
        absent_after(entries, i, entry.0@),
    ensures
        entries_map(entries.update(i, entry)) == entries_map(entries).insert(entry.0@, entry.1@),
        names_distinct(entries) ==> names_distinct(entries.update(i, entry)),
    decreases entries.len(),
{
    let updated = entries.update(i, entry);
    if names_distinct(entries) {
        assert forall|a: int, b: int| 0 <= a < b < updated.len() implies (#[trigger] updated[a]).0@
            != (#[trigger] updated[b]).0@ by {
            assert(entries[a].0@ != entries[b].0@);
        }
    }
    let front = entries.drop_last();
    if i == entries.len() - 1 {
        assert(updated.drop_last() =~= front);
        assert(entries_map(updated) =~= entries_map(entries).insert(entry.0@, entry.1@));
    } else {
        assert forall|j: int| i < j < front.len() implies (#[trigger] front[j]).0@ != entry.0@ by {
            assert(entries[j].0@ != entry.0@);
        }
        lemma_entries_map_update(front, i, entry);
        assert(updated.drop_last() =~= front.update(i, entry));
        assert(updated.last() == entries.last());
        assert(entries[entries.len() - 1].0@ != entry.0@);
        assert(entries_map(updated) =~= entries_map(entries).insert(entry.0@, entry.1@));
    }
}

/// Named capture values of one trigger occurrence.  Binding a name again
/// replaces its value.
#[derive(Debug, Clone)]
pub struct CaptureMap {
    entries: Vec<(String, String)>,
}

impl View for CaptureMap {
    type V = Map<Seq<char>, Seq<char>>;

    open spec fn view(&self) -> Map<Seq<char>, Seq<char>> {
        entries_map(self.spec_entries())
    }
}

impl CaptureMap {
    /// The entries, in the order in which their names were first bound.
    pub closed spec fn spec_entries(&self) -> Seq<(String, String)> {
        self.entries@
    }

    /// The map that binds nothing.
    pub fn new() -> (m: CaptureMap)
        ensures
            m@ == Map::<Seq<char>, Seq<char>>::empty(),
            m.spec_entries().len() == 0,
    {
        CaptureMap { entries: Vec::new() }
    }

    /// The last entry that carries `name`.
    fn position(&self, name: &str) -> (at: Option<usize>)
        ensures
            match at {
                Some(i) => i < self.entries@.len() && self.entries@[i as int].0@ == name@
                    && absent_after(self.entries@, i as int, name@),
                None => absent_after(self.entries@, -1, name@),
            },
    {
        let mut i: usize = self.entries.len();
        while i > 0
            invariant
                i <= self.entries@.len(),
                absent_after(self.entries@, i - 1, name@),
            decreases i,
        {
            i -= 1;
            if same_text(self.entries[i].0.as_str(), name) {
                return Some(i);
            }
        }
        None
    }

    /// Binds `name` to `value`, replacing an earlier binding of the name.
    pub fn insert(&mut self, name: String, value: String)
        ensures
            final(self)@ == old(self)@.insert(name@, value@),
            names_distinct(old(self).spec_entries()) ==> names_distinct(final(self).spec_entries()),
    {
        let ghost before = self.entries@;
        match self.position(name.as_str()) {
            Some(i) => {
                proof {
                    lemma_entries_map_update(before, i as int, (name, value));
                }
                self.entries.set(i, (name, value));
            },
            None => {
                self.entries.push((name, value));
                assert(self.entries@.drop_last() =~= before);
                assert(names_distinct(before) ==> names_distinct(self.entries@)) by {
                    if names_distinct(before) {
                        assert forall|a: int, b: int|
                            0 <= a < b < self.entries@.len() implies (#[trigger] self.entries@[a]).0@
                            != (#[trigger] self.entries@[b]).0@ by {
                            if b < before.len() {
                                assert(before[a].0@ != before[b].0@);
                            } else {
                                assert(before[a].0@ != name@);
                            }
                        }
                    }
                }
            },
        }
    }

    /// The value bound to `name`, if any.
    pub fn get(&self, name: &str) -> (value: Option<&String>)
        ensures
            value.is_some() == self@.contains_key(name@),
            value matches Some(v) ==> v@ == self@[name@],
    {
        match self.position(name) {
            Some(i) => {
                proof {
                    lemma_entries_map_value(self.entries@, i as int);
                }
                Some(&self.entries[i].1)
            },
            None => {
                proof {
                    lemma_entries_map_absent(self.entries@, name@);
                }
                None
            },
        }
    }

    /// A copy that binds the same names to the same values.
    pub fn duplicate(&self) -> (copy: CaptureMap)
        ensures
            copy@ == self@,
            copy.spec_entries() == self.spec_entries(),
    {
        let mut entries: Vec<(String, String)> = Vec::new();
        let mut i: usize = 0;
        while i < self.entries.len()
            invariant
                i <= self.entries@.len(),
                entries@ == self.entries@.take(i as int),
            decreases self.entries.len() - i,
        {
            entries.push((self.entries[i].0.clone(), self.entries[i].1.clone()));
            assert(entries@ =~= self.entries@.take(i + 1));
            i += 1;
        }
        assert(self.entries@.take(self.entries@.len() as int) =~= self.entries@);
        CaptureMap { entries }
    }

    /// How many entries there are.
    pub fn len(&self) -> (n: usize)
        ensures
            n == self.spec_entries().len(),
    {
        self.entries.len()
    }

    /// The name and the value of the entry at `index`.
    pub fn entry(&self, index: usize) -> (e: (&String, &String))
        requires
            index < self.spec_entries().len(),
        ensures
            *e.0 == self.spec_entries()[index as int].0,
            *e.1 == self.spec_entries()[index as int].1,
    {
        (&self.entries[index].0, &self.entries[index].1)
    }
}

} // verus!
