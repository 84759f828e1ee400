//! The schema registry: canonical type name to schema object.
//!
//! The registry is owned by the top-level specification document for its
//! whole lifetime, is mutated only by the generator, and only grows: an
//! entry, once inserted, is never removed or overwritten.  Entries are kept
//! in insertion order; names are unique.

use crate::schema::Schema;
use crate::schema::SchemaV;
use vstd::prelude::*;

verus! {

/// A registry of schema objects keyed by canonical type name.
pub struct Registry {
    entries: Vec<(String, Schema)>,
}

/// The mapping that an entry list denotes.
pub open spec fn entries_map(s: Seq<(Seq<char>, SchemaV)>) -> Map<Seq<char>, SchemaV>
    decreases s.len(),
{
    if s.len() == 0 {
        Map::empty()
    } else {
        entries_map(s.drop_last()).insert(s.last().0, s.last().1)
    }
}

/// The denoted mapping contains exactly the listed keys, with the value
/// listed last for each; its domain is finite.
pub proof fn lemma_entries_map(s: Seq<(Seq<char>, SchemaV)>)
    ensures
        entries_map(s).dom().finite(),
        forall|k: Seq<char>|
            #[trigger] entries_map(s).contains_key(k) <==> exists|i: int|
                0 <= i < s.len() && s[i].0 == k,
        forall|i: int|
            0 <= i < s.len() && (forall|j: int| i < j < s.len() ==> s[j].0 != s[i].0)
                ==> entries_map(s).contains_key(s[i].0) && entries_map(s)[#[trigger] s[i].0]
                == s[i].1,
    decreases s.len(),
{
    if s.len() > 0 {
        lemma_entries_map(s.drop_last());
        assert forall|k: Seq<char>| #[trigger] entries_map(s).contains_key(k) implies exists|
            i: int,
        | 0 <= i < s.len() && s[i].0 == k by {
            if k == s.last().0 {
                assert(s[s.len() - 1].0 == k);
            } else {
                let i = choose|i: int| 0 <= i < s.drop_last().len() && s.drop_last()[i].0 == k;
                assert(s[i].0 == k);
            }
        }
        assert forall|k: Seq<char>|
            (exists|i: int| 0 <= i < s.len() && s[i].0 == k) implies #[trigger] entries_map(
            s,
        ).contains_key(k) by {
            let i = choose|i: int| 0 <= i < s.len() && s[i].0 == k;
            if i < s.len() - 1 {
                assert(s.drop_last()[i].0 == k);
            }
        }
        assert forall|i: int|
            0 <= i < s.len() && (forall|j: int| i < j < s.len() ==> s[j].0 != s[i].0) implies
            entries_map(s).contains_key(s[i].0) && entries_map(s)[#[trigger] s[i].0] == s[i].1 by {
            if i < s.len() - 1 {
                assert(forall|j: int|
                    i < j < s.drop_last().len() ==> s.drop_last()[j].0 != s.drop_last()[i].0);
                assert(s.drop_last()[i].0 == s[i].0 && s.drop_last()[i].1 == s[i].1);
                assert(s.last().0 != s[i].0);
            }
        }
    }
}

impl View for Registry {
    type V = Map<Seq<char>, SchemaV>;

    open spec fn view(&self) -> Map<Seq<char>, SchemaV> {
        entries_map(self.seq_view())
    }
}

impl Registry {
    /// The entry list in insertion order, name and schema modelled.
    pub closed spec fn seq_view(&self) -> Seq<(Seq<char>, SchemaV)> {
        self.entries@.map(|i: int, e: (String, Schema)| (e.0@, e.1@))
    }

    /// Names are unique across the entry list.
    pub open spec fn wf(&self) -> bool {
        forall|i: int, j: int|
            0 <= i < j < self.seq_view().len() ==> self.seq_view()[i].0 != self.seq_view()[j].0
    }

    /// An empty registry.
    pub fn new() -> (r: Registry)
        ensures
            r@ =~= Map::<Seq<char>, SchemaV>::empty(),
            r.seq_view() =~= Seq::<(Seq<char>, SchemaV)>::empty(),
            r.wf(),
    {
        Registry { entries: Vec::new() }
    }

    /// How many schema objects are registered.
    pub fn len(&self) -> (r: usize)
        ensures
            r == self.seq_view().len(),
    {
        self.entries.len()
    }

    /// The entry at a position of the insertion order: its canonical name
    /// and its schema object.
    pub fn entry_at(&self, i: usize) -> (r: (&String, &Schema))
        requires
            i < self.seq_view().len(),
        ensures
            r.0@ == self.seq_view()[i as int].0,
            r.1@ == self.seq_view()[i as int].1,
    {
        (&self.entries[i].0, &self.entries[i].1)
    }

    /// Whether a schema object is registered under the given name.
    pub fn contains(&self, name: &str) -> (r: bool)
        ensures
            r == self@.contains_key(name@),
    {
        proof {
            lemma_entries_map(self.seq_view());
        }
        let mut i: usize = 0;
        while i < self.entries.len()
            invariant
                self.seq_view().len() == self.entries@.len(),
                forall|j: int|
                    0 <= j < self.entries@.len() ==> #[trigger] self.seq_view()[j].0
                        == self.entries@[j].0@,
                i <= self.entries@.len(),
                forall|j: int| 0 <= j < i ==> self.seq_view()[j].0 != name@,
                forall|k: Seq<char>|
                    #[trigger] self@.contains_key(k) <==> exists|j: int|
                        0 <= j < self.seq_view().len() && self.seq_view()[j].0 == k,
            decreases self.entries@.len() - i,
        {
            if crate::text::str_eq(self.entries[i].0.as_str(), name) {
                proof {
                    assert(self.seq_view()[i as int].0 == name@);
                }
                return true;
            }
            i += 1;
        }
        false
    }

    /// The registered schema object under the given name, where one is.
    pub fn get(&self, name: &str) -> (r: Option<&Schema>)
        requires
            self.wf(),
        ensures
            match r {
                Some(s) => self@.contains_key(name@) && s@ == self@[name@],
                None => !self@.contains_key(name@),
            },
    {
        proof {
            lemma_entries_map(self.seq_view());
        }
        let mut i: usize = 0;
        while i < self.entries.len()
            invariant
                self.wf(),
                self.seq_view().len() == self.entries@.len(),
                forall|j: int|
                    0 <= j < self.entries@.len() ==> #[trigger] self.seq_view()[j] == (
                        self.entries@[j].0@,
                        self.entries@[j].1@,
                    ),
                i <= self.entries@.len(),
                forall|j: int| 0 <= j < i ==> self.seq_view()[j].0 != name@,
                forall|k: Seq<char>|
                    #[trigger] self@.contains_key(k) <==> exists|j: int|
                        0 <= j < self.seq_view().len() && self.seq_view()[j].0 == k,
                forall|j: int|
                    0 <= j < self.seq_view().len() && (forall|l: int|
                        j < l < self.seq_view().len() ==> self.seq_view()[l].0
                            != self.seq_view()[j].0) ==> self@.contains_key(self.seq_view()[j].0)
                        && self@[#[trigger] self.seq_view()[j].0] == self.seq_view()[j].1,
            decreases self.entries@.len() - i,
        {
            if crate::text::str_eq(self.entries[i].0.as_str(), name) {
                let out = &self.entries[i].1;
                proof {
                    let j = i as int;
                    assert(self.seq_view()[j].0 == name@);
                    assert(forall|l: int|
                        j < l < self.seq_view().len() ==> self.seq_view()[l].0
                            != self.seq_view()[j].0);
                    assert(self@[name@] == self.seq_view()[j].1);
                    assert(out@ == self.seq_view()[j].1);
                }
                return Some(out);
            }
            i += 1;
        }
        None
    }

    /// Registers a schema object under a fresh name.
    pub fn insert(&mut self, name: String, schema: Schema)
        requires
            old(self).wf(),
            !old(self)@.contains_key(name@),
        ensures
            final(self).wf(),
            final(self)@ == old(self)@.insert(name@, schema@),
            final(self).seq_view() == old(self).seq_view().push((name@, schema@)),
    {
        proof {
            lemma_entries_map(self.seq_view());
        }
        let ghost pre = self.seq_view();
        self.entries.push((name, schema));
        proof {
            assert(self.seq_view() =~= pre.push((name@, schema@)));
            assert(self.seq_view().drop_last() =~= pre);
            assert forall|i: int, j: int| 0 <= i < j < self.seq_view().len() implies self
                .seq_view()[i].0 != self.seq_view()[j].0 by {
                if j == self.seq_view().len() - 1 {
                    assert(!(exists|l: int| 0 <= l < pre.len() && pre[l].0 == name@));
                    assert(self.seq_view()[i] == pre[i]);
                }
            }
        }
    }
}

} // verus!
