//! The indexed collection behind every metadata table.
//!
//! A [`Lookup`] is an insertion-ordered sequence of records together with two
//! secondary indices mapping string keys to sequence positions: one for
//! identifiers and one for display names.  Registering a key that is already
//! present silently overwrites only that key's pointer; the record registered
//! earlier stays reachable through [`Lookup::get_entries`].

use vstd::prelude::*;

use crate::text::str_eq;

verus! {

/// A map from string keys to sequence positions, stored as an append-only
/// association list in which the latest entry for a key wins.
struct KeyIndex {
    keys: Vec<String>,
    positions: Vec<usize>,
}

/// The map held by an association list, later entries overriding earlier ones.
spec fn assoc_map(keys: Seq<String>, positions: Seq<usize>) -> Map<Seq<char>, int>
    decreases keys.len(),
{
    if keys.len() == 0 || positions.len() == 0 {
        Map::empty()
    } else {
        assoc_map(keys.drop_last(), positions.drop_last()).insert(
            keys.last()@,
            positions.last() as int,
        )
    }
}

impl View for KeyIndex {
    type V = Map<Seq<char>, int>;

    closed spec fn view(&self) -> Map<Seq<char>, int> {
        assoc_map(self.keys@, self.positions@)
    }
}

impl KeyIndex {
    spec fn wf(&self) -> bool {
        self.keys@.len() == self.positions@.len()
    }

    fn empty() -> (r: KeyIndex)
        ensures
            r@ == Map::<Seq<char>, int>::empty(),
            r.wf(),
    {
        KeyIndex { keys: Vec::new(), positions: Vec::new() }
    }

    fn register(&mut self, key: &str, position: usize)
        requires
            old(self).wf(),
        ensures
            final(self).wf(),
            final(self)@ == old(self)@.insert(key@, position as int),
    {
        self.keys.push(key.to_owned());
        self.positions.push(position);
        proof {
            assert(self.keys@.drop_last() =~= old(self).keys@);
            assert(self.positions@.drop_last() =~= old(self).positions@);
        }
    }

    fn find(&self, key: &str) -> (r: Option<usize>)
        requires
            self.wf(),
        ensures
            match r {
                Some(p) => self@.contains_key(key@) && self@[key@] == p as int,
                None => !self@.contains_key(key@),
            },
    {
        let mut found: Option<usize> = None;
        let n = self.keys.len();
        proof {
            assert(self.keys@.take(0) =~= Seq::<String>::empty());
            assert(self.positions@.take(0) =~= Seq::<usize>::empty());
        }
        for i in 0..n
            invariant
                n == self.keys@.len(),
                self.wf(),
                match found {
                    Some(p) => {
                        &&& assoc_map(self.keys@.take(i as int), self.positions@.take(i as int))
                            .contains_key(key@)
                        &&& assoc_map(self.keys@.take(i as int), self.positions@.take(i as int))[
                            key@] == p as int
                    },
                    None => !assoc_map(
                        self.keys@.take(i as int),
                        self.positions@.take(i as int),
                    ).contains_key(key@),
                },
        {
            proof {
                assert(self.keys@.take(i + 1).drop_last() =~= self.keys@.take(i as int));
                assert(self.positions@.take(i + 1).drop_last() =~= self.positions@.take(i as int));
                assert(self.keys@.take(i + 1).last() == self.keys@[i as int]);
                assert(self.positions@.take(i + 1).last() == self.positions@[i as int]);
            }
            if str_eq(self.keys[i].as_str(), key) {
                found = Some(self.positions[i]);
            }
        }
        proof {
            assert(self.keys@.take(n as int) =~= self.keys@);
            assert(self.positions@.take(n as int) =~= self.positions@);
        }
        found
    }
}

/// The mathematical value of a [`Lookup`]: its ordered records and the two
/// key-to-position maps.
#[verifier::ext_equal]
pub struct LookupModel<T> {
    pub entries: Seq<T>,
    pub by_id: Map<Seq<char>, int>,
    pub by_name: Map<Seq<char>, int>,
}

/// Both secondary indices point inside the record sequence.
pub open spec fn lookup_model_wf<T>(m: LookupModel<T>) -> bool {
    &&& forall|k: Seq<char>| #[trigger]
        m.by_id.contains_key(k) ==> 0 <= m.by_id[k] < m.entries.len()
    &&& forall|k: Seq<char>| #[trigger]
        m.by_name.contains_key(k) ==> 0 <= m.by_name[k] < m.entries.len()
}

/// Appending a record leaves both indices unchanged.
pub open spec fn spec_add<T>(m: LookupModel<T>, value: T) -> LookupModel<T> {
    LookupModel { entries: m.entries.push(value), by_id: m.by_id, by_name: m.by_name }
}

/// Registering an identifier points it at the most recently added record.
pub open spec fn spec_with_id<T>(m: LookupModel<T>, id: Seq<char>) -> LookupModel<T> {
    LookupModel { by_id: m.by_id.insert(id, m.entries.len() - 1), ..m }
}

/// Registering a name points it at the most recently added record.
pub open spec fn spec_with_name<T>(m: LookupModel<T>, name: Seq<char>) -> LookupModel<T> {
    LookupModel { by_name: m.by_name.insert(name, m.entries.len() - 1), ..m }
}

/// The record a registered identifier resolves to, if any.
pub open spec fn spec_by_id<T>(m: LookupModel<T>, id: Seq<char>) -> Option<T> {
    if m.by_id.contains_key(id) && 0 <= m.by_id[id] < m.entries.len() {
        Some(m.entries[m.by_id[id]])
    } else {
        None
    }
}

/// The record a registered name resolves to, if any.
pub open spec fn spec_by_name<T>(m: LookupModel<T>, name: Seq<char>) -> Option<T> {
    if m.by_name.contains_key(name) && 0 <= m.by_name[name] < m.entries.len() {
        Some(m.entries[m.by_name[name]])
    } else {
        None
    }
}

/// An insertion-ordered sequence of records with identifier and name indices.
pub struct Lookup<T> {
    entries: Vec<T>,
    by_id: KeyIndex,
    by_name: KeyIndex,
}

impl<T> View for Lookup<T> {
    type V = LookupModel<T>;

    closed spec fn view(&self) -> LookupModel<T> {
        LookupModel { entries: self.entries@, by_id: self.by_id@, by_name: self.by_name@ }
    }
}

impl<T> Lookup<T> {
    /// Internal consistency: index widths match and positions are in range.
    pub closed spec fn wf(&self) -> bool {
        self.by_id.wf() && self.by_name.wf() && lookup_model_wf(self@)
    }

    pub fn new() -> (r: Lookup<T>)
        ensures
            r.wf(),
            r@.entries == Seq::<T>::empty(),
            r@.by_id == Map::<Seq<char>, int>::empty(),
            r@.by_name == Map::<Seq<char>, int>::empty(),
    {
        Lookup { entries: Vec::new(), by_id: KeyIndex::empty(), by_name: KeyIndex::empty() }
    }

    pub fn len(&self) -> (r: usize)
        ensures
            r == self@.entries.len(),
    {
        self.entries.len()
    }

    pub fn get_entries(&self) -> (r: &Vec<T>)
        ensures
            r@ == self@.entries,
    {
        &self.entries
    }

    /// Appends `value`; subsequent [`Lookup::with_id`] and
    /// [`Lookup::with_name`] calls register keys for it.
    pub fn add(&mut self, value: T)
        requires
            old(self).wf(),
        ensures
            final(self).wf(),
            final(self)@ == spec_add(old(self)@, value),
    {
        self.entries.push(value);
    }

    /// Registers `id` as pointing at the most recently added record,
    /// overwriting any record previously registered under `id`.
    pub fn with_id(&mut self, id: &str)
        requires
            old(self).wf(),
            old(self)@.entries.len() > 0,
        ensures
            final(self).wf(),
            final(self)@ == spec_with_id(old(self)@, id@),
    {
        let position = self.entries.len() - 1;
        self.by_id.register(id, position);
        proof {
            assert forall|k: Seq<char>| #[trigger] self@.by_id.contains_key(k) implies 0
                <= self@.by_id[k] < self@.entries.len() by {
                if k != id@ {
                    assert(old(self)@.by_id.contains_key(k));
                }
            }
            assert forall|k: Seq<char>| #[trigger] self@.by_name.contains_key(k) implies 0
                <= self@.by_name[k] < self@.entries.len() by {
                assert(old(self)@.by_name.contains_key(k));
            }
        }
    }

    /// Registers `name` as pointing at the most recently added record,
    /// overwriting any record previously registered under `name`.
    pub fn with_name(&mut self, name: &str)
        requires
            old(self).wf(),
            old(self)@.entries.len() > 0,
        ensures
            final(self).wf(),
            final(self)@ == spec_with_name(old(self)@, name@),
    {
        let position = self.entries.len() - 1;
        self.by_name.register(name, position);
        proof {
            assert forall|k: Seq<char>| #[trigger] self@.by_name.contains_key(k) implies 0
                <= self@.by_name[k] < self@.entries.len() by {
                if k != name@ {
                    assert(old(self)@.by_name.contains_key(k));
                }
            }
            assert forall|k: Seq<char>| #[trigger] self@.by_id.contains_key(k) implies 0
                <= self@.by_id[k] < self@.entries.len() by {
                assert(old(self)@.by_id.contains_key(k));
            }
        }
    }

    pub fn by_id(&self, id: &str) -> (r: Option<&T>)
        requires
            self.wf(),
        ensures
            match r {
                Some(value) => spec_by_id(self@, id@) == Some(*value),
                None => spec_by_id(self@, id@) is None,
            },
    {
        match self.by_id.find(id) {
            Some(position) => Some(&self.entries[position]),
            None => None,
        }
    }

    pub fn by_name(&self, name: &str) -> (r: Option<&T>)
        requires
            self.wf(),
        ensures
            match r {
                Some(value) => spec_by_name(self@, name@) == Some(*value),
                None => spec_by_name(self@, name@) is None,
            },
    {
        match self.by_name.find(name) {
            Some(position) => Some(&self.entries[position]),
            None => None,
        }
    }
}

/// The kind of resource a lookup table indexes, as a label for diagnostics.
pub trait LookupDisplay {
    fn display() -> &'static str;
}

/// After appending a record and registering an identifier and a name for it,
/// both keys resolve to exactly that record, and the table has grown by one.
pub proof fn lemma_register_then_find<T>(m: LookupModel<T>, value: T, id: Seq<char>, name: Seq<char>)
    ensures
        ({
            let m2 = spec_with_name(spec_with_id(spec_add(m, value), id), name);
            &&& spec_by_id(m2, id) == Some(value)
            &&& spec_by_name(m2, name) == Some(value)
            &&& m2.entries.len() == m.entries.len() + 1
        }),
{
}

/// Registering a fresh record under an identifier that is already in use
/// overwrites only that identifier's pointer: the identifier now resolves to
/// the new record, every other key is untouched, and the record previously
/// registered under the identifier is still present in the entry sequence.
pub proof fn lemma_overwrite_id_pointer<T>(m: LookupModel<T>, value: T, id: Seq<char>)
    requires
        lookup_model_wf(m),
        spec_by_id(m, id) is Some,
    ensures
        ({
            let m2 = spec_with_id(spec_add(m, value), id);
            &&& spec_by_id(m2, id) == Some(value)
            &&& m2.entries == m.entries.push(value)
            &&& m2.entries[m.by_id[id]] == spec_by_id(m, id).unwrap()
            &&& forall|k: Seq<char>| k != id ==> spec_by_id(m2, k) == spec_by_id(m, k)
            &&& forall|k: Seq<char>| spec_by_name(m2, k) == spec_by_name(m, k)
        }),
{
    let m2 = spec_with_id(spec_add(m, value), id);
    assert forall|k: Seq<char>| k != id implies spec_by_id(m2, k) == spec_by_id(m, k) by {
        if m.by_id.contains_key(k) {
            assert(m2.entries[m.by_id[k]] == m.entries[m.by_id[k]]);
        }
    }
    assert forall|k: Seq<char>| spec_by_name(m2, k) == spec_by_name(m, k) by {
        if m.by_name.contains_key(k) {
            assert(m2.entries[m.by_name[k]] == m.entries[m.by_name[k]]);
        }
    }
}

} // verus!
