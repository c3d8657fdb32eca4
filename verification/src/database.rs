//! The in-memory store: at most one record per identifier.

use crate::record::{
    entries_ref_view, entries_view, option_ref_view, option_view, parsed_view, seq_view,
    ForexPair, ForexPairView,
};
use std::collections::HashMap;
use vstd::prelude::*;
use vstd::std_specs::iter::IteratorSpec;

verus! {

broadcast use vstd::std_specs::hash::group_hash_axioms;

/// Every record of `store` is filed under its own identifier, and there are
/// finitely many of them.
pub open spec fn well_formed(store: Map<u64, ForexPairView>) -> bool {
    &&& store.dom().finite()
    &&& forall|id: u64| store.contains_key(id) ==> (#[trigger] store[id]).id == id
}

/// `records` names every record of `store` exactly once, in some order.
pub open spec fn enumerates(records: Seq<ForexPairView>, store: Map<u64, ForexPairView>) -> bool {
    &&& forall|i: int|
        0 <= i < records.len() ==> store.contains_key(#[trigger] records[i].id)
            && store[records[i].id] == records[i]
    &&& forall|id: u64|
        store.contains_key(id) ==> exists|i: int|
            0 <= i < records.len() && (#[trigger] records[i]).id == id
    &&& forall|i: int, j: int|
        0 <= i < j < records.len() ==> (#[trigger] records[i]).id != (#[trigger] records[j]).id
}

/// Every entry of `entries` is keyed by the identifier of its record.
pub open spec fn keys_match(entries: Seq<(u64, ForexPairView)>) -> bool {
    forall|i: int| 0 <= i < entries.len() ==> (#[trigger] entries[i]).0 == entries[i].1.id
}

/// The store that results from filing `entries` one after another, each under
/// its key: of two entries with one key the later stays.
pub open spec fn restored(entries: Seq<(u64, ForexPairView)>) -> Map<u64, ForexPairView>
    decreases entries.len(),
{
    if entries.len() == 0 {
        Map::empty()
    } else {
        restored(entries.drop_last()).insert(entries.last().0, entries.last().1)
    }
}

/// The store that the service starts with, given the entries that were read
/// back, if any were: the store restored from them where they have the right
/// shape, and the empty store otherwise.
pub open spec fn initial_store(parsed: Option<Seq<(u64, ForexPairView)>>) -> Map<
    u64,
    ForexPairView,
> {
    match parsed {
        Some(entries) => if keys_match(entries) {
            restored(entries)
        } else {
            Map::empty()
        },
        None => Map::empty(),
    }
}

/// The records of `entries`, without their keys.
pub open spec fn records_of(entries: Seq<(u64, ForexPairView)>) -> Seq<ForexPairView> {
    entries.map_values(|e: (u64, ForexPairView)| e.1)
}

/// `entries` is what `store` is written out as: every record of the store
/// exactly once, in some order, each keyed by its identifier.
pub open spec fn writes_out(
    entries: Seq<(u64, ForexPairView)>,
    store: Map<u64, ForexPairView>,
) -> bool {
    &&& keys_match(entries)
    &&& enumerates(records_of(entries), store)
}

/// The keyed collection of records.
#[derive(Debug)]
pub struct Database {
    forex_pairs: HashMap<u64, ForexPair>,
}

impl View for Database {
    type V = Map<u64, ForexPairView>;

    closed spec fn view(&self) -> Map<u64, ForexPairView> {
        self.forex_pairs@.map_values(|r: ForexPair| r@)
    }
}

impl Clone for Database {
    fn clone(&self) -> (copy: Database)
        ensures
            copy@ == self@,
    {
        proof {
            use_type_invariant(self);
        }
        Database { forex_pairs: self.forex_pairs.clone() }
    }
}

impl Database {
    #[verifier::type_invariant]
    spec fn filed_by_id(self) -> bool {
        forall|id: u64|
            self.forex_pairs@.contains_key(id) ==> (#[trigger] self.forex_pairs@[id]).id == id
    }

    /// A store whose records are filed by identifier has a well-formed view.
    proof fn lemma_view_well_formed(self)
        requires
            self.filed_by_id(),
        ensures
            well_formed(self@),
    {
        assert(self@.dom() =~= self.forex_pairs@.dom());
    }

    /// An empty store.
    pub fn new() -> (db: Database)
        ensures
            db@ == Map::<u64, ForexPairView>::empty(),
            well_formed(db@),
    {
        let db = Database { forex_pairs: HashMap::new() };
        assert(db@ =~= Map::<u64, ForexPairView>::empty());
        proof {
            db.lemma_view_well_formed();
        }
        db
    }

    /// Rebuilds a store from keyed records, read in order. The entries must
    /// have the shape that a store is written out in: each keyed by the
    /// identifier of its record. Where one is not, there is no store.
    pub fn from_entries(entries: Vec<(u64, ForexPair)>) -> (loaded: Option<Database>)
        ensures
            loaded is Some <==> keys_match(entries_view(entries@)),
            loaded matches Some(db) ==> db@ == restored(entries_view(entries@)) && well_formed(
                db@,
            ),
    {
        let ghost listed = entries_view(entries@);
        let mut db = Database::new();
        for entry in it: entries.into_iter()
            invariant
                it.seq() == entries@,
                listed == entries_view(entries@),
                db@ == restored(listed.take(it.index())),
                keys_match(listed.take(it.index())),
                well_formed(db@),
        {
            let ghost done = it.index();
            let (key, forex_pair) = entry;
            if key != forex_pair.id {
                proof {
                    assert(listed[done].0 != listed[done].1.id);
                }
                return None;
            }
            db.insert(forex_pair);
            proof {
                assert(listed.take(done + 1).drop_last() =~= listed.take(done));
                assert(listed.take(done + 1).last() == listed[done]);
            }
        }
        proof {
            assert(listed.take(listed.len() as int) =~= listed);
        }
        Some(db)
    }

    /// The store to start with. `parsed` holds the entries that were read
    /// back from what an earlier run wrote out, or nothing where that was
    /// missing, unreadable or not of the expected form. Entries of the wrong
    /// shape count as unreadable: the store then starts empty.
    pub fn load_or_empty(parsed: Option<Vec<(u64, ForexPair)>>) -> (db: Database)
        ensures
            db@ == initial_store(parsed_view(parsed)),
            well_formed(db@),
    {
        match parsed {
            Some(entries) => match Database::from_entries(entries) {
                Some(db) => db,
                None => Database::new(),
            },
            None => Database::new(),
        }
    }

    /// Files `forex_pair` under its identifier, replacing the record that was
    /// there, and returns the replaced record if there was one.
    pub fn insert(&mut self, forex_pair: ForexPair) -> (previous: Option<ForexPair>)
        ensures
            final(self)@ == old(self)@.insert(forex_pair.id, forex_pair@),
            option_view(previous) == old(self)@.get(forex_pair.id),
            well_formed(final(self)@),
    {
        proof {
            use_type_invariant(&*self);
        }
        // The map is taken out while it changes and put back when it is whole.
        let mut forex_pairs = HashMap::new();
        std::mem::swap(&mut forex_pairs, &mut self.forex_pairs);
        let previous = forex_pairs.insert(forex_pair.id, forex_pair);
        std::mem::swap(&mut forex_pairs, &mut self.forex_pairs);
        assert(self@ =~= old(self)@.insert(forex_pair.id, forex_pair@));
        proof {
            self.lemma_view_well_formed();
        }
        previous
    }

    /// The record filed under `id`, if there is one.
    pub fn get(&self, id: &u64) -> (found: Option<&ForexPair>)
        ensures
            option_ref_view(found) == self@.get(*id),
    {
        self.forex_pairs.get(id)
    }

    /// Every record of the store, each once, in no particular order.
    pub fn get_all(&self) -> (records: Vec<&ForexPair>)
        ensures
            enumerates(seq_view(records@), self@),
    {
        proof {
            use_type_invariant(self);
        }
        let mut records: Vec<&ForexPair> = Vec::new();
        let ghost entries = self.forex_pairs.iter().remaining();
        for entry in it: self.forex_pairs.iter()
            invariant
                it.seq() == entries,
                records@.len() == it.index(),
                forall|i: int| 0 <= i < it.index() ==> records@[i] == entries[i].1,
        {
            records.push(entry.1);
        }
        proof {
            let held = self.forex_pairs@;
            let listed = seq_view(records@);
            // Each entry is filed in the map, so its key is its record's identifier.
            assert(forall|i: int|
                0 <= i < listed.len() ==> held.contains_key(*entries[i].0) && held[*entries[i].0]
                    == *entries[i].1 && listed[i].id == *entries[i].0);
            // No entry comes twice, so no identifier does.
            assert forall|i: int, j: int| 0 <= i < j < listed.len() implies listed[i].id
                != listed[j].id by {
                assert(entries[i] != entries[j]);
            }
            // Every key of the map has its entry.
            assert forall|id: u64| self@.contains_key(id) implies exists|i: int|
                0 <= i < listed.len() && (#[trigger] listed[i]).id == id by {
                let i = entries.index_of((&id, &held[id]));
                assert(listed[i].id == id);
            }
        }
        records
    }

    /// The store as it is written out: every record once, in no particular
    /// order, each keyed by its identifier.
    pub fn to_entries(&self) -> (entries: Vec<(u64, &ForexPair)>)
        ensures
            writes_out(entries_ref_view(entries@), self@),
    {
        let records = self.get_all();
        let mut entries: Vec<(u64, &ForexPair)> = Vec::new();
        let mut i: usize = 0;
        while i < records.len()
            invariant
                i <= records.len(),
                entries@.len() == i,
                forall|j: int| 0 <= j < i ==> entries@[j] == (records@[j].id, records@[j]),
            decreases records.len() - i,
        {
            let forex_pair = records[i];
            entries.push((forex_pair.id, forex_pair));
            i += 1;
        }
        assert(records_of(entries_ref_view(entries@)) =~= seq_view(records@));
        entries
    }

    /// Removes the record filed under `id`; does nothing if there is none.
    pub fn delete(&mut self, id: &u64)
        ensures
            final(self)@ == old(self)@.remove(*id),
            well_formed(final(self)@),
    {
        proof {
            use_type_invariant(&*self);
        }
        // The map is taken out while it changes and put back when it is whole.
        let mut forex_pairs = HashMap::new();
        std::mem::swap(&mut forex_pairs, &mut self.forex_pairs);
        forex_pairs.remove(id);
        std::mem::swap(&mut forex_pairs, &mut self.forex_pairs);
        assert(self@ =~= old(self)@.remove(*id));
        proof {
            self.lemma_view_well_formed();
        }
    }

    /// Files `forex_pair` under its identifier whether or not a record was
    /// there before.
    pub fn update(&mut self, forex_pair: ForexPair)
        ensures
            final(self)@ == old(self)@.insert(forex_pair.id, forex_pair@),
            well_formed(final(self)@),
    {
        self.insert(forex_pair);
    }
}

} // verus!
