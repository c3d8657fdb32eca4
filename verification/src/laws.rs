//! What holds of the store and of the handlers taken together.

use crate::api::{
    applied_all, created, deleted, distinct_targets, read_response, updated, BodyView,
    ResponseView, Status, Write,
};
use crate::database::{
    enumerates, initial_store, keys_match, records_of, restored, well_formed, writes_out,
};
use crate::record::ForexPairView;
use vstd::prelude::*;

verus! {

/// A record that has been created is read back under its identifier exactly
/// as it was given.
pub proof fn lemma_read_after_create(store: Map<u64, ForexPairView>, record: ForexPairView)
    ensures
        read_response(created(store, record), record.id) == (ResponseView {
            status: Status::Success,
            body: BodyView::Record(record),
        }),
{
}

/// The last write wins: after a create and then an update with the same
/// identifier, the identifier reads as the updated record.
pub proof fn lemma_last_write_wins(
    store: Map<u64, ForexPairView>,
    first: ForexPairView,
    second: ForexPairView,
)
    requires
        first.id == second.id,
    ensures
        read_response(updated(created(store, first), second), first.id) == (ResponseView {
            status: Status::Success,
            body: BodyView::Record(second),
        }),
{
}

/// An update of an identifier that the store does not know creates the
/// record.
pub proof fn lemma_update_creates(store: Map<u64, ForexPairView>, record: ForexPairView)
    ensures
        updated(store, record) == created(store, record),
        read_response(updated(store, record), record.id) == (ResponseView {
            status: Status::Success,
            body: BodyView::Record(record),
        }),
{
}

/// After a delete an identifier is not found, whether or not it was known
/// before.
pub proof fn lemma_read_after_delete(store: Map<u64, ForexPairView>, id: u64)
    ensures
        read_response(deleted(store, id), id) == (ResponseView {
            status: Status::NotFound,
            body: BodyView::Empty,
        }),
{
}

/// A write leaves every other identifier as it was.
pub proof fn lemma_writes_are_local(
    store: Map<u64, ForexPairView>,
    record: ForexPairView,
    id: u64,
    other: u64,
)
    ensures
        other != record.id ==> read_response(created(store, record), other) == read_response(
            store,
            other,
        ),
        other != record.id ==> read_response(updated(store, record), other) == read_response(
            store,
            other,
        ),
        other != id ==> read_response(deleted(store, id), other) == read_response(store, other),
{
}

/// Every write keeps the store well formed.
pub proof fn lemma_writes_keep_well_formed(
    store: Map<u64, ForexPairView>,
    record: ForexPairView,
    id: u64,
)
    requires
        well_formed(store),
    ensures
        well_formed(created(store, record)),
        well_formed(updated(store, record)),
        well_formed(deleted(store, id)),
{
}

/// A listing of the store is the store taken as a set: it has no record
/// twice, as many records as the store, the identifiers of the store and no
/// others, and for each of them the record that the store holds.
pub proof fn lemma_listing_is_exact(records: Seq<ForexPairView>, store: Map<u64, ForexPairView>)
    requires
        enumerates(records, store),
    ensures
        records.no_duplicates(),
        records.len() == store.len(),
        records.to_set() == store.values(),
        records.map_values(|r: ForexPairView| r.id).to_set() == store.dom(),
        well_formed(store),
{
    let ids = records.map_values(|r: ForexPairView| r.id);
    assert forall|id: u64| ids.to_set().contains(id) <==> store.dom().contains(id) by {
        if store.dom().contains(id) {
            let i = choose|i: int| 0 <= i < records.len() && (#[trigger] records[i]).id == id;
            assert(ids[i] == id);
        }
    }
    assert(ids.to_set() =~= store.dom());
    assert forall|r: ForexPairView| records.to_set().contains(r) <==> store.values().contains(
        r,
    ) by {
        if records.contains(r) {
            let i = choose|i: int| 0 <= i < records.len() && records[i] == r;
            assert(store.contains_key(records[i].id) && store[records[i].id] == r);
        }
        if store.values().contains(r) {
            let id = choose|id: u64| store.contains_key(id) && store[id] == r;
            let i = choose|i: int| 0 <= i < records.len() && (#[trigger] records[i]).id == id;
            assert(records[i] == r);
        }
    }
    assert(records.to_set() =~= store.values());
    assert(ids.no_duplicates()) by {
        assert forall|i: int, j: int|
            0 <= i < ids.len() && 0 <= j < ids.len() && i != j implies ids[i] != ids[j] by {
            if i < j {
                assert(records[i].id != records[j].id);
            } else {
                assert(records[j].id != records[i].id);
            }
        }
    }
    ids.unique_seq_to_set();
    assert forall|id: u64| store.contains_key(id) implies (#[trigger] store[id]).id == id by {
        let i = choose|i: int| 0 <= i < records.len() && (#[trigger] records[i]).id == id;
        assert(store[records[i].id] == records[i]);
    }
}

/// In the store restored from `entries` there is a record for each key that
/// occurs, and it is the one of the last entry with that key.
pub proof fn lemma_restored_keeps_last_entries(entries: Seq<(u64, ForexPairView)>)
    ensures
        forall|key: u64|
            restored(entries).contains_key(key) <==> exists|i: int|
                0 <= i < entries.len() && (#[trigger] entries[i]).0 == key,
        forall|i: int|
            0 <= i < entries.len() && (forall|j: int|
                i < j < entries.len() ==> (#[trigger] entries[j]).0 != entries[i].0)
                ==> restored(entries)[(#[trigger] entries[i]).0] == entries[i].1,
        keys_match(entries) ==> well_formed(restored(entries)),
    decreases entries.len(),
{
    if entries.len() > 0 {
        let front = entries.drop_last();
        let last = entries.last();
        lemma_restored_keeps_last_entries(front);
        assert(restored(entries) == restored(front).insert(last.0, last.1));
        assert forall|key: u64|
            restored(entries).contains_key(key) <==> exists|i: int|
                0 <= i < entries.len() && (#[trigger] entries[i]).0 == key by {
            if restored(entries).contains_key(key) {
                if key == last.0 {
                    assert(entries[entries.len() - 1].0 == key);
                } else {
                    assert(restored(front).contains_key(key));
                    let i = choose|i: int| 0 <= i < front.len() && (#[trigger] front[i]).0 == key;
                    assert(entries[i].0 == key);
                }
            }
            if exists|i: int| 0 <= i < entries.len() && (#[trigger] entries[i]).0 == key {
                let i = choose|i: int| 0 <= i < entries.len() && (#[trigger] entries[i]).0 == key;
                if i < front.len() {
                    assert(front[i].0 == key);
                }
            }
        }
        assert forall|i: int|
            0 <= i < entries.len() && (forall|j: int|
                i < j < entries.len() ==> (#[trigger] entries[j]).0 != entries[i].0)
            implies restored(entries)[(#[trigger] entries[i]).0] == entries[i].1 by {
            if i < front.len() {
                assert(entries[entries.len() - 1].0 != entries[i].0);
                assert(front[i] == entries[i]);
                assert forall|j: int| i < j < front.len() implies (#[trigger] front[j]).0
                    != front[i].0 by {
                    assert(entries[j].0 != entries[i].0);
                }
            }
        }
        if keys_match(entries) {
            assert forall|i: int| 0 <= i < front.len() implies (#[trigger] front[i]).0
                == front[i].1.id by {
                assert(entries[i].0 == entries[i].1.id);
            }
            assert(entries[entries.len() - 1].0 == entries[entries.len() - 1].1.id);
        }
    }
}

/// Writing a store out and restoring it gives the same store: the store
/// restored from the entries that a store is written out as is that store,
/// and a service that starts from them starts with it.
pub proof fn lemma_snapshot_round_trip(
    entries: Seq<(u64, ForexPairView)>,
    store: Map<u64, ForexPairView>,
)
    requires
        writes_out(entries, store),
    ensures
        restored(entries) == store,
        initial_store(Some(entries)) == store,
{
    let records = records_of(entries);
    lemma_restored_keeps_last_entries(entries);
    assert forall|key: u64| restored(entries).contains_key(key) <==> store.contains_key(key) by {
        if restored(entries).contains_key(key) {
            let i = choose|i: int| 0 <= i < entries.len() && (#[trigger] entries[i]).0 == key;
            assert(records[i].id == key);
        }
        if store.contains_key(key) {
            let i = choose|i: int| 0 <= i < records.len() && (#[trigger] records[i]).id == key;
            assert(entries[i].0 == key);
        }
    }
    assert forall|key: u64| store.contains_key(key) implies restored(entries)[key]
        == store[key] by {
        let i = choose|i: int| 0 <= i < records.len() && (#[trigger] records[i]).id == key;
        assert forall|j: int| i < j < entries.len() implies (#[trigger] entries[j]).0
            != entries[i].0 by {
            assert(records[i].id != records[j].id);
            assert(entries[j].0 == records[j].id);
        }
        assert(entries[i].0 == key);
    }
    assert(restored(entries) =~= store);
}

/// After writes to pairwise different identifiers, each identifier that a
/// write was about reads as after that write alone, and every other
/// identifier reads as before.
pub proof fn lemma_each_write_shows(store: Map<u64, ForexPairView>, writes: Seq<Write>)
    requires
        distinct_targets(writes),
    ensures
        forall|i: int|
            0 <= i < writes.len() ==> read_response(
                applied_all(store, writes),
                (#[trigger] writes[i]).target(),
            ) == read_response(writes[i].applied(store), writes[i].target()),
        forall|id: u64|
            (forall|i: int| 0 <= i < writes.len() ==> (#[trigger] writes[i]).target() != id)
                ==> #[trigger] read_response(applied_all(store, writes), id) == read_response(
                store,
                id,
            ),
    decreases writes.len(),
{
    if writes.len() > 0 {
        let front = writes.drop_last();
        let last = writes.last();
        assert forall|i: int, j: int|
            #![trigger front[i], front[j]]
            0 <= i < j < front.len() implies front[i].target() != front[j].target() by {
            assert(writes[i].target() != writes[j].target());
        }
        lemma_each_write_shows(store, front);
        assert(applied_all(store, writes) == last.applied(applied_all(store, front)));
        assert forall|i: int| 0 <= i < writes.len() implies read_response(
            applied_all(store, writes),
            (#[trigger] writes[i]).target(),
        ) == read_response(writes[i].applied(store), writes[i].target()) by {
            if i < front.len() {
                assert(front[i] == writes[i]);
                assert(writes[i].target() != writes[writes.len() - 1].target());
            }
        }
        assert forall|id: u64|
            (forall|i: int|
                0 <= i < writes.len() ==> (#[trigger] writes[i]).target()
                    != id) implies #[trigger] read_response(applied_all(store, writes), id)
            == read_response(store, id) by {
            assert(writes[writes.len() - 1].target() != id);
            assert forall|i: int| 0 <= i < front.len() implies (#[trigger] front[i]).target()
                != id by {
                assert(writes[i].target() != id);
            }
            assert(read_response(applied_all(store, front), id) == read_response(store, id));
        }
    }
}

/// Writes to pairwise different identifiers give one store in whatever order
/// they are handled.
pub proof fn lemma_order_of_writes_is_immaterial(
    store: Map<u64, ForexPairView>,
    first: Seq<Write>,
    second: Seq<Write>,
)
    requires
        distinct_targets(first),
        distinct_targets(second),
        first.to_set() == second.to_set(),
    ensures
        applied_all(store, first) == applied_all(store, second),
{
    lemma_each_write_shows(store, first);
    lemma_each_write_shows(store, second);
    let one = applied_all(store, first);
    let other = applied_all(store, second);
    assert forall|id: u64| read_response(one, id) == read_response(other, id) by {
        if exists|i: int| 0 <= i < first.len() && (#[trigger] first[i]).target() == id {
            let i = choose|i: int| 0 <= i < first.len() && (#[trigger] first[i]).target() == id;
            assert(first.to_set().contains(first[i]));
            assert(second.contains(first[i]));
            let j = choose|j: int| 0 <= j < second.len() && second[j] == first[i];
            assert(second[j].target() == id);
        } else {
            assert forall|j: int| 0 <= j < second.len() implies (#[trigger] second[j]).target()
                != id by {
                assert(second.to_set().contains(second[j]));
                assert(first.contains(second[j]));
                let i = choose|i: int| 0 <= i < first.len() && first[i] == second[j];
                assert(first[i].target() != id);
            }
        }
    }
    assert forall|id: u64| #[trigger]
        one.dom().contains(id) == other.dom().contains(id) && (one.dom().contains(id) ==> one[id]
            == other[id]) by {
        assert(read_response(one, id) == read_response(other, id));
    }
    assert(one =~= other);
}

} // verus!
