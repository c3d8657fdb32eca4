//! The decisions of the five request handlers.
//!
//! A handler is given the store, which its caller holds exclusively for the
//! whole request, and what the request carried. A read answers at once. A
//! write changes the store and hands back a [`PendingWrite`], which holds the
//! whole store as it is to be written out. The caller writes it out, still
//! holding the store, and learns the answer from [`PendingWrite::complete`]
//! once it knows whether the write succeeded.

use crate::database::{enumerates, writes_out, Database};
use crate::record::{entries_ref_view, seq_view, ForexPair, ForexPairView};
use vstd::prelude::*;

verus! {

/// The status a request is answered with.
#[derive(Clone, Copy, Debug, PartialEq, Eq, Structural)]
pub enum Status {
    /// The request was carried out.
    Success,
    /// There is no record under the identifier that was asked for.
    NotFound,
    /// The store was changed but could not be written out.
    InternalServerError,
}

impl Status {
    /// The numeric status code.
    pub open spec fn spec_code(self) -> u16 {
        match self {
            Status::Success => 200,
            Status::NotFound => 404,
            Status::InternalServerError => 500,
        }
    }

    /// The numeric status code.
    #[verifier::when_used_as_spec(spec_code)]
    pub fn code(self) -> (code: u16)
        ensures
            code == self.spec_code(),
    {
        match self {
            Status::Success => 200,
            Status::NotFound => 404,
            Status::InternalServerError => 500,
        }
    }
}

/// What an answer carries: nothing, one record, or a list of records.
#[derive(Debug, PartialEq)]
pub enum Body<'a> {
    /// No body.
    Empty,
    /// The record that was asked for.
    Record(&'a ForexPair),
    /// All records of the store.
    Records(Vec<&'a ForexPair>),
}

/// The view of a [`Body`].
pub enum BodyView {
    Empty,
    Record(ForexPairView),
    Records(Seq<ForexPairView>),
}

impl<'a> View for Body<'a> {
    type V = BodyView;

    open spec fn view(&self) -> BodyView {
        match *self {
            Body::Empty => BodyView::Empty,
            Body::Record(record) => BodyView::Record(record@),
            Body::Records(records) => BodyView::Records(seq_view(records@)),
        }
    }
}

/// The answer to a request.
#[derive(Debug, PartialEq)]
pub struct Response<'a> {
    pub status: Status,
    pub body: Body<'a>,
}

/// The view of a [`Response`].
pub struct ResponseView {
    pub status: Status,
    pub body: BodyView,
}

impl<'a> View for Response<'a> {
    type V = ResponseView;

    open spec fn view(&self) -> ResponseView {
        ResponseView { status: self.status, body: self.body@ }
    }
}

/// The store after a create request for `record`.
pub open spec fn created(store: Map<u64, ForexPairView>, record: ForexPairView) -> Map<
    u64,
    ForexPairView,
> {
    store.insert(record.id, record)
}

/// The store after an update request for `record`: the same as after a create
/// request, whether or not the identifier was known.
pub open spec fn updated(store: Map<u64, ForexPairView>, record: ForexPairView) -> Map<
    u64,
    ForexPairView,
> {
    store.insert(record.id, record)
}

/// The store after a delete request for `id`.
pub open spec fn deleted(store: Map<u64, ForexPairView>, id: u64) -> Map<u64, ForexPairView> {
    store.remove(id)
}

/// A request that changes the store.
pub enum Write {
    /// File the record under its identifier.
    Create(ForexPairView),
    /// File the record under its identifier, known or not.
    Update(ForexPairView),
    /// Remove the record under the identifier, if there is one.
    Delete(u64),
}

impl Write {
    /// The identifier that the request is about.
    pub open spec fn target(self) -> u64 {
        match self {
            Write::Create(record) => record.id,
            Write::Update(record) => record.id,
            Write::Delete(id) => id,
        }
    }

    /// The store after the request.
    pub open spec fn applied(self, store: Map<u64, ForexPairView>) -> Map<u64, ForexPairView> {
        match self {
            Write::Create(record) => created(store, record),
            Write::Update(record) => updated(store, record),
            Write::Delete(id) => deleted(store, id),
        }
    }
}

/// The store after the requests `writes`, handled one after another.
pub open spec fn applied_all(store: Map<u64, ForexPairView>, writes: Seq<Write>) -> Map<
    u64,
    ForexPairView,
>
    decreases writes.len(),
{
    if writes.len() == 0 {
        store
    } else {
        writes.last().applied(applied_all(store, writes.drop_last()))
    }
}

/// No two of `writes` are about the same identifier.
pub open spec fn distinct_targets(writes: Seq<Write>) -> bool {
    forall|i: int, j: int|
        #![trigger writes[i], writes[j]]
        0 <= i < j < writes.len() ==> writes[i].target() != writes[j].target()
}

/// The answer to a request to read the record `id` from `store`.
pub open spec fn read_response(store: Map<u64, ForexPairView>, id: u64) -> ResponseView {
    if store.contains_key(id) {
        ResponseView { status: Status::Success, body: BodyView::Record(store[id]) }
    } else {
        ResponseView { status: Status::NotFound, body: BodyView::Empty }
    }
}

/// `response` answers a request to read all of `store`: it lists every record
/// once, in any order.
pub open spec fn answers_read_all(response: ResponseView, store: Map<u64, ForexPairView>) -> bool {
    &&& response.status == Status::Success
    &&& response.body matches BodyView::Records(records)
    &&& enumerates(records, store)
}

/// The answer to a write, given whether the store could be written out.
pub open spec fn write_response(written: bool) -> ResponseView {
    ResponseView {
        status: if written {
            Status::Success
        } else {
            Status::InternalServerError
        },
        body: BodyView::Empty,
    }
}

/// A change of the store that has not been written out yet, with what is to
/// be written: the whole store as it is after the change. Only the handlers
/// that change the store make one.
#[must_use]
#[derive(Debug)]
pub struct PendingWrite<'a> {
    entries: Vec<(u64, &'a ForexPair)>,
}

impl<'a> View for PendingWrite<'a> {
    type V = Seq<(u64, ForexPairView)>;

    /// The entries that are to be written.
    closed spec fn view(&self) -> Seq<(u64, ForexPairView)> {
        entries_ref_view(self.entries@)
    }
}

impl<'a> PendingWrite<'a> {
    /// The entries that are to be written.
    pub fn entries(&self) -> (entries: &Vec<(u64, &'a ForexPair)>)
        ensures
            entries_ref_view(entries@) == self@,
    {
        &self.entries
    }

    /// The answer to the request that changed the store. `written` says
    /// whether the entries were written out. A failed write is reported to
    /// the client; the change to the store stays.
    pub fn complete(self, written: bool) -> (response: Response<'static>)
        ensures
            response@ == write_response(written),
    {
        if written {
            Response { status: Status::Success, body: Body::Empty }
        } else {
            Response { status: Status::InternalServerError, body: Body::Empty }
        }
    }
}

/// Handles a create request: files `forex_pair` under its identifier,
/// replacing a record that was there.
pub fn create_forex_pair<'a>(db: &'a mut Database, forex_pair: ForexPair) -> (pending:
    PendingWrite<'a>)
    ensures
        final(db)@ == created(old(db)@, forex_pair@),
        writes_out(pending@, final(db)@),
{
    db.insert(forex_pair);
    let db: &'a Database = db;
    PendingWrite { entries: db.to_entries() }
}

/// Handles a request to read one record.
pub fn read_forex_pair<'a>(db: &'a Database, id: u64) -> (response: Response<'a>)
    ensures
        response@ == read_response(db@, id),
{
    match db.get(&id) {
        Some(forex_pair) => Response { status: Status::Success, body: Body::Record(forex_pair) },
        None => Response { status: Status::NotFound, body: Body::Empty },
    }
}

/// Handles a request to read all records.
pub fn read_all_forex_pairs<'a>(db: &'a Database) -> (response: Response<'a>)
    ensures
        answers_read_all(response@, db@),
{
    let forex_pairs = db.get_all();
    Response { status: Status::Success, body: Body::Records(forex_pairs) }
}

/// Handles an update request: files `forex_pair` under its identifier, whether
/// or not the identifier was known.
pub fn update_forex_pair<'a>(db: &'a mut Database, forex_pair: ForexPair) -> (pending:
    PendingWrite<'a>)
    ensures
        final(db)@ == updated(old(db)@, forex_pair@),
        writes_out(pending@, final(db)@),
{
    db.update(forex_pair);
    let db: &'a Database = db;
    PendingWrite { entries: db.to_entries() }
}

/// Handles a delete request: removes the record `id` if there is one.
pub fn delete_forex_pair<'a>(db: &'a mut Database, id: u64) -> (pending: PendingWrite<'a>)
    ensures
        final(db)@ == deleted(old(db)@, id),
        writes_out(pending@, final(db)@),
{
    db.delete(&id);
    let db: &'a Database = db;
    PendingWrite { entries: db.to_entries() }
}

} // verus!
