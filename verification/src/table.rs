//! The response table of one trial: for each network-transaction id, the most
//! recent response that was observed for it.
//!
//! One table belongs to one trial runner. The recorder writes into it while the
//! page loads; the enrichment phase reads from it afterwards. Nothing is ever
//! evicted: the table is dropped with its runner.

use vstd::prelude::*;

verus! {

/// What a response carries that a resource record keeps.
#[derive(Clone, Copy, Debug, PartialEq, Eq)]
pub struct ResponseMeta {
    /// HTTP status code.
    pub status: i64,
    /// Encoded payload size in bytes.
    pub size: u64,
}

/// A `hashbrown::HashMap` from transaction ids to response metadata.
///
/// Verus cannot look inside the map; what it holds is named by [`entries`].
#[verifier::external_body]
pub struct IdMap {
    inner: hashbrown::HashMap<String, ResponseMeta>,
}

/// The entries of an [`IdMap`], each key taken by its characters.
pub uninterp spec fn entries(m: IdMap) -> Map<Seq<char>, ResponseMeta>;

/// `hashbrown::HashMap::new`: the map it returns holds no entry.
#[verifier::external_body]
fn idmap_new() -> (fresh: IdMap)
    ensures
        entries(fresh) =~= Map::empty(),
{
    IdMap { inner: hashbrown::HashMap::new() }
}

/// `hashbrown::HashMap::insert`: afterwards the key maps to the new value and
/// every other entry is as before; the value that the key had before, if it
/// had one, is handed back.
#[verifier::external_body]
fn idmap_insert(m: &mut IdMap, key: String, value: ResponseMeta) -> (prior: Option<ResponseMeta>)
    ensures
        entries(*final(m)) == entries(*old(m)).insert(key@, value),
        prior == (if entries(*old(m)).dom().contains(key@) {
            Some(entries(*old(m))[key@])
        } else {
            None
        }),
{
    m.inner.insert(key, value)
}

/// `hashbrown::HashMap::get`: the value stored under the key, if there is one.
#[verifier::external_body]
fn idmap_get(m: &IdMap, key: &String) -> (found: Option<ResponseMeta>)
    ensures
        found == (if entries(*m).dom().contains(key@) {
            Some(entries(*m)[key@])
        } else {
            None
        }),
{
    m.inner.get(key).copied()
}

/// The table after a response has been recorded under `id`: the id maps to the
/// new response, whatever it mapped to before.
pub open spec fn after_record(
    table: Map<Seq<char>, ResponseMeta>,
    id: Seq<char>,
    response: ResponseMeta,
) -> Map<Seq<char>, ResponseMeta> {
    table.insert(id, response)
}

/// Whether recording under `id` overwrites an earlier response.
pub open spec fn collides(table: Map<Seq<char>, ResponseMeta>, id: Seq<char>) -> bool {
    table.dom().contains(id)
}

/// What a lookup of `id` finds.
pub open spec fn found_in(table: Map<Seq<char>, ResponseMeta>, id: Seq<char>) -> Option<
    ResponseMeta,
> {
    if table.dom().contains(id) {
        Some(table[id])
    } else {
        None
    }
}

/// Map from network-transaction id to the latest response seen for it.
pub struct ResponseTable {
    map: IdMap,
}

impl View for ResponseTable {
    type V = Map<Seq<char>, ResponseMeta>;

    closed spec fn view(&self) -> Map<Seq<char>, ResponseMeta> {
        entries(self.map)
    }
}

impl ResponseTable {
    /// An empty table.
    pub fn new() -> (table: ResponseTable)
        ensures
            table@ =~= Map::empty(),
    {
        ResponseTable { map: idmap_new() }
    }

    /// Records `response` under `id`. The newest response wins: an earlier one
    /// under the same id is overwritten, and the result says that this
    /// happened, so that the caller can warn once for each collision.
    pub fn record(&mut self, id: String, response: ResponseMeta) -> (collided: bool)
        ensures
            final(self)@ == after_record(old(self)@, id@, response),
            collided == collides(old(self)@, id@),
    {
        let prior = idmap_insert(&mut self.map, id, response);
        prior.is_some()
    }

    /// The response recorded under `id`, if there is one.
    pub fn lookup(&self, id: &String) -> (found: Option<ResponseMeta>)
        ensures
            found == found_in(self@, id@),
    {
        idmap_get(&self.map, id)
    }
}

/// The table that a sequence of recordings leaves behind, starting from an
/// empty table. Each element is an id and the response recorded under it.
pub open spec fn replayed(log: Seq<(Seq<char>, ResponseMeta)>) -> Map<Seq<char>, ResponseMeta>
    decreases log.len(),
{
    if log.len() == 0 {
        Map::empty()
    } else {
        after_record(replayed(log.drop_last()), log.last().0, log.last().1)
    }
}

/// How many recordings of a sequence overwrite an earlier one, which is how
/// many warnings the sequence is worth.
pub open spec fn collisions(log: Seq<(Seq<char>, ResponseMeta)>) -> nat
    decreases log.len(),
{
    if log.len() == 0 {
        0
    } else {
        let earlier = collisions(log.drop_last());
        if collides(replayed(log.drop_last()), log.last().0) {
            earlier + 1
        } else {
            earlier
        }
    }
}

/// Last write wins: of two recordings under one id, the table keeps the
/// second, and is the same as if the first had never been made.
pub proof fn lemma_last_write_wins(
    table: Map<Seq<char>, ResponseMeta>,
    id: Seq<char>,
    first: ResponseMeta,
    second: ResponseMeta,
)
    ensures
        found_in(after_record(after_record(table, id, first), id, second), id) == Some(second),
        after_record(after_record(table, id, first), id, second) == after_record(table, id, second),
        collides(after_record(table, id, first), id),
{
    assert(after_record(after_record(table, id, first), id, second) =~= after_record(
        table,
        id,
        second,
    ));
}

/// A recording touches its own id only: every other id is found as before.
pub proof fn lemma_record_leaves_other_ids(
    table: Map<Seq<char>, ResponseMeta>,
    id: Seq<char>,
    response: ResponseMeta,
    other: Seq<char>,
)
    requires
        other != id,
    ensures
        found_in(after_record(table, id, response), other) == found_in(table, other),
{
}

/// After any sequence of recordings the table holds, for each id, the
/// response that was recorded under it most recently.
pub proof fn lemma_table_holds_most_recent(log: Seq<(Seq<char>, ResponseMeta)>, i: int)
    requires
        0 <= i < log.len(),
        forall|j: int| i < j < log.len() ==> log[j].0 != log[i].0,
    ensures
        found_in(replayed(log), log[i].0) == Some(log[i].1),
    decreases log.len(),
{
    if i < log.len() - 1 {
        let earlier = log.drop_last();
        assert(forall|j: int| i < j < earlier.len() ==> earlier[j] == log[j]);
        lemma_table_holds_most_recent(earlier, i);
        assert(log.last().0 != log[i].0);
    }
}

/// No entry is lost: the ids of the table are exactly the ids that were
/// recorded.
pub proof fn lemma_table_holds_every_recorded_id(
    log: Seq<(Seq<char>, ResponseMeta)>,
    id: Seq<char>,
)
    ensures
        replayed(log).dom().contains(id) <==> exists|i: int| 0 <= i < log.len() && log[i].0 == id,
    decreases log.len(),
{
    if log.len() > 0 {
        let earlier = log.drop_last();
        lemma_table_holds_every_recorded_id(earlier, id);
        if replayed(log).dom().contains(id) {
            if id == log.last().0 {
                assert(log[log.len() - 1].0 == id);
            } else {
                let i = choose|i: int| 0 <= i < earlier.len() && earlier[i].0 == id;
                assert(log[i].0 == id);
            }
        }
        if exists|i: int| 0 <= i < log.len() && log[i].0 == id {
            let i = choose|i: int| 0 <= i < log.len() && log[i].0 == id;
            if i < log.len() - 1 {
                assert(earlier[i].0 == id);
            }
        }
    }
}

/// One warning for each duplicate, and none besides: the recordings that
/// collided and the ids that the table holds add up to the recordings made.
pub proof fn lemma_one_warning_per_duplicate(log: Seq<(Seq<char>, ResponseMeta)>)
    ensures
        replayed(log).dom().finite(),
        collisions(log) + replayed(log).dom().len() == log.len(),
    decreases log.len(),
{
    if log.len() > 0 {
        lemma_one_warning_per_duplicate(log.drop_last());
    }
}

} // verus!
