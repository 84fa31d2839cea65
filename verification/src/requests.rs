//! The Issuer Service's table of credential requests.

use vstd::prelude::*;

use crate::bounded::{law_any_number_of_items, lemma_made_room_then_pushed, made_room, newest};

verus! {

/// How many credential requests are tracked at most.
pub const MAX_TRACKED_REQUESTS: usize = 2048;

/// One accepted `CredentialRequestMessage`.
#[derive(Debug)]
pub struct RequestRecord {
    pub issuer_pid: String,
    pub holder_pid: String,
    pub status: String,
}

/// What a [`RequestRecord`] holds.
pub struct RecordView {
    pub issuer_pid: Seq<char>,
    pub holder_pid: Seq<char>,
    pub status: Seq<char>,
}

impl View for RequestRecord {
    type V = RecordView;

    open spec fn view(&self) -> RecordView {
        RecordView {
            issuer_pid: self.issuer_pid@,
            holder_pid: self.holder_pid@,
            status: self.status@,
        }
    }
}

/// The tracked requests by id, oldest first. Past its capacity the oldest is
/// dropped.
#[derive(Debug)]
pub struct RequestTable {
    ids: Vec<String>,
    records: Vec<RequestRecord>,
}

impl View for RequestTable {
    type V = Seq<(Seq<char>, RecordView)>;

    closed spec fn view(&self) -> Seq<(Seq<char>, RecordView)> {
        Seq::new(self.ids@.len(), |i: int| (self.ids@[i]@, self.records@[i]@))
    }
}

/// Whether a table tracks an id at position `i`.
pub open spec fn tracks_at(table: Seq<(Seq<char>, RecordView)>, id: Seq<char>, i: int) -> bool {
    0 <= i < table.len() && table[i].0 == id
}

/// Whether a table tracks an id.
pub open spec fn tracks(table: Seq<(Seq<char>, RecordView)>, id: Seq<char>) -> bool {
    exists|i: int| tracks_at(table, id, i)
}

/// Whether no id stands twice in a table.
pub open spec fn ids_unique(table: Seq<(Seq<char>, RecordView)>) -> bool {
    forall|i: int, j: int|
        0 <= i < j < table.len() ==> (#[trigger] table[i]).0 != (#[trigger] table[j]).0
}

/// The record of an id.
pub open spec fn record_of(table: Seq<(Seq<char>, RecordView)>, id: Seq<char>) -> Option<
    RecordView,
> {
    if tracks(table, id) {
        Some(table[choose|i: int| tracks_at(table, id, i)].1)
    } else {
        None
    }
}

/// A table with a record entered under an id: in place of the one that is there,
/// or as the newest.
pub open spec fn entered(
    table: Seq<(Seq<char>, RecordView)>,
    id: Seq<char>,
    record: RecordView,
) -> Seq<(Seq<char>, RecordView)> {
    if tracks(table, id) {
        table.map_values(
            |e: (Seq<char>, RecordView)|
                if e.0 == id {
                    (id, record)
                } else {
                    e
                },
        )
    } else {
        newest(table.push((id, record)), MAX_TRACKED_REQUESTS as nat)
    }
}

/// A table with the status of an id changed, where it tracks it.
pub open spec fn with_status(
    table: Seq<(Seq<char>, RecordView)>,
    id: Seq<char>,
    status: Seq<char>,
) -> Seq<(Seq<char>, RecordView)> {
    table.map_values(
        |e: (Seq<char>, RecordView)|
            if e.0 == id {
                (e.0, RecordView { status, ..e.1 })
            } else {
                e
            },
    )
}

impl RequestTable {
    /// The table's invariant.
    pub closed spec fn wf(&self) -> bool {
        &&& self.ids@.len() == self.records@.len()
        &&& self.ids@.len() <= MAX_TRACKED_REQUESTS
        &&& ids_unique(self@)
    }

    /// No id stands in a table twice, and a table never exceeds its capacity.
    pub proof fn law_ids_are_unique_and_bounded(&self)
        requires
            self.wf(),
        ensures
            ids_unique(self@),
            self@.len() <= MAX_TRACKED_REQUESTS,
    {
    }

    pub fn new() -> (res: Self)
        ensures
            res.wf(),
            res@.len() == 0,
            ids_unique(res@),
    {
        RequestTable { ids: Vec::new(), records: Vec::new() }
    }

    /// How many requests are tracked.
    pub fn len(&self) -> (res: usize)
        requires
            self.wf(),
        ensures
            res == self@.len(),
            res <= MAX_TRACKED_REQUESTS,
    {
        self.ids.len()
    }

    /// Where an id stands.
    fn position(&self, id: &str) -> (res: Option<usize>)
        requires
            self.wf(),
        ensures
            res is Some == tracks(self@, id@),
            res matches Some(i) ==> i < self.ids@.len() && self.ids@[i as int]@ == id@,
    {
        let owned = String::from_str(id);
        let mut i: usize = 0;
        while i < self.ids.len()
            invariant
                i <= self.ids.len(),
                owned@ == id@,
                forall|k: int| 0 <= k < i ==> self.ids@[k]@ != id@,
            decreases self.ids.len() - i,
        {
            if self.ids[i] == owned {
                proof {
                    assert(tracks_at(self@, id@, i as int));
                }
                return Some(i);
            }
            i = i + 1;
        }
        proof {
            assert forall|k: int| !tracks_at(self@, id@, k) by {
                if tracks_at(self@, id@, k) {
                    assert(self.ids@[k]@ == id@);
                }
            }
        }
        None
    }

    /// The record of an id.
    pub fn get(&self, id: &str) -> (res: Option<&RequestRecord>)
        requires
            self.wf(),
        ensures
            res is Some == tracks(self@, id@),
            res matches Some(record) ==> record_of(self@, id@) == Some(record@),
    {
        match self.position(id) {
            Some(i) => {
                proof {
                    let at = choose|k: int| tracks_at(self@, id@, k);
                    assert(tracks_at(self@, id@, i as int));
                    assert(self@[at].0 == self@[i as int].0);
                }
                Some(&self.records[i])
            },
            None => None,
        }
    }

    /// Enters a record under an id.
    pub fn insert(&mut self, id: String, record: RequestRecord)
        requires
            old(self).wf(),
        ensures
            final(self).wf(),
            final(self)@ == entered(old(self)@, id@, record@),
            ids_unique(final(self)@),
    {
        let ghost was = self@;
        match self.position(id.as_str()) {
            Some(i) => {
                proof {
                    assert(tracks_at(was, id@, i as int));
                }
                self.records.set(i, record);
                proof {
                    assert forall|k: int| 0 <= k < was.len() implies self@[k] == entered(
                        was,
                        id@,
                        record@,
                    )[k] by {
                        if k != i && was[k].0 == id@ {
                            assert(was[k].0 == was[i as int].0);
                        }
                    }
                    assert(self@ =~= entered(was, id@, record@));
                    assert(ids_unique(self@)) by {
                        assert forall|a: int, b: int| 0 <= a < b < self@.len() implies (
                        #[trigger] self@[a]).0 != (#[trigger] self@[b]).0 by {
                            assert(was[a].0 != was[b].0);
                        }
                    }
                }
            },
            None => {
                if self.ids.len() >= MAX_TRACKED_REQUESTS {
                    let _ = self.ids.remove(0);
                    let _ = self.records.remove(0);
                }
                let ghost kept = self@;
                proof {
                    assert(kept =~= made_room(was, MAX_TRACKED_REQUESTS as nat));
                    lemma_made_room_then_pushed(was, (id@, record@), MAX_TRACKED_REQUESTS as nat);
                }
                let ghost name = id@;
                let ghost view = record@;
                self.ids.push(id);
                self.records.push(record);
                proof {
                    assert(self@ =~= kept.push((name, view)));
                    assert(ids_unique(self@)) by {
                        assert forall|a: int, b: int| 0 <= a < b < self@.len() implies (
                        #[trigger] self@[a]).0 != (#[trigger] self@[b]).0 by {
                            let shift = was.len() - kept.len();
                            assert(kept[a] == was[a + shift]);
                            if b < kept.len() {
                                assert(kept[b] == was[b + shift]);
                            } else {
                                assert(!tracks_at(was, name, a + shift));
                            }
                        }
                    }
                }
            },
        }
    }

    /// Changes the status of an id, where the table still tracks it.
    pub fn set_status(&mut self, id: &str, status: &str)
        requires
            old(self).wf(),
        ensures
            final(self).wf(),
            final(self)@ == with_status(old(self)@, id@, status@),
            ids_unique(final(self)@),
    {
        let ghost was = self@;
        match self.position(id) {
            Some(i) => {
                let text = String::from_str(status);
                self.records[i].status = text;
                proof {
                    assert forall|k: int| 0 <= k < was.len() implies self@[k] == with_status(
                        was,
                        id@,
                        status@,
                    )[k] by {
                        if k != i && was[k].0 == id@ {
                            assert(was[k].0 == was[i as int].0);
                        }
                    }
                    assert(self@ =~= with_status(was, id@, status@));
                    assert(ids_unique(self@)) by {
                        assert forall|a: int, b: int| 0 <= a < b < self@.len() implies (
                        #[trigger] self@[a]).0 != (#[trigger] self@[b]).0 by {
                            assert(was[a].0 != was[b].0);
                        }
                    }
                }
            },
            None => {
                proof {
                    assert forall|k: int| 0 <= k < was.len() implies was[k].0 != id@ by {
                        assert(!tracks_at(was, id@, k));
                    }
                    assert(was =~= with_status(was, id@, status@));
                }
            },
        }
    }
}

/// Entering a record keeps the ids unique.
pub proof fn lemma_entered_unique(
    table: Seq<(Seq<char>, RecordView)>,
    id: Seq<char>,
    record: RecordView,
)
    requires
        ids_unique(table),
    ensures
        ids_unique(entered(table, id, record)),
{
    let after = entered(table, id, record);
    assert forall|a: int, b: int| 0 <= a < b < after.len() implies (#[trigger] after[a]).0 != (
    #[trigger] after[b]).0 by {
        if tracks(table, id) {
            assert(table[a].0 != table[b].0);
        } else {
            let shift = table.len() + 1 - after.len();
            assert(after[a] == table[a + shift]);
            if b < after.len() - 1 {
                assert(after[b] == table[b + shift]);
            } else {
                assert(!tracks_at(table, id, a + shift));
            }
        }
    }
}

/// A request that was just entered is tracked, with the record it was entered
/// with.
pub proof fn law_entered_request_is_tracked(
    table: Seq<(Seq<char>, RecordView)>,
    id: Seq<char>,
    record: RecordView,
)
    requires
        ids_unique(table),
    ensures
        record_of(entered(table, id, record), id) == Some(record),
{
    let after = entered(table, id, record);
    if tracks(table, id) {
        let i = choose|i: int| tracks_at(table, id, i);
        assert(tracks_at(after, id, i));
        let at = choose|k: int| tracks_at(after, id, k);
        assert(tracks_at(after, id, at));
        assert(table[at].0 == id || after[at] == table[at]);
    } else {
        let last = after.len() - 1;
        assert(after[last] == (id, record));
        assert(tracks_at(after, id, last));
        let at = choose|k: int| tracks_at(after, id, k);
        assert(tracks_at(after, id, at));
        if at != last {
            let shift = table.len() + 1 - after.len();
            assert(after[at] == table[at + shift]);
            assert(tracks_at(table, id, at + shift));
        }
    }
}

/// However many requests are entered under ids that are not tracked, one after the
/// other, the table tracks the newest of them and never more than its capacity;
/// and the one entered last is tracked with its record. `tables` are the table
/// before the first request and after each.
pub proof fn law_any_number_of_requests(
    tables: Seq<Seq<(Seq<char>, RecordView)>>,
    given: Seq<(Seq<char>, RecordView)>,
)
    requires
        given.len() > 0,
        tables.len() == given.len() + 1,
        tables[0].len() <= MAX_TRACKED_REQUESTS,
        forall|k: int| 0 <= k < tables.len() ==> ids_unique(#[trigger] tables[k]),
        forall|k: int|
            0 <= k < given.len() ==> !tracks(tables[k], (#[trigger] given[k]).0) && tables[k + 1]
                == entered(tables[k], given[k].0, given[k].1),
    ensures
        tables.last() == newest(tables[0] + given, MAX_TRACKED_REQUESTS as nat),
        tables.last().len() <= MAX_TRACKED_REQUESTS,
        record_of(tables.last(), given.last().0) == Some(given.last().1),
{
    assert forall|k: int| 0 <= k < given.len() implies tables[k + 1] == newest(
        tables[k].push(#[trigger] given[k]),
        MAX_TRACKED_REQUESTS as nat,
    ) by {
        assert(given[k] == (given[k].0, given[k].1));
    }
    law_any_number_of_items(tables, given, MAX_TRACKED_REQUESTS as nat);
    let n = given.len() - 1;
    assert(given[n] == given.last());
    law_entered_request_is_tracked(tables[n], given[n].0, given[n].1);
}

/// Changing the status of one request changes nothing else: neither another
/// request, nor what is tracked.
pub proof fn law_status_change_touches_one_request(
    table: Seq<(Seq<char>, RecordView)>,
    id: Seq<char>,
    status: Seq<char>,
    i: int,
)
    requires
        0 <= i < table.len(),
    ensures
        with_status(table, id, status).len() == table.len(),
        with_status(table, id, status)[i].0 == table[i].0,
        with_status(table, id, status)[i].1.issuer_pid == table[i].1.issuer_pid,
        with_status(table, id, status)[i].1.holder_pid == table[i].1.holder_pid,
        table[i].0 == id ==> with_status(table, id, status)[i].1.status == status,
        table[i].0 != id ==> with_status(table, id, status)[i] == table[i],
{
}

/// Entering a request: one under an id that the table does not hold joins its end,
/// and where the table holds 2048, the oldest goes; one under an id that it holds
/// takes that one's place. No other request changes.
pub proof fn law_one_request_joins(
    table: Seq<(Seq<char>, RecordView)>,
    id: Seq<char>,
    record: RecordView,
    i: int,
)
    requires
        table.len() <= 2048,
    ensures
        ({
            let after = entered(table, id, record);
            let stands = exists|k: int| 0 <= k < table.len() && (#[trigger] table[k]).0 == id;
            &&& !stands && table.len() < 2048 ==> after == table.push((id, record))
            &&& !stands && table.len() == 2048 ==> after == table.drop_first().push((id, record))
            &&& stands ==> after.len() == table.len()
            &&& stands && 0 <= i < table.len() ==> after[i] == if table[i].0 == id {
                (id, record)
            } else {
                table[i]
            }
        }),
{
    let stands = exists|k: int| 0 <= k < table.len() && (#[trigger] table[k]).0 == id;
    if stands {
        let k = choose|k: int| 0 <= k < table.len() && (#[trigger] table[k]).0 == id;
        assert(tracks_at(table, id, k));
    } else {
        assert(!tracks(table, id)) by {
            if tracks(table, id) {
                let k = choose|k: int| tracks_at(table, id, k);
                assert(table[k].0 == id);
            }
        }
        if table.len() == 2048 {
            assert(entered(table, id, record) =~= table.drop_first().push((id, record)));
        }
    }
}

/// The record of an id is the one that stands beside it in the table; an id that
/// does not stand there has none.
pub proof fn law_records_stand_beside_their_ids(
    table: Seq<(Seq<char>, RecordView)>,
    id: Seq<char>,
    i: int,
)
    requires
        ids_unique(table),
    ensures
        record_of(table, id) is Some <==> exists|k: int|
            0 <= k < table.len() && (#[trigger] table[k]).0 == id,
        0 <= i < table.len() && table[i].0 == id ==> record_of(table, id) == Some(table[i].1),
        tracks(table, id) <==> record_of(table, id) is Some,
{
    if exists|k: int| 0 <= k < table.len() && (#[trigger] table[k]).0 == id {
        let k = choose|k: int| 0 <= k < table.len() && (#[trigger] table[k]).0 == id;
        assert(tracks_at(table, id, k));
    }
    if tracks(table, id) {
        let at = choose|k: int| tracks_at(table, id, k);
        assert(table[at].0 == id);
        if 0 <= i < table.len() && table[i].0 == id && at != i {
            assert(table[at].0 == table[i].0);
        }
    }
}

/// No id stands twice where any two places hold different ones.
pub proof fn law_unique_ids_differ(table: Seq<(Seq<char>, RecordView)>, i: int, j: int)
    requires
        ids_unique(table),
        0 <= i < table.len(),
        0 <= j < table.len(),
        i != j,
    ensures
        table[i].0 != table[j].0,
{
    if i < j {
        assert(table[i].0 != table[j].0);
    } else {
        assert(table[j].0 != table[i].0);
    }
}

/// A record reads as it stands.
pub proof fn law_records_read_as_they_stand(record: RequestRecord)
    ensures
        record@.issuer_pid == record.issuer_pid@,
        record@.holder_pid == record.holder_pid@,
        record@.status == record.status@,
{
}

} // verus!
