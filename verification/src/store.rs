//! The store of accepted credentials: the Storage API writes to it, the
//! Presentation API reads from it. The credential graph holds what it stores.

use vstd::prelude::*;

use crate::bounded::newest;
use crate::graph::{accepted_batch, accepted_entry, CredentialGraph, MAX_CREDENTIAL_BATCHES};
use crate::ids::is_uuid;
use crate::issued::issued_of_types;
use crate::json::canonical;
use crate::layout::MAX_ORDER;
use crate::messages::CredentialContainer;
use crate::model::{
    batches_view, entries_view, BatchView, CredentialEntry, EntryView, NewCredentialBatch,
};
use crate::rdf::CredentialGraphError;
use crate::text::{copy_optional, optional_text, texts};

verus! {

/// One accepted `CredentialMessage`, kept in full.
#[derive(Debug)]
pub struct StoredCredentialBatch {
    pub issuer_pid: String,
    pub holder_pid: Option<String>,
    pub status: String,
    pub rejection_reason: Option<String>,
    pub credentials: Vec<CredentialContainer>,
}

/// What a [`StoredCredentialBatch`] holds.
pub struct StoredView {
    pub issuer_pid: Seq<char>,
    pub holder_pid: Option<Seq<char>>,
    pub status: Seq<char>,
    pub rejection_reason: Option<Seq<char>>,
    pub credentials: Seq<EntryView>,
}

impl View for StoredCredentialBatch {
    type V = StoredView;

    open spec fn view(&self) -> StoredView {
        StoredView {
            issuer_pid: self.issuer_pid@,
            holder_pid: optional_text(self.holder_pid),
            status: self.status@,
            rejection_reason: optional_text(self.rejection_reason),
            credentials: containers_view(self.credentials@),
        }
    }
}

/// What a credential container holds.
pub open spec fn container_view(c: CredentialContainer) -> EntryView {
    EntryView { credential_type: c.credential_type@, payload: c.payload@, format: c.format@ }
}

/// What a list of credential containers holds.
pub open spec fn containers_view(list: Seq<CredentialContainer>) -> Seq<EntryView> {
    list.map_values(|c: CredentialContainer| container_view(c))
}

/// A batch of the graph without its id.
pub open spec fn without_id(b: BatchView) -> StoredView {
    StoredView {
        issuer_pid: b.issuer_pid,
        holder_pid: b.holder_pid,
        status: b.status,
        rejection_reason: b.rejection_reason,
        credentials: b.credentials,
    }
}

/// The batches of the graph without their ids.
pub open spec fn stored_batches(batches: Seq<BatchView>) -> Seq<StoredView> {
    batches.map_values(|b: BatchView| without_id(b))
}

/// A stored batch as it is read back.
pub open spec fn accepted(b: StoredView) -> StoredView {
    StoredView { credentials: b.credentials.map_values(|c: EntryView| accepted_entry(c)), ..b }
}

fn to_graph_entry(container: &CredentialContainer) -> (res: CredentialEntry)
    ensures
        res@ == container_view(*container),
        res.payload is Text == container.payload is Text,
{
    let payload = container.payload.clone();
    CredentialEntry {
        credential_type: container.credential_type.clone(),
        payload,
        format: container.format.clone(),
    }
}

fn from_graph_entry(entry: CredentialEntry) -> (res: CredentialContainer)
    ensures
        container_view(res) == entry@,
{
    CredentialContainer {
        credential_type: entry.credential_type,
        payload: entry.payload,
        format: entry.format,
    }
}

fn from_graph_entries(entries: &Vec<CredentialEntry>) -> (res: Vec<CredentialContainer>)
    ensures
        containers_view(res@) == entries_view(entries@),
{
    let mut out: Vec<CredentialContainer> = Vec::new();
    let mut i: usize = 0;
    while i < entries.len()
        invariant
            i <= entries@.len(),
            out@.len() == i,
            forall|k: int| 0 <= k < i ==> container_view(#[trigger] out@[k]) == entries@[k]@,
        decreases entries.len() - i,
    {
        out.push(from_graph_entry(entries[i].clone()));
        i = i + 1;
    }
    proof {
        assert(containers_view(out@) =~= entries_view(entries@));
    }
    out
}

/// The store of accepted credentials.
pub struct InMemoryCredentialStore {
    /// The graph that holds what is stored.
    pub graph: CredentialGraph,
}

impl InMemoryCredentialStore {
    /// The store's invariant.
    pub open spec fn wf(&self) -> bool {
        self.graph.wf()
    }

    pub fn new() -> (res: Result<Self, CredentialGraphError>)
        ensures
            res is Ok,
            res matches Ok(store) ==> {
                &&& store.wf()
                &&& store.graph.room() == MAX_ORDER
                &&& store.graph@.batches.len() == 0
                &&& store.graph@.offers.len() == 0
            },
    {
        match CredentialGraph::open_in_memory() {
            Ok(graph) => Ok(InMemoryCredentialStore { graph }),
            Err(error) => Err(error),
        }
    }

    /// Stores an accepted batch. Past the graph's capacity the oldest makes
    /// room.
    pub fn store(&mut self, batch: &StoredCredentialBatch) -> (res: Result<
        (),
        CredentialGraphError,
    >)
        requires
            old(self).wf(),
            old(self).graph.room() > 0,
            batch.credentials@.len() <= MAX_ORDER,
        ensures
            final(self).wf(),
            final(self).graph.room() + 1 == old(self).graph.room(),
            final(self).graph@.offers == old(self).graph@.offers,
            res is Ok,
            stored_batches(final(self).graph@.batches) == newest(
                stored_batches(old(self).graph@.batches).push(accepted(batch@)),
                MAX_CREDENTIAL_BATCHES as nat,
            ),
            is_uuid(final(self).graph@.batches.last().id),
            final(self).graph@.batches == newest(
                old(self).graph@.batches.push(final(self).graph@.batches.last()),
                MAX_CREDENTIAL_BATCHES as nat,
            ),
            forall|i: int|
                0 <= i < batch.credentials@.len() && (#[trigger] batch.credentials@[i]).payload is Text
                    ==> accepted_entry(container_view(batch.credentials@[i])) == container_view(
                    batch.credentials@[i],
                ),
    {
        let mut credentials: Vec<CredentialEntry> = Vec::new();
        let mut i: usize = 0;
        while i < batch.credentials.len()
            invariant
                i <= batch.credentials@.len(),
                credentials@.len() == i,
                forall|k: int|
                    0 <= k < i ==> (#[trigger] credentials@[k])@ == container_view(
                        batch.credentials@[k],
                    ) && credentials@[k].payload is Text == batch.credentials@[k].payload is Text,
            decreases batch.credentials.len() - i,
        {
            credentials.push(to_graph_entry(&batch.credentials[i]));
            i = i + 1;
        }
        let ghost list = credentials@;
        let new = NewCredentialBatch {
            issuer_pid: batch.issuer_pid.clone(),
            holder_pid: copy_optional(&batch.holder_pid),
            status: batch.status.clone(),
            rejection_reason: copy_optional(&batch.rejection_reason),
            credentials,
        };
        match self.graph.add_batch(new) {
            Ok(id) => {
                proof {
                    let entry = accepted_batch(id@, new);
                    assert(entries_view(list) =~= containers_view(batch.credentials@));
                    assert(without_id(entry) == accepted(batch@));
                    assert(stored_batches(self.graph@.batches) =~= newest(
                        stored_batches(old(self).graph@.batches).push(accepted(batch@)),
                        MAX_CREDENTIAL_BATCHES as nat,
                    ));
                    assert forall|k: int|
                        0 <= k < batch.credentials@.len() && (
                        #[trigger] batch.credentials@[k]).payload is Text implies accepted_entry(
                        container_view(batch.credentials@[k]),
                    ) == container_view(batch.credentials@[k]) by {
                        assert(list[k].payload is Text);
                        assert(new.credentials@[k] == list[k]);
                    }
                }
                Ok(())
            },
            Err(error) => Err(error),
        }
    }

    /// All stored batches, in insertion order.
    pub fn all(&self) -> (res: Result<Vec<StoredCredentialBatch>, CredentialGraphError>)
        requires
            self.wf(),
        ensures
            res is Ok,
            res matches Ok(list) ==> list@.map_values(|b: StoredCredentialBatch| b@)
                == stored_batches(self.graph@.batches),
    {
        let batches = match self.graph.batches() {
            Ok(batches) => batches,
            Err(error) => {
                return Err(error);
            },
        };
        let mut out: Vec<StoredCredentialBatch> = Vec::new();
        let mut i: usize = 0;
        while i < batches.len()
            invariant
                i <= batches@.len(),
                out@.len() == i,
                forall|k: int| 0 <= k < i ==> (#[trigger] out@[k])@ == without_id(batches@[k]@),
            decreases batches.len() - i,
        {
            let batch = &batches[i];
            out.push(
                StoredCredentialBatch {
                    issuer_pid: batch.issuer_pid.clone(),
                    holder_pid: copy_optional(&batch.holder_pid),
                    status: batch.status.clone(),
                    rejection_reason: copy_optional(&batch.rejection_reason),
                    credentials: from_graph_entries(&batch.credentials),
                },
            );
            i = i + 1;
        }
        proof {
            let views = batches_view(batches@);
            assert(out@.map_values(|b: StoredCredentialBatch| b@) =~= stored_batches(views));
        }
        Ok(out)
    }

    /// All credentials of issued batches whose type appears in `types`.
    pub fn credentials_of_types(&self, types: &Vec<String>) -> (res: Result<
        Vec<CredentialContainer>,
        CredentialGraphError,
    >)
        requires
            self.wf(),
        ensures
            res is Ok,
            res matches Ok(list) ==> containers_view(list@).to_multiset() == issued_of_types(
                self.graph@.batches,
                texts(types@),
            ).to_multiset(),
    {
        match self.graph.credentials_of_types(types) {
            Ok(entries) => Ok(from_graph_entries(&entries)),
            Err(error) => Err(error),
        }
    }

    /// The graph that holds what is stored.
    pub fn graph(&self) -> (res: &CredentialGraph)
        ensures
            *res == self.graph,
    {
        &self.graph
    }
}

/// A stored batch reads as it stands, and is what the graph holds but for the id.
pub proof fn law_stored_batches_read_as_they_stand(
    stored: StoredCredentialBatch,
    batches: Seq<BatchView>,
    i: int,
)
    ensures
        stored@.issuer_pid == stored.issuer_pid@,
        stored@.holder_pid is Some == stored.holder_pid is Some,
        stored.holder_pid matches Some(text) ==> stored@.holder_pid == Some(text@),
        stored@.status == stored.status@,
        stored@.rejection_reason is Some == stored.rejection_reason is Some,
        stored.rejection_reason matches Some(text) ==> stored@.rejection_reason == Some(text@),
        stored@.credentials.len() == stored.credentials@.len(),
        0 <= i < stored.credentials@.len() ==> {
            &&& stored@.credentials[i].credential_type == stored.credentials@[i].credential_type@
            &&& stored@.credentials[i].payload == stored.credentials@[i].payload@
            &&& stored@.credentials[i].format == stored.credentials@[i].format@
        },
        stored_batches(batches).len() == batches.len(),
        0 <= i < batches.len() ==> {
            &&& stored_batches(batches)[i].issuer_pid == batches[i].issuer_pid
            &&& stored_batches(batches)[i].holder_pid == batches[i].holder_pid
            &&& stored_batches(batches)[i].status == batches[i].status
            &&& stored_batches(batches)[i].rejection_reason == batches[i].rejection_reason
            &&& stored_batches(batches)[i].credentials == batches[i].credentials
        },
{
}

/// What is kept of a batch: all of it, each payload as its own text reads.
pub proof fn law_kept_batches_hold_what_was_given(given: StoredView, i: int)
    ensures
        accepted(given).issuer_pid == given.issuer_pid,
        accepted(given).holder_pid == given.holder_pid,
        accepted(given).status == given.status,
        accepted(given).rejection_reason == given.rejection_reason,
        accepted(given).credentials.len() == given.credentials.len(),
        0 <= i < given.credentials.len() ==> {
            &&& accepted(given).credentials[i].credential_type
                == given.credentials[i].credential_type
            &&& accepted(given).credentials[i].format == given.credentials[i].format
            &&& canonical(given.credentials[i].payload) ==> accepted(given).credentials[i]
                == given.credentials[i]
        },
{
}

} // verus!
