//! The credential graph: an embedded RDF store that holds every accepted
//! `CredentialMessage` and `CredentialOfferMessage` as statements, and gives
//! them back through SPARQL queries.
//!
//! Attributes are stored and matched as literals; only the fixed vocabulary ever
//! becomes an IRI, and no query holds anything that a caller supplied. The graph
//! is bounded: past its capacity the oldest entry makes room for the newest.

use oxigraph::store::Store;
use vstd::prelude::*;

use crate::bounded::{law_any_number_of_items, law_newest_is_kept, newest};
use crate::grouping::{group_batches, group_offers, select_credentials};
use crate::ids::{fresh_id, is_uuid};
use crate::issued::{
    batch_entries, holds_entries, issued_at, issued_of_types, law_found_by_type, lemma_entry_joins,
    lemma_entry_leaves, lemma_selected_issued, offer_entries,
};
use crate::json::{canonical, decoded, encoded};
use crate::layout::{
    batch_record, batch_statements, entry_nodes, lemma_layout_insert, lemma_layout_remove,
    offer_record, offer_statements, MAX_ORDER,
};
use crate::model::{
    batches_view, entries_view, offered_view, offers_view, AcceptedOffer, BatchView,
    CredentialBatch, CredentialEntry, EntryView, NewAcceptedOffer, NewCredentialBatch, OfferView,
};
use crate::nodes::{
    child_states, children_apart, fits, is_foreign, lays_out, lemma_listing, numbered, own_states,
    sorted_out, states, Entry,
};
use crate::query::{
    answers, answers_issued, batch_shape, lists, lists_issued, offer_shape, order_iri, rows_show,
    rows_show_issued, IssuedSolution, Solution, BATCHES_QUERY, ISSUED_QUERY, OFFERS_QUERY,
};
use crate::rdf::{
    in_vocabulary, insert_statements, lemma_statements_in_vocabulary, open_store,
    orders_are_integers, remove_nodes, rows_view, select, stored, triples, CredentialGraphError,
    ObjectView, Triple,
};
use crate::records::{
    batch_entry, batch_view, credential_attrs, lemma_batch_fits, lemma_batch_in_vocabulary,
    lemma_offer_fits, lemma_offer_in_vocabulary, lemma_rows_make_batches, lemma_rows_make_offers,
    lemma_vocabulary, offer_entry, offered_attrs, BatchRecord,
};
use crate::text::{optional_text, same_text, texts};

verus! {

/// How many accepted batches the graph holds at most.
pub const MAX_CREDENTIAL_BATCHES: usize = 2048;

/// How many accepted offers the graph holds at most.
pub const MAX_ACCEPTED_OFFERS: usize = 2048;

/// Where an entry's nodes are: its order, and how many children it has.
struct EntryRef {
    order: u64,
    children: u64,
}

/// The credential graph.
pub struct CredentialGraph {
    store: Store,
    next_order: u64,
    batch_refs: Vec<EntryRef>,
    offer_refs: Vec<EntryRef>,
    entries: Ghost<Map<int, Entry>>,
    batches: Ghost<Seq<BatchRecord>>,
    offers: Ghost<Seq<OfferView>>,
}

/// What a graph holds: its batches and its offers, each in insertion order.
pub struct GraphView {
    pub batches: Seq<BatchView>,
    pub offers: Seq<OfferView>,
}

/// A credential as it is read back: its payload is what the text that stands for
/// it means.
pub open spec fn accepted_entry(c: EntryView) -> EntryView {
    EntryView { payload: decoded(encoded(c.payload)), ..c }
}

/// A batch accepted under an id.
pub open spec fn accepted_batch(id: Seq<char>, batch: NewCredentialBatch) -> BatchView {
    BatchView {
        id,
        issuer_pid: batch.issuer_pid@,
        holder_pid: optional_text(batch.holder_pid),
        status: batch.status@,
        rejection_reason: optional_text(batch.rejection_reason),
        credentials: entries_view(batch.credentials@).map_values(|c: EntryView| accepted_entry(c)),
    }
}

/// An offer accepted under an id.
pub open spec fn accepted_offer(id: Seq<char>, offer: NewAcceptedOffer) -> OfferView {
    OfferView { id, issuer: offer.issuer@, credentials: offered_view(offer.credentials@) }
}

/// The first batch with the given id.
pub open spec fn batch_with_id(list: Seq<BatchView>, id: Seq<char>) -> Option<BatchView>
    decreases list.len(),
{
    if list.len() == 0 {
        None
    } else if list[0].id == id {
        Some(list[0])
    } else {
        batch_with_id(list.drop_first(), id)
    }
}

/// The first offer with the given id.
pub open spec fn offer_with_id(list: Seq<OfferView>, id: Seq<char>) -> Option<OfferView>
    decreases list.len(),
{
    if list.len() == 0 {
        None
    } else if list[0].id == id {
        Some(list[0])
    } else {
        offer_with_id(list.drop_first(), id)
    }
}

/// The orders of a list of entries.
spec fn orders(refs: Seq<EntryRef>) -> Seq<int> {
    refs.map_values(|r: EntryRef| r.order as int)
}

impl View for CredentialGraph {
    type V = GraphView;

    closed spec fn view(&self) -> GraphView {
        GraphView {
            batches: self.batches@.map_values(|r: BatchRecord| batch_view(r)),
            offers: self.offers@,
        }
    }
}

impl CredentialGraph {
    /// The graph's invariant: the store holds the statements of the retained
    /// batches and offers and no others, and neither list is over its capacity.
    pub closed spec fn wf(&self) -> bool {
        &&& lays_out(stored(self.store), self.entries@)
        &&& numbered(self.entries@)
        &&& self.next_order <= MAX_ORDER
        &&& forall|o: int| #[trigger]
            self.entries@.contains_key(o) ==> o < self.next_order
                && self.entries@[o].children.len() <= MAX_ORDER
        &&& holds_entries(
            self.entries@,
            orders(self.batch_refs@),
            self.batches@,
            orders(self.offer_refs@),
            self.offers@,
        )
        &&& self.batches@.len() <= MAX_CREDENTIAL_BATCHES
        &&& self.offers@.len() <= MAX_ACCEPTED_OFFERS
        &&& forall|i: int|
            0 <= i < self.batch_refs@.len() ==> (#[trigger] self.batch_refs@[i]).children
                == self.batches@[i].credentials.len()
        &&& forall|i: int|
            0 <= i < self.offer_refs@.len() ==> (#[trigger] self.offer_refs@[i]).children
                == self.offers@[i].credentials.len()
    }

    /// Neither list of a graph ever exceeds its capacity.
    pub proof fn law_lists_are_bounded(&self)
        requires
            self.wf(),
        ensures
            self@.batches.len() <= MAX_CREDENTIAL_BATCHES,
            self@.offers.len() <= MAX_ACCEPTED_OFFERS,
    {
    }

    /// How many more entries the graph can number. It numbers every entry it was
    /// ever given, and the store compares numbers up to `i64::MAX`.
    pub closed spec fn room(&self) -> nat {
        (MAX_ORDER - self.next_order) as nat
    }

    /// Whether the graph can number another entry.
    pub fn has_room(&self) -> (res: bool)
        requires
            self.wf(),
        ensures
            res == (self.room() > 0),
    {
        self.next_order < MAX_ORDER
    }

    /// Opens a fresh, empty, in-process graph.
    pub fn open_in_memory() -> (res: Result<Self, CredentialGraphError>)
        ensures
            res is Ok,
            res matches Ok(graph) ==> {
                &&& graph.wf()
                &&& graph.room() == MAX_ORDER
                &&& graph@.batches.len() == 0
                &&& graph@.offers.len() == 0
            },
    {
        match open_store() {
            Ok(store) => {
                let graph = CredentialGraph {
                    store,
                    next_order: 0,
                    batch_refs: Vec::new(),
                    offer_refs: Vec::new(),
                    entries: Ghost(Map::empty()),
                    batches: Ghost(Seq::empty()),
                    offers: Ghost(Seq::empty()),
                };
                Ok(graph)
            },
            Err(error) => Err(CredentialGraphError::Storage(error)),
        }
    }

    /// Every order that the store holds is one it compares by value.
    proof fn lemma_orders(&self)
        requires
            self.wf(),
        ensures
            orders_are_integers(stored(self.store)),
    {
        lemma_vocabulary();
        let g = stored(self.store);
        let entries = self.entries@;
        assert forall|t: Triple| #[trigger] g.contains(t) && t.predicate == order_iri() implies (
        t.object matches ObjectView::Integer(n) && 0 <= n <= i64::MAX) by {
            let o = choose|o: int| #[trigger] entries.contains_key(o) && states(o, entries[o], t);
            let bn = orders(self.batch_refs@);
            let on = orders(self.offer_refs@);
            if bn.contains(o) {
                let i = choose|i: int| 0 <= i < bn.len() && bn[i] == o;
                assert(entries[bn[i]] == batch_entry(o, self.batches@[i]));
                if !own_states(o, entries[o], t) {
                    let j = choose|j: int| #[trigger] child_states(o, entries[o], j, t);
                    assert(entries[o].children[j] == credential_attrs(
                        j,
                        self.batches@[i].credentials[j],
                    ));
                }
            } else {
                let i = choose|i: int| 0 <= i < on.len() && on[i] == o;
                assert(entries[on[i]] == offer_entry(o, self.offers@[i]));
                if !own_states(o, entries[o], t) {
                    let j = choose|j: int| #[trigger] child_states(o, entries[o], j, t);
                    assert(entries[o].children[j] == offered_attrs(
                        j,
                        self.offers@[i].credentials[j],
                    ));
                }
            }
        }
    }

    /// The entries are sorted out by both shapes.
    proof fn lemma_sorted_out(&self)
        requires
            self.wf(),
        ensures
            sorted_out(batch_shape(), self.entries@, orders(self.batch_refs@)),
            sorted_out(offer_shape(), self.entries@, orders(self.offer_refs@)),
    {
        let entries = self.entries@;
        let bn = orders(self.batch_refs@);
        let on = orders(self.offer_refs@);
        assert forall|i: int| 0 <= i < bn.len() implies entries.contains_key(#[trigger] bn[i])
            && fits(batch_shape(), bn[i], entries[bn[i]]) by {
            lemma_batch_fits(bn[i], self.batches@[i]);
        }
        assert forall|i: int| 0 <= i < on.len() implies entries.contains_key(#[trigger] on[i])
            && fits(offer_shape(), on[i], entries[on[i]]) by {
            lemma_offer_fits(on[i], self.offers@[i]);
        }
        assert forall|o: int| #[trigger] entries.contains_key(o) implies {
            &&& children_apart(batch_shape(), entries[o])
            &&& children_apart(offer_shape(), entries[o])
            &&& bn.contains(o) || is_foreign(batch_shape(), entries[o])
            &&& on.contains(o) || is_foreign(offer_shape(), entries[o])
        } by {
            if bn.contains(o) {
                let i = choose|i: int| 0 <= i < bn.len() && bn[i] == o;
                assert(entries[bn[i]] == batch_entry(o, self.batches@[i]));
                lemma_batch_fits(o, self.batches@[i]);
            } else {
                let i = choose|i: int| 0 <= i < on.len() && on[i] == o;
                assert(entries[on[i]] == offer_entry(o, self.offers@[i]));
                lemma_offer_fits(o, self.offers@[i]);
            }
        }
    }

    /// All accepted batches, in insertion order.
    pub fn batches(&self) -> (res: Result<Vec<CredentialBatch>, CredentialGraphError>)
        requires
            self.wf(),
        ensures
            res is Ok,
            res matches Ok(list) ==> batches_view(list@) == self@.batches,
    {
        proof {
            self.lemma_orders();
        }
        match select(&self.store, BATCHES_QUERY) {
            Ok(rows) => {
                let list = group_batches(&rows);
                proof {
                    let view = rows_view(rows@);
                    let g = stored(self.store);
                    let nodes = orders(self.batch_refs@);
                    assert(answers(g, batch_shape(), view));
                    let sols = choose|sols: Seq<Solution>| #[trigger]
                        lists(g, batch_shape(), sols) && rows_show(view, batch_shape(), sols);
                    self.lemma_sorted_out();
                    lemma_listing(g, self.entries@, batch_shape(), nodes, sols);
                    lemma_rows_make_batches(view, self.entries@, nodes, self.batches@);
                    assert(batches_view(list@) =~= self@.batches);
                }
                Ok(list)
            },
            Err(error) => Err(error),
        }
    }

    /// All accepted offers, in insertion order.
    pub fn offers(&self) -> (res: Result<Vec<AcceptedOffer>, CredentialGraphError>)
        requires
            self.wf(),
        ensures
            res is Ok,
            res matches Ok(list) ==> offers_view(list@) == self@.offers,
    {
        proof {
            self.lemma_orders();
        }
        match select(&self.store, OFFERS_QUERY) {
            Ok(rows) => {
                let list = group_offers(&rows);
                proof {
                    let view = rows_view(rows@);
                    let g = stored(self.store);
                    let nodes = orders(self.offer_refs@);
                    assert(answers(g, offer_shape(), view));
                    let sols = choose|sols: Seq<Solution>| #[trigger]
                        lists(g, offer_shape(), sols) && rows_show(view, offer_shape(), sols);
                    self.lemma_sorted_out();
                    lemma_listing(g, self.entries@, offer_shape(), nodes, sols);
                    lemma_rows_make_offers(view, self.entries@, nodes, self.offers@);
                    assert(offers_view(list@) =~= self@.offers);
                }
                Ok(list)
            },
            Err(error) => Err(error),
        }
    }

    /// All credentials of issued batches whose type appears in `types`, in no
    /// particular order. The types never reach the query: it is fixed, and what
    /// it finds is narrowed to them here.
    pub fn credentials_of_types(&self, types: &Vec<String>) -> (res: Result<
        Vec<CredentialEntry>,
        CredentialGraphError,
    >)
        requires
            self.wf(),
        ensures
            res is Ok,
            res matches Ok(list) ==> entries_view(list@).to_multiset() == issued_of_types(
                self@.batches,
                texts(types@),
            ).to_multiset(),
    {
        proof {
            self.lemma_orders();
        }
        match select(&self.store, ISSUED_QUERY) {
            Ok(rows) => {
                let list = select_credentials(&rows, types);
                proof {
                    let view = rows_view(rows@);
                    let g = stored(self.store);
                    assert(answers_issued(g, view));
                    let sols = choose|sols: Seq<IssuedSolution>| #[trigger]
                        lists_issued(g, sols) && rows_show_issued(view, sols);
                    lemma_selected_issued(
                        g,
                        self.entries@,
                        orders(self.batch_refs@),
                        self.batches@,
                        orders(self.offer_refs@),
                        self.offers@,
                        view,
                        sols,
                        texts(types@),
                    );
                }
                Ok(list)
            },
            Err(error) => Err(error),
        }
    }

    /// Takes the oldest batch out of the graph.
    fn evict_batch(&mut self) -> (res: Result<(), CredentialGraphError>)
        requires
            old(self).wf(),
            old(self)@.batches.len() > 0,
        ensures
            final(self).wf(),
            final(self).next_order == old(self).next_order,
            final(self)@.offers == old(self)@.offers,
            res is Ok,
            final(self)@.batches == old(self)@.batches.drop_first(),
    {
        let order = self.batch_refs[0].order;
        let children = self.batch_refs[0].children;
        let ghost o = order as int;
        proof {
            assert(orders(self.batch_refs@)[0] == o);
            assert(self.entries@.contains_key(o));
            assert(self.entries@[o] == batch_entry(o, self.batches@[0]));
        }
        let nodes = entry_nodes(order, children);
        match remove_nodes(&mut self.store, &nodes) {
            Ok(()) => {
                proof {
                    lemma_layout_remove(stored(old(self).store), self.entries@, o, nodes@);
                }
                let _ = self.batch_refs.remove(0);
                self.entries = Ghost(self.entries@.remove(o));
                self.batches = Ghost(self.batches@.drop_first());
                proof {
                    let was = old(self);
                    let here = orders(was.batch_refs@);
                    let there = orders(was.offer_refs@);
                    let list = batch_entries(here, was.batches@);
                    let others = offer_entries(there, was.offers@);
                    assert(!there.contains(o)) by {
                        if there.contains(o) {
                            let i = choose|i: int| 0 <= i < there.len() && there[i] == o;
                            lemma_batch_fits(o, was.batches@[0]);
                            lemma_offer_fits(o, was.offers@[i]);
                        }
                    }
                    lemma_entry_leaves(was.entries@, here, list, there, others);
                    assert(orders(self.batch_refs@) =~= here.drop_first());
                    assert(batch_entries(here.drop_first(), self.batches@) =~= list.drop_first());
                    assert forall|i: int| 0 <= i < self.batch_refs@.len() implies (
                    #[trigger] self.batch_refs@[i]).children == self.batches@[i].credentials.len() by {
                        assert(self.batch_refs@[i] == was.batch_refs@[i + 1]);
                    }
                    assert(self@.batches =~= was@.batches.drop_first());
                }
                Ok(())
            },
            Err(error) => Err(CredentialGraphError::Storage(error)),
        }
    }

    /// Decomposes one accepted `CredentialMessage` into statements and stores
    /// them: a node for the batch, linked to a node per credential. Past the
    /// graph's capacity the oldest batch makes room. Returns the id minted for
    /// the batch.
    pub fn add_batch(&mut self, batch: NewCredentialBatch) -> (res: Result<
        String,
        CredentialGraphError,
    >)
        requires
            old(self).wf(),
            old(self).room() > 0,
            batch.credentials@.len() <= MAX_ORDER,
        ensures
            final(self).wf(),
            final(self).room() + 1 == old(self).room(),
            final(self)@.offers == old(self)@.offers,
            res is Ok,
            res matches Ok(id) ==> {
                &&& is_uuid(id@)
                &&& final(self)@.batches == newest(
                    old(self)@.batches.push(accepted_batch(id@, batch)),
                    MAX_CREDENTIAL_BATCHES as nat,
                )
                &&& forall|i: int|
                    0 <= i < batch.credentials@.len() && (#[trigger] batch.credentials@[i]).payload is Text
                        ==> accepted_entry(batch.credentials@[i]@) == batch.credentials@[i]@
            },
    {
        let id = fresh_id();
        if self.batch_refs.len() >= MAX_CREDENTIAL_BATCHES {
            match self.evict_batch() {
                Ok(()) => {},
                Err(error) => {
                    return Err(error);
                },
            }
        }
        let ghost was = *self;
        let order = self.next_order;
        self.next_order = order + 1;
        let statements = batch_statements(order, id.as_str(), &batch);
        proof {
            assert forall|t: Triple| #[trigger] triples(statements@).contains(
                t,
            ) implies in_vocabulary(t) by {
                lemma_batch_in_vocabulary(order as int, batch_record(id@, batch), t);
            }
            lemma_statements_in_vocabulary(statements@);
        }
        match insert_statements(&mut self.store, &statements) {
            Ok(()) => {
                let ghost o = order as int;
                let ghost r = batch_record(id@, batch);
                let ghost e = batch_entry(o, r);
                proof {
                    lemma_layout_insert(
                        stored(was.store),
                        self.entries@,
                        o,
                        e,
                        triples(statements@),
                    );
                }
                self.batch_refs.push(EntryRef { order, children: batch.credentials.len() as u64 });
                self.entries = Ghost(self.entries@.insert(o, e));
                self.batches = Ghost(self.batches@.push(r));
                proof {
                    let here = orders(was.batch_refs@);
                    let there = orders(was.offer_refs@);
                    let list = batch_entries(here, was.batches@);
                    let others = offer_entries(there, was.offers@);
                    lemma_entry_joins(was.entries@, here, list, there, others, o, e);
                    assert(orders(self.batch_refs@) =~= here.push(o));
                    assert(batch_entries(here.push(o), self.batches@) =~= list.push(e));
                    assert forall|i: int| 0 <= i < self.batch_refs@.len() implies (
                    #[trigger] self.batch_refs@[i]).children == self.batches@[i].credentials.len() by {
                        if i < here.len() {
                            assert(self.batch_refs@[i] == was.batch_refs@[i]);
                        }
                    }
                    assert(batch_view(r).credentials =~= accepted_batch(id@, batch).credentials);
                    assert(self@.batches =~= was@.batches.push(accepted_batch(id@, batch)));
                    assert(self@.batches =~= newest(
                        old(self)@.batches.push(accepted_batch(id@, batch)),
                        MAX_CREDENTIAL_BATCHES as nat,
                    ));
                }
                Ok(id)
            },
            Err(error) => Err(error),
        }
    }

    /// Takes the oldest offer out of the graph.
    fn evict_offer(&mut self) -> (res: Result<(), CredentialGraphError>)
        requires
            old(self).wf(),
            old(self)@.offers.len() > 0,
        ensures
            final(self).wf(),
            final(self).next_order == old(self).next_order,
            final(self)@.batches == old(self)@.batches,
            res is Ok,
            final(self)@.offers == old(self)@.offers.drop_first(),
    {
        let order = self.offer_refs[0].order;
        let children = self.offer_refs[0].children;
        let ghost o = order as int;
        proof {
            assert(orders(self.offer_refs@)[0] == o);
            assert(self.entries@.contains_key(o));
            assert(self.entries@[o] == offer_entry(o, self.offers@[0]));
        }
        let nodes = entry_nodes(order, children);
        match remove_nodes(&mut self.store, &nodes) {
            Ok(()) => {
                proof {
                    lemma_layout_remove(stored(old(self).store), self.entries@, o, nodes@);
                }
                let _ = self.offer_refs.remove(0);
                self.entries = Ghost(self.entries@.remove(o));
                self.offers = Ghost(self.offers@.drop_first());
                proof {
                    let was = old(self);
                    let here = orders(was.offer_refs@);
                    let there = orders(was.batch_refs@);
                    let list = offer_entries(here, was.offers@);
                    let others = batch_entries(there, was.batches@);
                    assert(!there.contains(o)) by {
                        if there.contains(o) {
                            let i = choose|i: int| 0 <= i < there.len() && there[i] == o;
                            lemma_batch_fits(o, was.batches@[i]);
                            lemma_offer_fits(o, was.offers@[0]);
                        }
                    }
                    lemma_entry_leaves(was.entries@, here, list, there, others);
                    assert(orders(self.offer_refs@) =~= here.drop_first());
                    assert(offer_entries(here.drop_first(), self.offers@) =~= list.drop_first());
                    assert forall|i: int| 0 <= i < self.offer_refs@.len() implies (
                    #[trigger] self.offer_refs@[i]).children == self.offers@[i].credentials.len() by {
                        assert(self.offer_refs@[i] == was.offer_refs@[i + 1]);
                    }
                    assert(self@.offers =~= was@.offers.drop_first());
                }
                Ok(())
            },
            Err(error) => Err(CredentialGraphError::Storage(error)),
        }
    }

    /// Decomposes one accepted `CredentialOfferMessage` into statements and
    /// stores them: a node for the offer, linked to a node per offered
    /// credential. Past the graph's capacity the oldest offer makes room.
    /// Returns the id minted for the offer.
    pub fn add_offer(&mut self, offer: NewAcceptedOffer) -> (res: Result<
        String,
        CredentialGraphError,
    >)
        requires
            old(self).wf(),
            old(self).room() > 0,
            offer.credentials@.len() <= MAX_ORDER,
        ensures
            final(self).wf(),
            final(self).room() + 1 == old(self).room(),
            final(self)@.batches == old(self)@.batches,
            res is Ok,
            res matches Ok(id) ==> {
                &&& is_uuid(id@)
                &&& final(self)@.offers == newest(
                    old(self)@.offers.push(accepted_offer(id@, offer)),
                    MAX_ACCEPTED_OFFERS as nat,
                )
            },
    {
        let id = fresh_id();
        if self.offer_refs.len() >= MAX_ACCEPTED_OFFERS {
            match self.evict_offer() {
                Ok(()) => {},
                Err(error) => {
                    return Err(error);
                },
            }
        }
        let ghost was = *self;
        let order = self.next_order;
        self.next_order = order + 1;
        let statements = offer_statements(order, id.as_str(), &offer);
        proof {
            assert forall|t: Triple| #[trigger] triples(statements@).contains(
                t,
            ) implies in_vocabulary(t) by {
                lemma_offer_in_vocabulary(order as int, offer_record(id@, offer), t);
            }
            lemma_statements_in_vocabulary(statements@);
        }
        match insert_statements(&mut self.store, &statements) {
            Ok(()) => {
                let ghost o = order as int;
                let ghost r = offer_record(id@, offer);
                let ghost e = offer_entry(o, r);
                proof {
                    lemma_layout_insert(
                        stored(was.store),
                        self.entries@,
                        o,
                        e,
                        triples(statements@),
                    );
                }
                self.offer_refs.push(EntryRef { order, children: offer.credentials.len() as u64 });
                self.entries = Ghost(self.entries@.insert(o, e));
                self.offers = Ghost(self.offers@.push(r));
                proof {
                    let here = orders(was.offer_refs@);
                    let there = orders(was.batch_refs@);
                    let list = offer_entries(here, was.offers@);
                    let others = batch_entries(there, was.batches@);
                    lemma_entry_joins(was.entries@, here, list, there, others, o, e);
                    assert(orders(self.offer_refs@) =~= here.push(o));
                    assert(offer_entries(here.push(o), self.offers@) =~= list.push(e));
                    assert forall|i: int| 0 <= i < self.offer_refs@.len() implies (
                    #[trigger] self.offer_refs@[i]).children == self.offers@[i].credentials.len() by {
                        if i < here.len() {
                            assert(self.offer_refs@[i] == was.offer_refs@[i]);
                        }
                    }
                    assert(self@.offers =~= was@.offers.push(accepted_offer(id@, offer)));
                    assert(self@.offers =~= newest(
                        old(self)@.offers.push(accepted_offer(id@, offer)),
                        MAX_ACCEPTED_OFFERS as nat,
                    ));
                }
                Ok(id)
            },
            Err(error) => Err(error),
        }
    }

    /// The batch with the given id, `None` where there is none.
    pub fn batch(&self, id: &str) -> (res: Result<Option<CredentialBatch>, CredentialGraphError>)
        requires
            self.wf(),
        ensures
            res is Ok,
            res matches Ok(found) ==> {
                &&& found is Some == batch_with_id(self@.batches, id@) is Some
                &&& found matches Some(batch) ==> batch_with_id(self@.batches, id@) == Some(batch@)
            },
    {
        let mut list = match self.batches() {
            Ok(list) => list,
            Err(error) => {
                return Err(error);
            },
        };
        let ghost all = self@.batches;
        proof {
            assert(all.skip(0) =~= all);
        }
        let mut i: usize = 0;
        while i < list.len()
            invariant
                i <= list@.len(),
                all == self@.batches,
                batches_view(list@) == all,
                batch_with_id(all, id@) == batch_with_id(all.skip(i as int), id@),
            decreases list.len() - i,
        {
            proof {
                assert(all[i as int] == list@[i as int]@);
                assert(all.skip(i as int).drop_first() =~= all.skip(i + 1));
            }
            if same_text(list[i].id.as_str(), id) {
                return Ok(Some(list.swap_remove(i)));
            }
            i = i + 1;
        }
        Ok(None)
    }

    /// The offer with the given id, `None` where there is none.
    pub fn offer(&self, id: &str) -> (res: Result<Option<AcceptedOffer>, CredentialGraphError>)
        requires
            self.wf(),
        ensures
            res is Ok,
            res matches Ok(found) ==> {
                &&& found is Some == offer_with_id(self@.offers, id@) is Some
                &&& found matches Some(offer) ==> offer_with_id(self@.offers, id@) == Some(offer@)
            },
    {
        let mut list = match self.offers() {
            Ok(list) => list,
            Err(error) => {
                return Err(error);
            },
        };
        let ghost all = self@.offers;
        proof {
            assert(all.skip(0) =~= all);
        }
        let mut i: usize = 0;
        while i < list.len()
            invariant
                i <= list@.len(),
                all == self@.offers,
                offers_view(list@) == all,
                offer_with_id(all, id@) == offer_with_id(all.skip(i as int), id@),
            decreases list.len() - i,
        {
            proof {
                assert(all[i as int] == list@[i as int]@);
                assert(all.skip(i as int).drop_first() =~= all.skip(i + 1));
            }
            if same_text(list[i].id.as_str(), id) {
                return Ok(Some(list.swap_remove(i)));
            }
            i = i + 1;
        }
        Ok(None)
    }
}

/// What is read of a batch is what was written: where each payload reads back as
/// itself, the newest batch is the one that was given, field for field and with
/// its credentials in order.
pub proof fn law_written_batch_is_read_back(
    before: Seq<BatchView>,
    id: Seq<char>,
    batch: NewCredentialBatch,
)
    requires
        forall|i: int|
            0 <= i < batch.credentials@.len() ==> canonical(
                (#[trigger] batch.credentials@[i]).payload@,
            ),
    ensures
        newest(before.push(accepted_batch(id, batch)), MAX_CREDENTIAL_BATCHES as nat).last() == (
        BatchView {
            id,
            issuer_pid: batch.issuer_pid@,
            holder_pid: optional_text(batch.holder_pid),
            status: batch.status@,
            rejection_reason: optional_text(batch.rejection_reason),
            credentials: entries_view(batch.credentials@),
        }),
{
    law_newest_is_kept(before, accepted_batch(id, batch), MAX_CREDENTIAL_BATCHES as nat);
    let given = entries_view(batch.credentials@);
    assert(accepted_batch(id, batch).credentials =~= given) by {
        assert forall|i: int| 0 <= i < given.len() implies accepted_entry(given[i]) == given[i] by {
            assert(canonical(batch.credentials@[i].payload@));
        }
    }
}

/// What is read of an offer is what was written: its issuer, and the offered
/// credentials in order.
pub proof fn law_written_offer_is_read_back(
    before: Seq<OfferView>,
    id: Seq<char>,
    offer: NewAcceptedOffer,
)
    ensures
        newest(before.push(accepted_offer(id, offer)), MAX_ACCEPTED_OFFERS as nat).last() == (
        OfferView { id, issuer: offer.issuer@, credentials: offered_view(offer.credentials@) }),
{
    law_newest_is_kept(before, accepted_offer(id, offer), MAX_ACCEPTED_OFFERS as nat);
}

/// A batch is found by the id it was accepted under, while no other batch has it.
pub proof fn law_batch_is_found_by_its_id(list: Seq<BatchView>, k: int)
    requires
        0 <= k < list.len(),
        forall|i: int| 0 <= i < list.len() && i != k ==> (#[trigger] list[i]).id != list[k].id,
    ensures
        batch_with_id(list, list[k].id) == Some(list[k]),
    decreases list.len(),
{
    if k > 0 {
        let rest = list.drop_first();
        assert(list[0].id != list[k].id);
        assert forall|i: int| 0 <= i < rest.len() && i != k - 1 implies (#[trigger] rest[i]).id
            != rest[k - 1].id by {
            assert(rest[i] == list[i + 1]);
        }
        law_batch_is_found_by_its_id(rest, k - 1);
    }
}

/// An offer is found by the id it was accepted under, while no other offer has
/// it.
pub proof fn law_offer_is_found_by_its_id(list: Seq<OfferView>, k: int)
    requires
        0 <= k < list.len(),
        forall|i: int| 0 <= i < list.len() && i != k ==> (#[trigger] list[i]).id != list[k].id,
    ensures
        offer_with_id(list, list[k].id) == Some(list[k]),
    decreases list.len(),
{
    if k > 0 {
        let rest = list.drop_first();
        assert(list[0].id != list[k].id);
        assert forall|i: int| 0 <= i < rest.len() && i != k - 1 implies (#[trigger] rest[i]).id
            != rest[k - 1].id by {
            assert(rest[i] == list[i + 1]);
        }
        law_offer_is_found_by_its_id(rest, k - 1);
    }
}

/// However many batches a graph is given, one after the other, it holds the newest
/// of them in insertion order and never more than its capacity; and the one given
/// last is found, by its id while no other batch has it, and by the types of its
/// credentials where it was issued. `graphs` are the graph before the first batch
/// and after each.
pub proof fn law_any_number_of_batches(
    graphs: Seq<GraphView>,
    ids: Seq<Seq<char>>,
    given: Seq<NewCredentialBatch>,
    types: Seq<Seq<char>>,
)
    requires
        given.len() > 0,
        ids.len() == given.len(),
        graphs.len() == given.len() + 1,
        graphs[0].batches.len() <= MAX_CREDENTIAL_BATCHES,
        forall|k: int|
            0 <= k < given.len() ==> graphs[k + 1].batches == newest(
                graphs[k].batches.push(accepted_batch(ids[k], #[trigger] given[k])),
                MAX_CREDENTIAL_BATCHES as nat,
            ),
    ensures
        ({
            let all = Seq::new(given.len(), |k: int| accepted_batch(ids[k], given[k]));
            let kept = graphs.last().batches;
            let latest = accepted_batch(ids.last(), given.last());
            &&& kept == newest(graphs[0].batches + all, MAX_CREDENTIAL_BATCHES as nat)
            &&& kept.len() <= MAX_CREDENTIAL_BATCHES
            &&& kept.len() > 0
            &&& kept.last() == latest
            &&& (forall|i: int| 0 <= i < kept.len() - 1 ==> (#[trigger] kept[i]).id != latest.id)
                ==> batch_with_id(kept, latest.id) == Some(latest)
            &&& forall|j: int|
                0 <= j < latest.credentials.len() && latest.status == "ISSUED"@ && types.contains(
                    (#[trigger] latest.credentials[j]).credential_type,
                ) ==> issued_of_types(kept, types).contains(latest.credentials[j])
        }),
{
    let all = Seq::new(given.len(), |k: int| accepted_batch(ids[k], given[k]));
    let states = graphs.map_values(|g: GraphView| g.batches);
    assert forall|k: int| 0 <= k < all.len() implies states[k + 1] == newest(
        states[k].push(#[trigger] all[k]),
        MAX_CREDENTIAL_BATCHES as nat,
    ) by {
        assert(all[k] == accepted_batch(ids[k], given[k]));
    }
    law_any_number_of_items(states, all, MAX_CREDENTIAL_BATCHES as nat);
    let kept = graphs.last().batches;
    let latest = accepted_batch(ids.last(), given.last());
    let last = kept.len() - 1;
    assert(states.last() == kept);
    assert(all[all.len() - 1] == latest);
    assert(kept[last] == latest);
    if forall|i: int| 0 <= i < kept.len() - 1 ==> (#[trigger] kept[i]).id != latest.id {
        law_batch_is_found_by_its_id(kept, last);
    }
    assert forall|j: int|
        0 <= j < latest.credentials.len() && latest.status == "ISSUED"@ && types.contains(
            (#[trigger] latest.credentials[j]).credential_type,
        ) implies issued_of_types(kept, types).contains(latest.credentials[j]) by {
        law_found_by_type(kept, types, latest.credentials[j]);
        assert(issued_at(kept, types, last, j, latest.credentials[j]));
    }
}

/// However many offers a graph is given, one after the other, it holds the newest
/// of them in insertion order and never more than its capacity; and the one given
/// last is found by its id while no other offer has it. `graphs` are the graph
/// before the first offer and after each.
pub proof fn law_any_number_of_offers(
    graphs: Seq<GraphView>,
    ids: Seq<Seq<char>>,
    given: Seq<NewAcceptedOffer>,
)
    requires
        given.len() > 0,
        ids.len() == given.len(),
        graphs.len() == given.len() + 1,
        graphs[0].offers.len() <= MAX_ACCEPTED_OFFERS,
        forall|k: int|
            0 <= k < given.len() ==> graphs[k + 1].offers == newest(
                graphs[k].offers.push(accepted_offer(ids[k], #[trigger] given[k])),
                MAX_ACCEPTED_OFFERS as nat,
            ),
    ensures
        ({
            let all = Seq::new(given.len(), |k: int| accepted_offer(ids[k], given[k]));
            let kept = graphs.last().offers;
            let latest = accepted_offer(ids.last(), given.last());
            &&& kept == newest(graphs[0].offers + all, MAX_ACCEPTED_OFFERS as nat)
            &&& kept.len() <= MAX_ACCEPTED_OFFERS
            &&& kept.len() > 0
            &&& kept.last() == latest
            &&& (forall|i: int| 0 <= i < kept.len() - 1 ==> (#[trigger] kept[i]).id != latest.id)
                ==> offer_with_id(kept, latest.id) == Some(latest)
        }),
{
    let all = Seq::new(given.len(), |k: int| accepted_offer(ids[k], given[k]));
    let states = graphs.map_values(|g: GraphView| g.offers);
    assert forall|k: int| 0 <= k < all.len() implies states[k + 1] == newest(
        states[k].push(#[trigger] all[k]),
        MAX_ACCEPTED_OFFERS as nat,
    ) by {
        assert(all[k] == accepted_offer(ids[k], given[k]));
    }
    law_any_number_of_items(states, all, MAX_ACCEPTED_OFFERS as nat);
    let kept = graphs.last().offers;
    let latest = accepted_offer(ids.last(), given.last());
    assert(states.last() == kept);
    assert(all[all.len() - 1] == latest);
    assert(kept[kept.len() - 1] == latest);
    if forall|i: int| 0 <= i < kept.len() - 1 ==> (#[trigger] kept[i]).id != latest.id {
        law_offer_is_found_by_its_id(kept, kept.len() - 1);
    }
}

/// A batch is found by an id exactly where one has it, and it is the first that
/// does.
pub proof fn law_batches_are_found_by_id(list: Seq<BatchView>, id: Seq<char>)
    ensures
        batch_with_id(list, id) is Some <==> exists|i: int|
            0 <= i < list.len() && (#[trigger] list[i]).id == id,
        batch_with_id(list, id) matches Some(b) ==> exists|i: int|
            {
                &&& 0 <= i < list.len()
                &&& #[trigger] list[i] == b
                &&& b.id == id
                &&& forall|j: int| 0 <= j < i ==> (#[trigger] list[j]).id != id
            },
    decreases list.len(),
{
    if list.len() > 0 {
        let rest = list.drop_first();
        law_batches_are_found_by_id(rest, id);
        if list[0].id != id {
            if exists|i: int| 0 <= i < list.len() && (#[trigger] list[i]).id == id {
                let i = choose|i: int| 0 <= i < list.len() && (#[trigger] list[i]).id == id;
                assert(rest[i - 1].id == id);
            }
            if let Some(b) = batch_with_id(rest, id) {
                let i = choose|i: int|
                    {
                        &&& 0 <= i < rest.len()
                        &&& #[trigger] rest[i] == b
                        &&& b.id == id
                        &&& forall|j: int| 0 <= j < i ==> (#[trigger] rest[j]).id != id
                    };
                assert(list[i + 1] == b);
                assert forall|j: int| 0 <= j < i + 1 implies (#[trigger] list[j]).id != id by {
                    if j > 0 {
                        assert(rest[j - 1].id != id);
                    }
                }
            }
        }
    }
}

/// An offer is found by an id exactly where one has it, and it is the first that
/// does.
pub proof fn law_offers_are_found_by_id(list: Seq<OfferView>, id: Seq<char>)
    ensures
        offer_with_id(list, id) is Some <==> exists|i: int|
            0 <= i < list.len() && (#[trigger] list[i]).id == id,
        offer_with_id(list, id) matches Some(o) ==> exists|i: int|
            {
                &&& 0 <= i < list.len()
                &&& #[trigger] list[i] == o
                &&& o.id == id
                &&& forall|j: int| 0 <= j < i ==> (#[trigger] list[j]).id != id
            },
    decreases list.len(),
{
    if list.len() > 0 {
        let rest = list.drop_first();
        law_offers_are_found_by_id(rest, id);
        if list[0].id != id {
            if exists|i: int| 0 <= i < list.len() && (#[trigger] list[i]).id == id {
                let i = choose|i: int| 0 <= i < list.len() && (#[trigger] list[i]).id == id;
                assert(rest[i - 1].id == id);
            }
            if let Some(o) = offer_with_id(rest, id) {
                let i = choose|i: int|
                    {
                        &&& 0 <= i < rest.len()
                        &&& #[trigger] rest[i] == o
                        &&& o.id == id
                        &&& forall|j: int| 0 <= j < i ==> (#[trigger] rest[j]).id != id
                    };
                assert(list[i + 1] == o);
                assert forall|j: int| 0 <= j < i + 1 implies (#[trigger] list[j]).id != id by {
                    if j > 0 {
                        assert(rest[j - 1].id != id);
                    }
                }
            }
        }
    }
}

/// What is accepted of a batch, field by field and credential by credential: all
/// of it under the given id, each payload as its own text reads.
pub proof fn law_accepted_batches_hold_what_was_given(
    id: Seq<char>,
    batch: NewCredentialBatch,
    i: int,
)
    ensures
        ({
            let b = accepted_batch(id, batch);
            &&& b.id == id
            &&& b.issuer_pid == batch.issuer_pid@
            &&& b.holder_pid is Some == batch.holder_pid is Some
            &&& batch.holder_pid matches Some(text) ==> b.holder_pid == Some(text@)
            &&& b.status == batch.status@
            &&& b.rejection_reason is Some == batch.rejection_reason is Some
            &&& batch.rejection_reason matches Some(text) ==> b.rejection_reason == Some(text@)
            &&& b.credentials.len() == batch.credentials@.len()
            &&& 0 <= i < batch.credentials@.len() ==> {
                &&& b.credentials[i].credential_type == batch.credentials@[i].credential_type@
                &&& b.credentials[i].format == batch.credentials@[i].format@
                &&& b.credentials[i].payload == decoded(encoded(batch.credentials@[i].payload@))
            }
        }),
{
}

/// What is accepted of an offer, field by field and credential by credential: all
/// of it under the given id.
pub proof fn law_accepted_offers_hold_what_was_given(
    id: Seq<char>,
    offer: NewAcceptedOffer,
    i: int,
)
    ensures
        ({
            let o = accepted_offer(id, offer);
            &&& o.id == id
            &&& o.issuer == offer.issuer@
            &&& o.credentials.len() == offer.credentials@.len()
            &&& 0 <= i < offer.credentials@.len() ==> {
                &&& o.credentials[i].id == offer.credentials@[i].id@
                &&& o.credentials[i].credential_type == optional_text(
                    offer.credentials@[i].credential_type,
                )
            }
        }),
{
}

} // verus!
