//! Batches and offers as entries of the graph, and how they are read back from
//! the rows that answer the graph's queries.

use vstd::prelude::*;

use crate::grouping::{
    batch_extend, batch_head, column, folded, grouped_batches, grouped_offers, lemma_group_run,
    offer_extend, offer_head,
};
use crate::json::decoded;
use crate::model::{BatchView, EntryView, OfferView, OfferedView};
use crate::nodes::{
    child_fits, child_states, children_apart, fits, is_foreign, lemma_node_id, node_id, own_states,
    run, runs, states, Entry,
};
use crate::query::{
    batch_shape, bindings, offer_shape, order_iri, row_shows, rows_show, shows, CellView,
};
use crate::rdf::{in_vocabulary, ObjectView, Triple};
use crate::vocab::{ds_iri, is_name, is_term_iri, rdf_iri, vc_iri};

verus! {

/// A credential as the graph keeps it: its payload by the text that stands for
/// it.
pub struct CredentialRecord {
    pub credential_type: Seq<char>,
    pub format: Seq<char>,
    pub literal: Seq<char>,
}

/// A batch as the graph keeps it.
pub struct BatchRecord {
    pub id: Seq<char>,
    pub issuer_pid: Seq<char>,
    pub holder_pid: Option<Seq<char>>,
    pub status: Seq<char>,
    pub rejection_reason: Option<Seq<char>>,
    pub credentials: Seq<CredentialRecord>,
}

/// The credential that is read back from a record.
pub open spec fn credential_view(c: CredentialRecord) -> EntryView {
    EntryView {
        credential_type: c.credential_type,
        payload: decoded(c.literal),
        format: c.format,
    }
}

/// The batch that is read back from a record.
pub open spec fn batch_view(r: BatchRecord) -> BatchView {
    BatchView {
        id: r.id,
        issuer_pid: r.issuer_pid,
        holder_pid: r.holder_pid,
        status: r.status,
        rejection_reason: r.rejection_reason,
        credentials: r.credentials.map_values(|c: CredentialRecord| credential_view(c)),
    }
}

/// `attrs` with `predicate` bound to a text, where there is one.
pub open spec fn with_optional(
    attrs: Map<Seq<char>, ObjectView>,
    predicate: Seq<char>,
    value: Option<Seq<char>>,
) -> Map<Seq<char>, ObjectView> {
    match value {
        Some(text) => attrs.insert(predicate, ObjectView::Text(text)),
        None => attrs,
    }
}

/// The attributes of a batch's node that it always has.
pub open spec fn batch_core(o: int, r: BatchRecord) -> Map<Seq<char>, ObjectView> {
    Map::<Seq<char>, ObjectView>::empty().insert(
        rdf_iri("type"@),
        ObjectView::Named(ds_iri("CredentialBatch"@)),
    ).insert(ds_iri("batchId"@), ObjectView::Text(r.id)).insert(
        order_iri(),
        ObjectView::Integer(o),
    ).insert(ds_iri("issuerPid"@), ObjectView::Text(r.issuer_pid)).insert(
        ds_iri("status"@),
        ObjectView::Text(r.status),
    )
}

/// The attributes of a batch's node.
pub open spec fn batch_attrs(o: int, r: BatchRecord) -> Map<Seq<char>, ObjectView> {
    with_optional(
        with_optional(batch_core(o, r), ds_iri("holderPid"@), r.holder_pid),
        ds_iri("rejectionReason"@),
        r.rejection_reason,
    )
}

/// The attributes of a credential's node.
pub open spec fn credential_attrs(j: int, c: CredentialRecord) -> Map<Seq<char>, ObjectView> {
    Map::<Seq<char>, ObjectView>::empty().insert(
        rdf_iri("type"@),
        ObjectView::Named(vc_iri("VerifiableCredential"@)),
    ).insert(order_iri(), ObjectView::Integer(j)).insert(
        ds_iri("credentialType"@),
        ObjectView::Text(c.credential_type),
    ).insert(ds_iri("format"@), ObjectView::Text(c.format)).insert(
        ds_iri("payload"@),
        ObjectView::Text(c.literal),
    )
}

/// The entry of a batch.
pub open spec fn batch_entry(o: int, r: BatchRecord) -> Entry {
    Entry {
        attrs: batch_attrs(o, r),
        link: ds_iri("hasCredential"@),
        children: Seq::new(r.credentials.len(), |j: int| credential_attrs(j, r.credentials[j])),
    }
}

/// The attributes of an offer's node.
pub open spec fn offer_attrs(o: int, r: OfferView) -> Map<Seq<char>, ObjectView> {
    Map::<Seq<char>, ObjectView>::empty().insert(
        rdf_iri("type"@),
        ObjectView::Named(ds_iri("AcceptedCredentialOffer"@)),
    ).insert(ds_iri("offerId"@), ObjectView::Text(r.id)).insert(
        order_iri(),
        ObjectView::Integer(o),
    ).insert(vc_iri("issuer"@), ObjectView::Text(r.issuer))
}

/// The attributes of an offered credential's node.
pub open spec fn offered_attrs(j: int, c: OfferedView) -> Map<Seq<char>, ObjectView> {
    with_optional(
        Map::<Seq<char>, ObjectView>::empty().insert(order_iri(), ObjectView::Integer(j)).insert(
            ds_iri("credentialId"@),
            ObjectView::Text(c.id),
        ),
        ds_iri("credentialType"@),
        c.credential_type,
    )
}

/// The entry of an offer.
pub open spec fn offer_entry(o: int, r: OfferView) -> Entry {
    Entry {
        attrs: offer_attrs(o, r),
        link: ds_iri("offersCredential"@),
        children: Seq::new(r.credentials.len(), |j: int| offered_attrs(j, r.credentials[j])),
    }
}

/// The predicates of the graph differ in length or in the first letter of their
/// local names.
pub proof fn lemma_vocabulary()
    ensures
        rdf_iri("type"@).len() == 47,
        vc_iri("issuer"@).len() == 42,
        ds_iri("batchId"@).len() == 54 && ds_iri("batchId"@)[47] == 'b',
        order_iri().len() == 52,
        ds_iri("issuerPid"@).len() == 56 && ds_iri("issuerPid"@)[47] == 'i',
        ds_iri("status"@).len() == 53 && ds_iri("status"@)[47] == 's',
        ds_iri("holderPid"@).len() == 56 && ds_iri("holderPid"@)[47] == 'h',
        ds_iri("rejectionReason"@).len() == 62,
        ds_iri("hasCredential"@).len() == 60,
        ds_iri("credentialType"@).len() == 61,
        ds_iri("format"@).len() == 53 && ds_iri("format"@)[47] == 'f',
        ds_iri("payload"@).len() == 54 && ds_iri("payload"@)[47] == 'p',
        ds_iri("offerId"@).len() == 54 && ds_iri("offerId"@)[47] == 'o',
        ds_iri("offersCredential"@).len() == 63,
        ds_iri("credentialId"@).len() == 59,
{
    reveal_strlit("https://www.w3.org/2018/credentials#");
    reveal_strlit("http://www.w3.org/1999/02/22-rdf-syntax-ns#");
    reveal_strlit("https://ds42.org/ontologies/ds-identity-hub-rs#");
    reveal_strlit("type");
    reveal_strlit("issuer");
    reveal_strlit("batchId");
    reveal_strlit("order");
    reveal_strlit("issuerPid");
    reveal_strlit("status");
    reveal_strlit("holderPid");
    reveal_strlit("rejectionReason");
    reveal_strlit("hasCredential");
    reveal_strlit("credentialType");
    reveal_strlit("format");
    reveal_strlit("payload");
    reveal_strlit("offerId");
    reveal_strlit("offersCredential");
    reveal_strlit("credentialId");
}

/// The IRIs of the graph are those of terms.
proof fn lemma_terms()
    ensures
        is_term_iri(rdf_iri("type"@)),
        is_term_iri(vc_iri("issuer"@)),
        is_term_iri(vc_iri("VerifiableCredential"@)),
        is_term_iri(order_iri()),
        is_term_iri(ds_iri("CredentialBatch"@)),
        is_term_iri(ds_iri("AcceptedCredentialOffer"@)),
        is_term_iri(ds_iri("batchId"@)),
        is_term_iri(ds_iri("issuerPid"@)),
        is_term_iri(ds_iri("status"@)),
        is_term_iri(ds_iri("holderPid"@)),
        is_term_iri(ds_iri("rejectionReason"@)),
        is_term_iri(ds_iri("hasCredential"@)),
        is_term_iri(ds_iri("credentialType"@)),
        is_term_iri(ds_iri("format"@)),
        is_term_iri(ds_iri("payload"@)),
        is_term_iri(ds_iri("offerId"@)),
        is_term_iri(ds_iri("offersCredential"@)),
        is_term_iri(ds_iri("credentialId"@)),
{
    reveal_strlit("type");
    reveal_strlit("issuer");
    reveal_strlit("VerifiableCredential");
    reveal_strlit("order");
    reveal_strlit("CredentialBatch");
    reveal_strlit("AcceptedCredentialOffer");
    reveal_strlit("batchId");
    reveal_strlit("issuerPid");
    reveal_strlit("status");
    reveal_strlit("holderPid");
    reveal_strlit("rejectionReason");
    reveal_strlit("hasCredential");
    reveal_strlit("credentialType");
    reveal_strlit("format");
    reveal_strlit("payload");
    reveal_strlit("offerId");
    reveal_strlit("offersCredential");
    reveal_strlit("credentialId");
    assert(is_name("type"@));
    assert(is_name("issuer"@));
    assert(is_name("VerifiableCredential"@));
    assert(is_name("order"@));
    assert(is_name("CredentialBatch"@));
    assert(is_name("AcceptedCredentialOffer"@));
    assert(is_name("batchId"@));
    assert(is_name("issuerPid"@));
    assert(is_name("status"@));
    assert(is_name("holderPid"@));
    assert(is_name("rejectionReason"@));
    assert(is_name("hasCredential"@));
    assert(is_name("credentialType"@));
    assert(is_name("format"@));
    assert(is_name("payload"@));
    assert(is_name("offerId"@));
    assert(is_name("offersCredential"@));
    assert(is_name("credentialId"@));
}

/// A batch is stated in terms alone.
pub proof fn lemma_batch_in_vocabulary(o: int, r: BatchRecord, t: Triple)
    requires
        states(o, batch_entry(o, r), t),
    ensures
        in_vocabulary(t),
{
    lemma_terms();
    let e = batch_entry(o, r);
    if !own_states(o, e, t) {
        let j = choose|j: int| #[trigger] child_states(o, e, j, t);
        assert(e.children[j] == credential_attrs(j, r.credentials[j]));
    }
}

/// An offer is stated in terms alone.
pub proof fn lemma_offer_in_vocabulary(o: int, r: OfferView, t: Triple)
    requires
        states(o, offer_entry(o, r), t),
    ensures
        in_vocabulary(t),
{
    lemma_terms();
    let e = offer_entry(o, r);
    if !own_states(o, e, t) {
        let j = choose|j: int| #[trigger] child_states(o, e, j, t);
        assert(e.children[j] == offered_attrs(j, r.credentials[j]));
    }
}

/// A batch is an entry that [`batch_shape`] asks for, and none that
/// [`offer_shape`] does.
pub proof fn lemma_batch_fits(o: int, r: BatchRecord)
    ensures
        fits(batch_shape(), o, batch_entry(o, r)),
        children_apart(batch_shape(), batch_entry(o, r)),
        is_foreign(offer_shape(), batch_entry(o, r)),
        children_apart(offer_shape(), batch_entry(o, r)),
{
    lemma_vocabulary();
    let e = batch_entry(o, r);
    let shape = batch_shape();
    assert forall|j: int| 0 <= j < e.children.len() implies child_fits(
        shape,
        j,
        #[trigger] e.children[j],
    ) by {
        assert(e.children[j] == credential_attrs(j, r.credentials[j]));
    }
}

/// An offer is an entry that [`offer_shape`] asks for, and none that
/// [`batch_shape`] does.
pub proof fn lemma_offer_fits(o: int, r: OfferView)
    ensures
        fits(offer_shape(), o, offer_entry(o, r)),
        children_apart(offer_shape(), offer_entry(o, r)),
        is_foreign(batch_shape(), offer_entry(o, r)),
        children_apart(batch_shape(), offer_entry(o, r)),
{
    lemma_vocabulary();
    let e = offer_entry(o, r);
    let shape = offer_shape();
    assert forall|j: int| 0 <= j < e.children.len() implies child_fits(
        shape,
        j,
        #[trigger] e.children[j],
    ) by {
        assert(e.children[j] == offered_attrs(j, r.credentials[j]));
    }
}

/// What the rows of a batch's run make, after the first `n`.
proof fn lemma_fold_batch(
    rows: Seq<Seq<Option<CellView>>>,
    o: int,
    r: BatchRecord,
    n: int,
)
    requires
        rows_show(rows, batch_shape(), run(batch_shape(), o, batch_entry(o, r))),
        0 < n <= rows.len(),
    ensures
        folded(
            rows.take(n),
            |row: Seq<Option<CellView>>| batch_head(row),
            |b: BatchView, row: Seq<Option<CellView>>| batch_extend(b, row),
        ) == (BatchView {
            credentials: if r.credentials.len() == 0 {
                Seq::empty()
            } else {
                batch_view(r).credentials.take(n)
            },
            ..batch_view(r)
        }),
    decreases n,
{
    lemma_vocabulary();
    let shape = batch_shape();
    let e = batch_entry(o, r);
    let head = |row: Seq<Option<CellView>>| batch_head(row);
    let extend = |b: BatchView, row: Seq<Option<CellView>>| batch_extend(b, row);
    let part = rows.take(n);
    let row = rows[n - 1];
    let s = run(shape, o, e)[n - 1];
    let bound = bindings(shape, s);
    assert(row_shows(rows[n - 1], bound));
    assert(s.required =~= seq![
        ObjectView::Text(r.id),
        ObjectView::Text(r.issuer_pid),
        ObjectView::Text(r.status),
    ]);
    assert(bound[1] == Some(ObjectView::Text(r.id)));
    assert(bound[2] == Some(ObjectView::Text(r.issuer_pid)));
    assert(bound[3] == Some(ObjectView::Text(r.status)));
    assert(bound[4] == s.optional[0]);
    assert(bound[5] == s.optional[1]);
    assert(shows(row[1], bound[1]) && shows(row[2], bound[2]) && shows(row[3], bound[3]));
    assert(shows(row[4], bound[4]) && shows(row[5], bound[5]));
    if r.credentials.len() == 0 {
        assert(bound[7] is None);
        assert(shows(row[7], bound[7]));
        assert(part.len() == 1);
        assert(part[0] == row);
    } else {
        let c = r.credentials[n - 1];
        assert(s.child->0.required =~= seq![
            ObjectView::Text(c.credential_type),
            ObjectView::Text(c.format),
            ObjectView::Text(c.literal),
        ]);
        assert(bound[7] == Some(ObjectView::Text(c.credential_type)));
        assert(bound[8] == Some(ObjectView::Text(c.format)));
        assert(bound[9] == Some(ObjectView::Text(c.literal)));
        assert(shows(row[7], bound[7]) && shows(row[8], bound[8]) && shows(row[9], bound[9]));
        let all = batch_view(r).credentials;
        assert(all[n - 1] == credential_view(c));
        if n == 1 {
            assert(part[0] == row);
            assert(Seq::<EntryView>::empty().push(all[0]) =~= all.take(1));
        } else {
            lemma_fold_batch(rows, o, r, n - 1);
            assert(part.drop_last() =~= rows.take(n - 1));
            assert(part.last() == row);
            assert(all.take(n - 1).push(all[n - 1]) =~= all.take(n));
        }
    }
}

/// The rows of a batch's run make the batch.
proof fn lemma_run_makes_batch(rows: Seq<Seq<Option<CellView>>>, o: int, r: BatchRecord)
    requires
        rows_show(rows, batch_shape(), run(batch_shape(), o, batch_entry(o, r))),
    ensures
        rows.len() > 0,
        forall|k: int|
            0 <= k < rows.len() ==> column(#[trigger] rows[k], 0) == Some(
                CellView::Blank(Some(node_id(o, 0))),
            ),
        folded(
            rows,
            |row: Seq<Option<CellView>>| batch_head(row),
            |b: BatchView, row: Seq<Option<CellView>>| batch_extend(b, row),
        ) == batch_view(r),
{
    let shape = batch_shape();
    let sols = run(shape, o, batch_entry(o, r));
    assert forall|k: int| 0 <= k < rows.len() implies column(#[trigger] rows[k], 0) == Some(
        CellView::Blank(Some(node_id(o, 0))),
    ) by {
        let bound = bindings(shape, sols[k]);
        assert(row_shows(rows[k], bound));
        assert(bound[0] == Some(ObjectView::Blank(node_id(o, 0))));
        assert(shows(rows[k][0], bound[0]));
    }
    lemma_fold_batch(rows, o, r, rows.len() as int);
    assert(rows.take(rows.len() as int) =~= rows);
    assert(batch_view(r).credentials.take(r.credentials.len() as int) =~= batch_view(r).credentials);
    if r.credentials.len() == 0 {
        assert(batch_view(r).credentials =~= Seq::empty());
    }
}

/// The rows that answer the query for batches make the batches, in order.
pub proof fn lemma_rows_make_batches(
    rows: Seq<Seq<Option<CellView>>>,
    entries: Map<int, Entry>,
    nodes: Seq<int>,
    records: Seq<BatchRecord>,
)
    requires
        rows_show(rows, batch_shape(), runs(batch_shape(), entries, nodes)),
        nodes.len() == records.len(),
        forall|i: int, j: int| 0 <= i < j < nodes.len() ==> nodes[i] < nodes[j],
        forall|i: int|
            0 <= i < nodes.len() ==> entries[#[trigger] nodes[i]] == batch_entry(
                nodes[i],
                records[i],
            ),
    ensures
        grouped_batches(rows).len() == nodes.len(),
        forall|i: int|
            0 <= i < nodes.len() ==> #[trigger] grouped_batches(rows)[i] == (
                CellView::Blank(Some(node_id(nodes[i], 0))),
                batch_view(records[i]),
            ),
    decreases nodes.len(),
{
    if nodes.len() > 0 {
        let shape = batch_shape();
        let n = nodes.len() - 1;
        let o = nodes[n];
        let head_sols = runs(shape, entries, nodes.drop_last());
        let tail_sols = run(shape, o, entries[o]);
        let head = rows.take(head_sols.len() as int);
        let tail = rows.skip(head_sols.len() as int);
        assert(runs(shape, entries, nodes) =~= head_sols + tail_sols);
        assert(rows =~= head + tail);
        assert(rows_show(head, shape, head_sols)) by {
            assert forall|i: int| 0 <= i < head_sols.len() implies row_shows(
                #[trigger] head[i],
                bindings(shape, head_sols[i]),
            ) by {
                assert(row_shows(rows[i], bindings(shape, (head_sols + tail_sols)[i])));
            }
        }
        assert(rows_show(tail, shape, tail_sols)) by {
            assert forall|i: int| 0 <= i < tail_sols.len() implies row_shows(
                #[trigger] tail[i],
                bindings(shape, tail_sols[i]),
            ) by {
                let k = head_sols.len() + i;
                assert(row_shows(rows[k], bindings(shape, (head_sols + tail_sols)[k])));
            }
        }
        lemma_rows_make_batches(head, entries, nodes.drop_last(), records.drop_last());
        lemma_run_makes_batch(tail, o, records[n]);
        let done = grouped_batches(head);
        if done.len() > 0 {
            assert(done[n - 1].0 == CellView::Blank(Some(node_id(nodes[n - 1], 0))));
            assert(nodes[n - 1] < nodes[n]);
            if node_id(nodes[n - 1], 0) == node_id(o, 0) {
                lemma_node_id(nodes[n - 1], 0, o, 0);
            }
        }
        lemma_group_run(
            head,
            tail,
            CellView::Blank(Some(node_id(o, 0))),
            |row: Seq<Option<CellView>>| batch_head(row),
            |b: BatchView, row: Seq<Option<CellView>>| batch_extend(b, row),
        );
    }
}

/// What the rows of an offer's run make, after the first `n`.
proof fn lemma_fold_offer(rows: Seq<Seq<Option<CellView>>>, o: int, r: OfferView, n: int)
    requires
        rows_show(rows, offer_shape(), run(offer_shape(), o, offer_entry(o, r))),
        0 < n <= rows.len(),
    ensures
        folded(
            rows.take(n),
            |row: Seq<Option<CellView>>| offer_head(row),
            |b: OfferView, row: Seq<Option<CellView>>| offer_extend(b, row),
        ) == (OfferView {
            credentials: if r.credentials.len() == 0 {
                Seq::empty()
            } else {
                r.credentials.take(n)
            },
            ..r
        }),
    decreases n,
{
    lemma_vocabulary();
    let shape = offer_shape();
    let e = offer_entry(o, r);
    let part = rows.take(n);
    let row = rows[n - 1];
    let s = run(shape, o, e)[n - 1];
    let bound = bindings(shape, s);
    assert(row_shows(rows[n - 1], bound));
    assert(s.required =~= seq![ObjectView::Text(r.id), ObjectView::Text(r.issuer)]);
    assert(bound[1] == Some(ObjectView::Text(r.id)));
    assert(bound[2] == Some(ObjectView::Text(r.issuer)));
    assert(shows(row[1], bound[1]) && shows(row[2], bound[2]));
    if r.credentials.len() == 0 {
        assert(bound[4] is None);
        assert(shows(row[4], bound[4]));
        assert(part.len() == 1);
        assert(part[0] == row);
    } else {
        let c = r.credentials[n - 1];
        assert(s.child->0.required =~= seq![ObjectView::Text(c.id)]);
        assert(bound[4] == Some(ObjectView::Text(c.id)));
        assert(bound[5] == s.child->0.optional[0]);
        assert(shows(row[4], bound[4]) && shows(row[5], bound[5]));
        let all = r.credentials;
        if n == 1 {
            assert(part[0] == row);
            assert(Seq::<OfferedView>::empty().push(all[0]) =~= all.take(1));
        } else {
            lemma_fold_offer(rows, o, r, n - 1);
            assert(part.drop_last() =~= rows.take(n - 1));
            assert(part.last() == row);
            assert(all.take(n - 1).push(all[n - 1]) =~= all.take(n));
        }
    }
}

/// The rows of an offer's run make the offer.
proof fn lemma_run_makes_offer(rows: Seq<Seq<Option<CellView>>>, o: int, r: OfferView)
    requires
        rows_show(rows, offer_shape(), run(offer_shape(), o, offer_entry(o, r))),
    ensures
        rows.len() > 0,
        forall|k: int|
            0 <= k < rows.len() ==> column(#[trigger] rows[k], 0) == Some(
                CellView::Blank(Some(node_id(o, 0))),
            ),
        folded(
            rows,
            |row: Seq<Option<CellView>>| offer_head(row),
            |b: OfferView, row: Seq<Option<CellView>>| offer_extend(b, row),
        ) == r,
{
    let shape = offer_shape();
    let sols = run(shape, o, offer_entry(o, r));
    assert forall|k: int| 0 <= k < rows.len() implies column(#[trigger] rows[k], 0) == Some(
        CellView::Blank(Some(node_id(o, 0))),
    ) by {
        let bound = bindings(shape, sols[k]);
        assert(row_shows(rows[k], bound));
        assert(bound[0] == Some(ObjectView::Blank(node_id(o, 0))));
        assert(shows(rows[k][0], bound[0]));
    }
    lemma_fold_offer(rows, o, r, rows.len() as int);
    assert(rows.take(rows.len() as int) =~= rows);
    assert(r.credentials.take(r.credentials.len() as int) =~= r.credentials);
    if r.credentials.len() == 0 {
        assert(r.credentials =~= Seq::empty());
    }
}

/// The rows that answer the query for offers make the offers, in order.
pub proof fn lemma_rows_make_offers(
    rows: Seq<Seq<Option<CellView>>>,
    entries: Map<int, Entry>,
    nodes: Seq<int>,
    records: Seq<OfferView>,
)
    requires
        rows_show(rows, offer_shape(), runs(offer_shape(), entries, nodes)),
        nodes.len() == records.len(),
        forall|i: int, j: int| 0 <= i < j < nodes.len() ==> nodes[i] < nodes[j],
        forall|i: int|
            0 <= i < nodes.len() ==> entries[#[trigger] nodes[i]] == offer_entry(
                nodes[i],
                records[i],
            ),
    ensures
        grouped_offers(rows).len() == nodes.len(),
        forall|i: int|
            0 <= i < nodes.len() ==> #[trigger] grouped_offers(rows)[i] == (
                CellView::Blank(Some(node_id(nodes[i], 0))),
                records[i],
            ),
    decreases nodes.len(),
{
    if nodes.len() > 0 {
        let shape = offer_shape();
        let n = nodes.len() - 1;
        let o = nodes[n];
        let head_sols = runs(shape, entries, nodes.drop_last());
        let tail_sols = run(shape, o, entries[o]);
        let head = rows.take(head_sols.len() as int);
        let tail = rows.skip(head_sols.len() as int);
        assert(runs(shape, entries, nodes) =~= head_sols + tail_sols);
        assert(rows =~= head + tail);
        assert(rows_show(head, shape, head_sols)) by {
            assert forall|i: int| 0 <= i < head_sols.len() implies row_shows(
                #[trigger] head[i],
                bindings(shape, head_sols[i]),
            ) by {
                assert(row_shows(rows[i], bindings(shape, (head_sols + tail_sols)[i])));
            }
        }
        assert(rows_show(tail, shape, tail_sols)) by {
            assert forall|i: int| 0 <= i < tail_sols.len() implies row_shows(
                #[trigger] tail[i],
                bindings(shape, tail_sols[i]),
            ) by {
                let k = head_sols.len() + i;
                assert(row_shows(rows[k], bindings(shape, (head_sols + tail_sols)[k])));
            }
        }
        lemma_rows_make_offers(head, entries, nodes.drop_last(), records.drop_last());
        lemma_run_makes_offer(tail, o, records[n]);
        let done = grouped_offers(head);
        if done.len() > 0 {
            assert(done[n - 1].0 == CellView::Blank(Some(node_id(nodes[n - 1], 0))));
            assert(nodes[n - 1] < nodes[n]);
            if node_id(nodes[n - 1], 0) == node_id(o, 0) {
                lemma_node_id(nodes[n - 1], 0, o, 0);
            }
        }
        lemma_group_run(
            head,
            tail,
            CellView::Blank(Some(node_id(o, 0))),
            |row: Seq<Option<CellView>>| offer_head(row),
            |b: OfferView, row: Seq<Option<CellView>>| offer_extend(b, row),
        );
    }
}

} // verus!
