//! Writing an entry into the store's statements, and taking one out.

use vstd::prelude::*;

use crate::json::{canonical, encode_payload, encoded};
use crate::model::{
    offered_view, CredentialEntry, EntryView, NewAcceptedOffer, NewCredentialBatch, OfferView,
};
use crate::nodes::{
    child_states, lays_out, lemma_node_id, node_id, numbered, own_states, states, Entry,
    NODES_PER_ENTRY,
};
use crate::query::order_iri;
use crate::rdf::{is_listed, triples, Object, ObjectView, Statement, Triple};
use crate::records::{
    batch_attrs, batch_core, batch_entry, credential_attrs, lemma_vocabulary, offer_attrs,
    offer_entry, offered_attrs, with_optional, BatchRecord, CredentialRecord,
};
use crate::text::optional_text;
use crate::vocab::{ds, ds_iri, rdf, rdf_iri, vc, vc_iri};

verus! {

/// The largest order that the store compares by value.
pub const MAX_ORDER: u64 = 0x7fff_ffff_ffff_ffff;

/// Writing an entry under an unused order adds it to those laid out.
pub proof fn lemma_layout_insert(
    g: Set<Triple>,
    entries: Map<int, Entry>,
    o: int,
    e: Entry,
    added: Set<Triple>,
)
    requires
        lays_out(g, entries),
        !entries.contains_key(o),
        forall|t: Triple| #[trigger] added.contains(t) <==> states(o, e, t),
    ensures
        lays_out(g.union(added), entries.insert(o, e)),
{
    let g2 = g.union(added);
    let entries2 = entries.insert(o, e);
    assert forall|t: Triple| #[trigger] g2.contains(t) <==> exists|k: int| #[trigger]
        entries2.contains_key(k) && states(k, entries2[k], t) by {
        if g.contains(t) {
            let k = choose|k: int| #[trigger] entries.contains_key(k) && states(k, entries[k], t);
            assert(entries2.contains_key(k) && states(k, entries2[k], t));
        }
        if added.contains(t) {
            assert(entries2.contains_key(o) && states(o, entries2[o], t));
        }
        if exists|k: int| #[trigger] entries2.contains_key(k) && states(k, entries2[k], t) {
            let k = choose|k: int| #[trigger]
                entries2.contains_key(k) && states(k, entries2[k], t);
            if k != o {
                assert(entries.contains_key(k) && states(k, entries[k], t));
            }
        }
    }
}

/// Taking out every statement on the nodes of an entry takes that entry out.
pub proof fn lemma_layout_remove(
    g: Set<Triple>,
    entries: Map<int, Entry>,
    o: int,
    nodes: Seq<u128>,
)
    requires
        lays_out(g, entries),
        numbered(entries),
        entries.contains_key(o),
        nodes.len() == entries[o].children.len() + 1,
        forall|p: int| 0 <= p < nodes.len() ==> #[trigger] nodes[p] == node_id(o, p),
    ensures
        lays_out(g.filter(|t: Triple| !is_listed(nodes, t.subject)), entries.remove(o)),
{
    let g2 = g.filter(|t: Triple| !is_listed(nodes, t.subject));
    let entries2 = entries.remove(o);
    assert forall|t: Triple| #[trigger] g2.contains(t) <==> exists|k: int| #[trigger]
        entries2.contains_key(k) && states(k, entries2[k], t) by {
        if g2.contains(t) {
            assert(g.contains(t));
            let k = choose|k: int| #[trigger] entries.contains_key(k) && states(k, entries[k], t);
            if k == o {
                if own_states(k, entries[k], t) {
                    assert(nodes[0] == t.subject);
                } else {
                    let j = choose|j: int| #[trigger] child_states(k, entries[k], j, t);
                    assert(nodes[j + 1] == t.subject);
                }
                assert(is_listed(nodes, t.subject));
            }
            assert(entries2.contains_key(k) && states(k, entries2[k], t));
        }
        if exists|k: int| #[trigger] entries2.contains_key(k) && states(k, entries2[k], t) {
            let k = choose|k: int| #[trigger]
                entries2.contains_key(k) && states(k, entries2[k], t);
            assert(entries.contains_key(k) && states(k, entries[k], t));
            assert(g.contains(t));
            if is_listed(nodes, t.subject) {
                let p = choose|p: int| 0 <= p < nodes.len() && #[trigger] nodes[p] == t.subject;
                assert(nodes[p] == node_id(o, p));
                if own_states(k, entries[k], t) {
                    lemma_node_id(k, 0, o, p);
                } else {
                    let j = choose|j: int| #[trigger] child_states(k, entries[k], j, t);
                    lemma_node_id(k, j + 1, o, p);
                }
            }
        }
    }
}

/// The number of node `place` of entry `order`.
pub fn node_number(order: u64, place: u64) -> (res: u128)
    requires
        order <= MAX_ORDER,
    ensures
        res == node_id(order as int, place as int),
{
    (order as u128) * NODES_PER_ENTRY + (place as u128)
}

/// Whether a statement gives `node` one of the attributes.
pub open spec fn attr_states(node: int, attrs: Map<Seq<char>, ObjectView>, t: Triple) -> bool {
    t.subject == node && attrs.contains_pair(t.predicate, t.object)
}

/// Whether the statements are those of `base` and the attributes of `node`.
pub open spec fn covers(
    list: Seq<Statement>,
    base: Set<Triple>,
    node: int,
    attrs: Map<Seq<char>, ObjectView>,
) -> bool {
    forall|t: Triple| #[trigger]
        triples(list).contains(t) <==> base.contains(t) || attr_states(node, attrs, t)
}

/// One more statement says one thing more.
proof fn lemma_triples_push(list: Seq<Statement>, s: Statement)
    ensures
        triples(list.push(s)) =~= triples(list).insert(s@),
{
    let views = list.map_values(|x: Statement| x@);
    let more = list.push(s).map_values(|x: Statement| x@);
    assert(more =~= views.push(s@));
    assert forall|t: Triple| #[trigger] more.to_set().contains(t) <==> views.to_set().insert(
        s@,
    ).contains(t) by {
        if more.contains(t) {
            let i = choose|i: int| 0 <= i < more.len() && more[i] == t;
            if i < views.len() {
                assert(views[i] == t);
            }
        }
        if views.contains(t) {
            let i = choose|i: int| 0 <= i < views.len() && views[i] == t;
            assert(more[i] == t);
        }
        assert(more[views.len() as int] == s@);
    }
}

/// Adds an attribute of `node` to the statements.
fn push_attribute(
    list: &mut Vec<Statement>,
    node: u128,
    predicate: String,
    object: Object,
    Ghost(base): Ghost<Set<Triple>>,
    Ghost(attrs): Ghost<Map<Seq<char>, ObjectView>>,
)
    requires
        covers(old(list)@, base, node as int, attrs),
        !attrs.contains_key(predicate@),
    ensures
        covers(final(list)@, base, node as int, attrs.insert(predicate@, object@)),
{
    let statement = Statement { subject: node, predicate, object };
    proof {
        lemma_triples_push(list@, statement);
        let more = attrs.insert(predicate@, object@);
        assert forall|t: Triple| #[trigger]
            triples(list@.push(statement)).contains(t) <==> base.contains(t) || attr_states(
            node as int,
            more,
            t,
        ) by {
            if attr_states(node as int, attrs, t) {
                assert(t.predicate != predicate@);
            }
        }
    }
    list.push(statement);
}

/// Adds an attribute of `node` to the statements, where there is a text for it.
fn push_optional(
    list: &mut Vec<Statement>,
    node: u128,
    predicate: String,
    value: &Option<String>,
    Ghost(base): Ghost<Set<Triple>>,
    Ghost(attrs): Ghost<Map<Seq<char>, ObjectView>>,
)
    requires
        covers(old(list)@, base, node as int, attrs),
        !attrs.contains_key(predicate@),
    ensures
        covers(
            final(list)@,
            base,
            node as int,
            with_optional(attrs, predicate@, optional_text(*value)),
        ),
{
    if let Some(text) = value {
        push_attribute(
            list,
            node,
            predicate,
            Object::Text(text.clone()),
            Ghost(base),
            Ghost(attrs),
        );
    }
}

/// Whether the statements are those of an entry's own node and of its first `n`
/// children.
pub open spec fn covers_children(list: Seq<Statement>, o: int, e: Entry, n: int) -> bool {
    forall|t: Triple| #[trigger]
        triples(list).contains(t) <==> attr_states(node_id(o, 0), e.attrs, t) || exists|j: int|
            0 <= j < n && #[trigger] child_part(o, e, j, t)
}

/// Whether a statement links an entry to its child `j` or is one on that child.
pub open spec fn child_part(o: int, e: Entry, j: int, t: Triple) -> bool {
    (t.subject == node_id(o, 0) && t.predicate == e.link && t.object == ObjectView::Blank(
        node_id(o, j + 1),
    )) || attr_states(node_id(o, j + 1), e.children[j], t)
}

/// The statements of an entry with all its children are the entry's.
proof fn lemma_covers_all(list: Seq<Statement>, o: int, e: Entry)
    requires
        covers_children(list, o, e, e.children.len() as int),
    ensures
        forall|t: Triple| #[trigger] triples(list).contains(t) <==> states(o, e, t),
{
    assert forall|t: Triple| #[trigger] triples(list).contains(t) <==> states(o, e, t) by {
        if triples(list).contains(t) && !attr_states(node_id(o, 0), e.attrs, t) {
            let j = choose|j: int| 0 <= j < e.children.len() && #[trigger] child_part(o, e, j, t);
            if attr_states(node_id(o, j + 1), e.children[j], t) {
                assert(child_states(o, e, j, t));
            } else {
                assert(t.object == ObjectView::Blank(node_id(o, j + 1)));
            }
        }
        if own_states(o, e, t) && !e.attrs.contains_pair(t.predicate, t.object) {
            let j = choose|j: int|
                0 <= j < e.children.len() && t.object == ObjectView::Blank(
                    #[trigger] node_id(o, j + 1),
                );
            assert(child_part(o, e, j, t));
        }
        if exists|j: int| #[trigger] child_states(o, e, j, t) {
            let j = choose|j: int| #[trigger] child_states(o, e, j, t);
            assert(child_part(o, e, j, t));
        }
    }
}

/// The statements of one child more.
proof fn lemma_covers_child(
    before: Seq<Statement>,
    linked: Seq<Statement>,
    after: Seq<Statement>,
    o: int,
    e: Entry,
    n: int,
)
    requires
        covers_children(before, o, e, n),
        0 <= n < e.children.len(),
        triples(linked) == triples(before).insert(
            Triple {
                subject: node_id(o, 0),
                predicate: e.link,
                object: ObjectView::Blank(node_id(o, n + 1)),
            },
        ),
        covers(after, triples(linked), node_id(o, n + 1), e.children[n]),
    ensures
        covers_children(after, o, e, n + 1),
{
    assert forall|t: Triple| #[trigger]
        triples(after).contains(t) <==> attr_states(node_id(o, 0), e.attrs, t) || exists|j: int|
            0 <= j < n + 1 && #[trigger] child_part(o, e, j, t) by {
        if triples(after).contains(t) {
            if triples(before).contains(t) {
                if !attr_states(node_id(o, 0), e.attrs, t) {
                    let j = choose|j: int| 0 <= j < n && #[trigger] child_part(o, e, j, t);
                    assert(0 <= j < n + 1 && child_part(o, e, j, t));
                }
            } else {
                assert(child_part(o, e, n, t));
            }
        }
        if exists|j: int| 0 <= j < n + 1 && #[trigger] child_part(o, e, j, t) {
            let j = choose|j: int| 0 <= j < n + 1 && #[trigger] child_part(o, e, j, t);
            if j < n {
                assert(triples(before).contains(t));
            }
        }
    }
}

/// What the graph keeps of a credential.
pub open spec fn credential_record(c: EntryView) -> CredentialRecord {
    CredentialRecord {
        credential_type: c.credential_type,
        format: c.format,
        literal: encoded(c.payload),
    }
}

/// What the graph keeps of a batch under an id.
pub open spec fn batch_record(id: Seq<char>, batch: NewCredentialBatch) -> BatchRecord {
    BatchRecord {
        id,
        issuer_pid: batch.issuer_pid@,
        holder_pid: optional_text(batch.holder_pid),
        status: batch.status@,
        rejection_reason: optional_text(batch.rejection_reason),
        credentials: batch.credentials@.map_values(
            |c: CredentialEntry| credential_record(c@),
        ),
    }
}

/// The statements of a batch.
pub fn batch_statements(order: u64, id: &str, batch: &NewCredentialBatch) -> (res: Vec<Statement>)
    requires
        order <= MAX_ORDER,
    ensures
        forall|t: Triple| #[trigger]
            triples(res@).contains(t) <==> states(
                order as int,
                batch_entry(order as int, batch_record(id@, *batch)),
                t,
            ),
        forall|i: int|
            0 <= i < batch.credentials@.len() && (#[trigger] batch.credentials@[i]).payload is Text
                ==> canonical(batch.credentials@[i].payload@),
{
    let ghost o = order as int;
    let ghost r = batch_record(id@, *batch);
    let ghost e = batch_entry(o, r);
    let ghost empty = Map::<Seq<char>, ObjectView>::empty();
    let ghost none = Set::<Triple>::empty();
    let node = node_number(order, 0);
    let mut list: Vec<Statement> = Vec::new();
    proof {
        lemma_vocabulary();
        assert(covers(list@, none, node as int, empty));
    }
    push_attribute(
        &mut list,
        node,
        rdf("type"),
        Object::Named(ds("CredentialBatch")),
        Ghost(none),
        Ghost(empty),
    );
    let ghost a1 = empty.insert(rdf_iri("type"@), ObjectView::Named(ds_iri("CredentialBatch"@)));
    push_attribute(
        &mut list,
        node,
        ds("batchId"),
        Object::Text(String::from_str(id)),
        Ghost(none),
        Ghost(a1),
    );
    let ghost a2 = a1.insert(ds_iri("batchId"@), ObjectView::Text(id@));
    push_attribute(&mut list, node, ds("order"), Object::Integer(order), Ghost(none), Ghost(a2));
    let ghost a3 = a2.insert(order_iri(), ObjectView::Integer(o));
    push_attribute(
        &mut list,
        node,
        ds("issuerPid"),
        Object::Text(batch.issuer_pid.clone()),
        Ghost(none),
        Ghost(a3),
    );
    let ghost a4 = a3.insert(ds_iri("issuerPid"@), ObjectView::Text(batch.issuer_pid@));
    push_attribute(
        &mut list,
        node,
        ds("status"),
        Object::Text(batch.status.clone()),
        Ghost(none),
        Ghost(a4),
    );
    let ghost a5 = batch_core(o, r);
    push_optional(&mut list, node, ds("holderPid"), &batch.holder_pid, Ghost(none), Ghost(a5));
    let ghost a6 = with_optional(a5, ds_iri("holderPid"@), r.holder_pid);
    push_optional(
        &mut list,
        node,
        ds("rejectionReason"),
        &batch.rejection_reason,
        Ghost(none),
        Ghost(a6),
    );
    proof {
        assert(batch_attrs(o, r) == with_optional(
            a6,
            ds_iri("rejectionReason"@),
            r.rejection_reason,
        ));
        assert(covers_children(list@, o, e, 0));
    }
    let mut i: usize = 0;
    while i < batch.credentials.len()
        invariant
            i <= batch.credentials@.len(),
            order <= MAX_ORDER,
            o == order,
            node == node_id(o, 0),
            r == batch_record(id@, *batch),
            e == batch_entry(o, r),
            covers_children(list@, o, e, i as int),
            forall|k: int|
                0 <= k < i && (#[trigger] batch.credentials@[k]).payload is Text ==> canonical(
                    batch.credentials@[k].payload@,
                ),
        decreases batch.credentials.len() - i,
    {
        let entry = &batch.credentials[i];
        let ghost c = r.credentials[i as int];
        let ghost before = list@;
        let place: u64 = i as u64 + 1;
        let child = node_number(order, place);
        let link = Statement {
            subject: node,
            predicate: ds("hasCredential"),
            object: Object::Blank(child),
        };
        proof {
            lemma_vocabulary();
            lemma_triples_push(list@, link);
        }
        list.push(link);
        let ghost linked = list@;
        let ghost base = triples(list@);
        let ghost empty = Map::<Seq<char>, ObjectView>::empty();
        proof {
            assert(covers(list@, base, child as int, empty));
        }
        push_attribute(
            &mut list,
            child,
            rdf("type"),
            Object::Named(vc("VerifiableCredential")),
            Ghost(base),
            Ghost(empty),
        );
        let ghost b1 = empty.insert(
            rdf_iri("type"@),
            ObjectView::Named(vc_iri("VerifiableCredential"@)),
        );
        push_attribute(
            &mut list,
            child,
            ds("order"),
            Object::Integer(i as u64),
            Ghost(base),
            Ghost(b1),
        );
        let ghost b2 = b1.insert(order_iri(), ObjectView::Integer(i as int));
        push_attribute(
            &mut list,
            child,
            ds("credentialType"),
            Object::Text(entry.credential_type.clone()),
            Ghost(base),
            Ghost(b2),
        );
        let ghost b3 = b2.insert(ds_iri("credentialType"@), ObjectView::Text(c.credential_type));
        push_attribute(
            &mut list,
            child,
            ds("format"),
            Object::Text(entry.format.clone()),
            Ghost(base),
            Ghost(b3),
        );
        let ghost b4 = b3.insert(ds_iri("format"@), ObjectView::Text(c.format));
        push_attribute(
            &mut list,
            child,
            ds("payload"),
            Object::Text(encode_payload(&entry.payload)),
            Ghost(base),
            Ghost(b4),
        );
        proof {
            assert(credential_attrs(i as int, c) == b4.insert(
                ds_iri("payload"@),
                ObjectView::Text(c.literal),
            ));
            assert(e.children[i as int] == credential_attrs(i as int, c));
            lemma_covers_child(before, linked, list@, o, e, i as int);
        }
        i = i + 1;
    }
    proof {
        lemma_covers_all(list@, o, e);
    }
    list
}

/// What the graph keeps of an offer under an id.
pub open spec fn offer_record(id: Seq<char>, offer: NewAcceptedOffer) -> OfferView {
    OfferView { id, issuer: offer.issuer@, credentials: offered_view(offer.credentials@) }
}

/// The statements of an offer.
pub fn offer_statements(order: u64, id: &str, offer: &NewAcceptedOffer) -> (res: Vec<Statement>)
    requires
        order <= MAX_ORDER,
    ensures
        forall|t: Triple| #[trigger]
            triples(res@).contains(t) <==> states(
                order as int,
                offer_entry(order as int, offer_record(id@, *offer)),
                t,
            ),
{
    let ghost o = order as int;
    let ghost r = offer_record(id@, *offer);
    let ghost e = offer_entry(o, r);
    let ghost empty = Map::<Seq<char>, ObjectView>::empty();
    let ghost none = Set::<Triple>::empty();
    let node = node_number(order, 0);
    let mut list: Vec<Statement> = Vec::new();
    proof {
        lemma_vocabulary();
        assert(covers(list@, none, node as int, empty));
    }
    push_attribute(
        &mut list,
        node,
        rdf("type"),
        Object::Named(ds("AcceptedCredentialOffer")),
        Ghost(none),
        Ghost(empty),
    );
    let ghost a1 = empty.insert(
        rdf_iri("type"@),
        ObjectView::Named(ds_iri("AcceptedCredentialOffer"@)),
    );
    push_attribute(
        &mut list,
        node,
        ds("offerId"),
        Object::Text(String::from_str(id)),
        Ghost(none),
        Ghost(a1),
    );
    let ghost a2 = a1.insert(ds_iri("offerId"@), ObjectView::Text(id@));
    push_attribute(&mut list, node, ds("order"), Object::Integer(order), Ghost(none), Ghost(a2));
    let ghost a3 = a2.insert(order_iri(), ObjectView::Integer(o));
    push_attribute(
        &mut list,
        node,
        vc("issuer"),
        Object::Text(offer.issuer.clone()),
        Ghost(none),
        Ghost(a3),
    );
    proof {
        assert(offer_attrs(o, r) == a3.insert(vc_iri("issuer"@), ObjectView::Text(r.issuer)));
        assert(covers_children(list@, o, e, 0));
    }
    let mut i: usize = 0;
    while i < offer.credentials.len()
        invariant
            i <= offer.credentials@.len(),
            order <= MAX_ORDER,
            o == order,
            node == node_id(o, 0),
            r == offer_record(id@, *offer),
            e == offer_entry(o, r),
            covers_children(list@, o, e, i as int),
        decreases offer.credentials.len() - i,
    {
        let offered = &offer.credentials[i];
        let ghost c = r.credentials[i as int];
        let ghost before = list@;
        let place: u64 = i as u64 + 1;
        let child = node_number(order, place);
        let link = Statement {
            subject: node,
            predicate: ds("offersCredential"),
            object: Object::Blank(child),
        };
        proof {
            lemma_vocabulary();
            lemma_triples_push(list@, link);
        }
        list.push(link);
        let ghost linked = list@;
        let ghost base = triples(list@);
        let ghost empty = Map::<Seq<char>, ObjectView>::empty();
        proof {
            assert(covers(list@, base, child as int, empty));
        }
        push_attribute(
            &mut list,
            child,
            ds("order"),
            Object::Integer(i as u64),
            Ghost(base),
            Ghost(empty),
        );
        let ghost b1 = empty.insert(order_iri(), ObjectView::Integer(i as int));
        push_attribute(
            &mut list,
            child,
            ds("credentialId"),
            Object::Text(offered.id.clone()),
            Ghost(base),
            Ghost(b1),
        );
        let ghost b2 = b1.insert(ds_iri("credentialId"@), ObjectView::Text(c.id));
        push_optional(
            &mut list,
            child,
            ds("credentialType"),
            &offered.credential_type,
            Ghost(base),
            Ghost(b2),
        );
        proof {
            assert(e.children[i as int] == offered_attrs(i as int, c));
            lemma_covers_child(before, linked, list@, o, e, i as int);
        }
        i = i + 1;
    }
    proof {
        lemma_covers_all(list@, o, e);
    }
    list
}

/// The numbers of an entry's nodes.
pub fn entry_nodes(order: u64, children: u64) -> (res: Vec<u128>)
    requires
        order <= MAX_ORDER,
        children < u64::MAX,
    ensures
        res@.len() == children + 1,
        forall|p: int| 0 <= p < res@.len() ==> #[trigger] res@[p] == node_id(order as int, p),
{
    let mut nodes: Vec<u128> = Vec::new();
    let mut place: u64 = 0;
    while place <= children
        invariant
            order <= MAX_ORDER,
            children < u64::MAX,
            place <= children + 1,
            nodes@.len() == place,
            forall|p: int| 0 <= p < nodes@.len() ==> #[trigger] nodes@[p] == node_id(order as int, p),
        decreases children + 1 - place,
    {
        nodes.push(node_number(order, place));
        place = place + 1;
    }
    nodes
}

/// Entries are numbered as far as a signed integer of the store reaches.
pub proof fn law_numbers_reach_as_far_as_the_store_compares()
    ensures
        MAX_ORDER == i64::MAX,
{
}

} // verus!
