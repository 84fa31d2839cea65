//! The graph's three SPARQL queries and what their solutions are.
//!
//! Two of them have one form: nodes with their attributes and, for each node,
//! its ordered children with theirs. A [`Shape`] says which predicates such a
//! query asks for.

use vstd::prelude::*;

use crate::rdf::{ObjectView, Triple};
use crate::vocab::{ds_iri, vc_iri};

verus! {

/// Every batch with its credentials, in insertion order.
pub const BATCHES_QUERY: &'static str = "PREFIX ds: <https://ds42.org/ontologies/ds-identity-hub-rs#>
SELECT ?batch ?batchId ?issuerPid ?status ?holderPid ?rejectionReason ?cred ?type ?format ?payload WHERE {
    ?batch ds:order ?border ; ds:batchId ?batchId ; ds:issuerPid ?issuerPid ; ds:status ?status .
    OPTIONAL { ?batch ds:holderPid ?holderPid }
    OPTIONAL { ?batch ds:rejectionReason ?rejectionReason }
    OPTIONAL {
        ?batch ds:hasCredential ?cred .
        ?cred ds:order ?corder ; ds:credentialType ?type ; ds:format ?format ; ds:payload ?payload .
    }
} ORDER BY ?border ?corder";

/// Every accepted offer with the credentials it offers, in insertion order.
pub const OFFERS_QUERY: &'static str = "PREFIX ds: <https://ds42.org/ontologies/ds-identity-hub-rs#>
PREFIX vc: <https://www.w3.org/2018/credentials#>
SELECT ?offer ?offerId ?issuer ?oc ?credentialId ?credentialType WHERE {
    ?offer ds:order ?border ; ds:offerId ?offerId ; vc:issuer ?issuer .
    OPTIONAL {
        ?offer ds:offersCredential ?oc .
        ?oc ds:order ?ocorder ; ds:credentialId ?credentialId .
        OPTIONAL { ?oc ds:credentialType ?credentialType }
    }
} ORDER BY ?border ?ocorder";

/// Every credential of a batch whose status is `ISSUED`.
pub const ISSUED_QUERY: &'static str = "PREFIX ds: <https://ds42.org/ontologies/ds-identity-hub-rs#>
SELECT ?type ?format ?payload WHERE {
    ?batch ds:status \"ISSUED\" ; ds:hasCredential ?cred .
    ?cred ds:credentialType ?type ; ds:format ?format ; ds:payload ?payload .
}";

/// The predicate that gives a node its place.
pub open spec fn order_iri() -> Seq<char> {
    ds_iri("order"@)
}

/// Which predicates a query asks for, of a node and of its children. A node is
/// a solution where it has its order and every required predicate; a child is
/// one where the same holds of the child's; optional predicates, and the child
/// itself, are left unbound where there is nothing to bind.
pub struct Shape {
    pub required: Seq<Seq<char>>,
    pub optional: Seq<Seq<char>>,
    pub link: Seq<char>,
    pub child_required: Seq<Seq<char>>,
    pub child_optional: Seq<Seq<char>>,
}

/// The shape that [`BATCHES_QUERY`] asks for.
pub open spec fn batch_shape() -> Shape {
    Shape {
        required: seq![ds_iri("batchId"@), ds_iri("issuerPid"@), ds_iri("status"@)],
        optional: seq![ds_iri("holderPid"@), ds_iri("rejectionReason"@)],
        link: ds_iri("hasCredential"@),
        child_required: seq![
            ds_iri("credentialType"@),
            ds_iri("format"@),
            ds_iri("payload"@),
        ],
        child_optional: Seq::empty(),
    }
}

/// The shape that [`OFFERS_QUERY`] asks for.
pub open spec fn offer_shape() -> Shape {
    Shape {
        required: seq![ds_iri("offerId"@), vc_iri("issuer"@)],
        optional: Seq::empty(),
        link: ds_iri("offersCredential"@),
        child_required: seq![ds_iri("credentialId"@)],
        child_optional: seq![ds_iri("credentialType"@)],
    }
}

/// A child in a solution.
pub struct ChildSolution {
    pub node: int,
    pub order: int,
    pub required: Seq<ObjectView>,
    pub optional: Seq<Option<ObjectView>>,
}

/// A solution: a node and one of its children, if it has any.
pub struct Solution {
    pub node: int,
    pub order: int,
    pub required: Seq<ObjectView>,
    pub optional: Seq<Option<ObjectView>>,
    pub child: Option<ChildSolution>,
}

/// Whether `g` states `predicate` of `node` with the value `object`.
pub open spec fn says(g: Set<Triple>, node: int, predicate: Seq<char>, object: ObjectView) -> bool {
    g.contains(Triple { subject: node, predicate, object })
}

/// Whether `values` are values that `g` states of `node`, one per predicate.
pub open spec fn binds(
    g: Set<Triple>,
    node: int,
    predicates: Seq<Seq<char>>,
    values: Seq<ObjectView>,
) -> bool {
    &&& values.len() == predicates.len()
    &&& forall|i: int|
        0 <= i < predicates.len() ==> #[trigger] says(g, node, predicates[i], values[i])
}

/// As [`binds`], with `None` exactly where `g` states no value.
pub open spec fn binds_optional(
    g: Set<Triple>,
    node: int,
    predicates: Seq<Seq<char>>,
    values: Seq<Option<ObjectView>>,
) -> bool {
    &&& values.len() == predicates.len()
    &&& forall|i: int|
        0 <= i < predicates.len() ==> (match #[trigger] values[i] {
            Some(value) => says(g, node, predicates[i], value),
            None => forall|v: ObjectView| !says(g, node, predicates[i], v),
        })
}

/// Whether `c` binds a child of `node`.
pub open spec fn is_child(g: Set<Triple>, shape: Shape, node: int, c: ChildSolution) -> bool {
    &&& says(g, node, shape.link, ObjectView::Blank(c.node))
    &&& says(g, c.node, order_iri(), ObjectView::Integer(c.order))
    &&& binds(g, c.node, shape.child_required, c.required)
    &&& binds_optional(g, c.node, shape.child_optional, c.optional)
}

/// Whether `s` is a solution over the statements `g`.
pub open spec fn is_solution(g: Set<Triple>, shape: Shape, s: Solution) -> bool {
    &&& says(g, s.node, order_iri(), ObjectView::Integer(s.order))
    &&& binds(g, s.node, shape.required, s.required)
    &&& binds_optional(g, s.node, shape.optional, s.optional)
    &&& match s.child {
        Some(c) => is_child(g, shape, s.node, c),
        None => forall|c: ChildSolution| !is_child(g, shape, s.node, c),
    }
}

/// The place of a solution's child; an unbound child comes first.
pub open spec fn child_rank(s: Solution) -> int {
    match s.child {
        Some(c) => c.order,
        None => -1,
    }
}

/// Whether `a` may stand before `b`: by the node's order, then by the child's.
pub open spec fn not_after(a: Solution, b: Solution) -> bool {
    a.order < b.order || (a.order == b.order && child_rank(a) <= child_rank(b))
}

/// Whether `sols` lists every solution once, in order.
pub open spec fn lists(g: Set<Triple>, shape: Shape, sols: Seq<Solution>) -> bool {
    &&& sols.no_duplicates()
    &&& forall|s: Solution| #[trigger] sols.contains(s) <==> is_solution(g, shape, s)
    &&& forall|i: int, j: int|
        0 <= i < j < sols.len() ==> not_after(#[trigger] sols[i], #[trigger] sols[j])
}

/// What a cell of an answer holds.
pub enum CellView {
    Named(Seq<char>),
    Blank(Option<int>),
    Literal(Seq<char>),
}

/// Whether a cell shows a bound or unbound value.
pub open spec fn shows(cell: Option<CellView>, value: Option<ObjectView>) -> bool {
    match value {
        Some(ObjectView::Named(iri)) => cell == Some(CellView::Named(iri)),
        Some(ObjectView::Blank(id)) => cell == Some(CellView::Blank(Some(id))),
        Some(ObjectView::Text(text)) => cell == Some(CellView::Literal(text)),
        Some(ObjectView::Integer(_)) => cell matches Some(CellView::Literal(_)),
        None => cell is None,
    }
}

/// The values bound in a solution, in the order of the query's variables.
pub open spec fn bindings(shape: Shape, s: Solution) -> Seq<Option<ObjectView>> {
    seq![Some(ObjectView::Blank(s.node))] + s.required.map_values(|v: ObjectView| Some(v))
        + s.optional + match s.child {
        Some(c) => seq![Some(ObjectView::Blank(c.node))] + c.required.map_values(
            |v: ObjectView| Some(v),
        ) + c.optional,
        None => Seq::new(
            1 + shape.child_required.len() + shape.child_optional.len(),
            |i: int| None::<ObjectView>,
        ),
    }
}

/// Whether a row shows the values `bound`.
pub open spec fn row_shows(row: Seq<Option<CellView>>, bound: Seq<Option<ObjectView>>) -> bool {
    &&& row.len() == bound.len()
    &&& forall|k: int| 0 <= k < bound.len() ==> shows(#[trigger] row[k], bound[k])
}

/// Whether the rows show the solutions, one row each.
pub open spec fn rows_show(
    rows: Seq<Seq<Option<CellView>>>,
    shape: Shape,
    sols: Seq<Solution>,
) -> bool {
    &&& rows.len() == sols.len()
    &&& forall|i: int|
        0 <= i < sols.len() ==> row_shows(#[trigger] rows[i], bindings(shape, sols[i]))
}

/// Whether `rows` answers the query of the shape over the statements `g`.
pub open spec fn answers(g: Set<Triple>, shape: Shape, rows: Seq<Seq<Option<CellView>>>) -> bool {
    exists|sols: Seq<Solution>| #[trigger] lists(g, shape, sols) && rows_show(rows, shape, sols)
}

/// A solution of [`ISSUED_QUERY`].
pub struct IssuedSolution {
    pub batch: int,
    pub credential: int,
    pub values: Seq<ObjectView>,
}

/// Whether `s` is a solution of [`ISSUED_QUERY`] over the statements `g`.
pub open spec fn is_issued_solution(g: Set<Triple>, s: IssuedSolution) -> bool {
    &&& says(g, s.batch, ds_iri("status"@), ObjectView::Text("ISSUED"@))
    &&& says(g, s.batch, ds_iri("hasCredential"@), ObjectView::Blank(s.credential))
    &&& binds(g, s.credential, batch_shape().child_required, s.values)
}

/// Whether `sols` lists every solution of [`ISSUED_QUERY`] once, in any order.
pub open spec fn lists_issued(g: Set<Triple>, sols: Seq<IssuedSolution>) -> bool {
    &&& sols.no_duplicates()
    &&& forall|s: IssuedSolution| #[trigger] sols.contains(s) <==> is_issued_solution(g, s)
}

/// Whether the rows show the solutions of [`ISSUED_QUERY`], one row each.
pub open spec fn rows_show_issued(
    rows: Seq<Seq<Option<CellView>>>,
    sols: Seq<IssuedSolution>,
) -> bool {
    &&& rows.len() == sols.len()
    &&& forall|i: int|
        0 <= i < sols.len() ==> row_shows(
            #[trigger] rows[i],
            sols[i].values.map_values(|v: ObjectView| Some(v)),
        )
}

/// Whether `rows` answers [`ISSUED_QUERY`] over the statements `g`.
pub open spec fn answers_issued(g: Set<Triple>, rows: Seq<Seq<Option<CellView>>>) -> bool {
    exists|sols: Seq<IssuedSolution>| #[trigger] lists_issued(g, sols) && rows_show_issued(rows, sols)
}

} // verus!
