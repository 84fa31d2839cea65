//! The RDF store beneath the graph: statements on blank nodes, and what the
//! outside store does with them.

use oxigraph::model::{BlankNode, GraphName, IriParseError, Literal, NamedNode, Quad, Term};
use oxigraph::sparql::{QueryEvaluationError, QueryResults, SparqlEvaluator, SparqlSyntaxError};
use oxigraph::store::{StorageError, Store};
use vstd::prelude::*;

use crate::query::{
    answers, answers_issued, batch_shape, offer_shape, order_iri, CellView, BATCHES_QUERY,
    ISSUED_QUERY, OFFERS_QUERY,
};
use crate::vocab::is_term_iri;

verus! {

#[verifier::external_type_specification]
#[verifier::external_body]
pub struct ExStore(Store);

#[verifier::external_type_specification]
#[verifier::external_body]
pub struct ExStorageError(StorageError);

#[verifier::external_type_specification]
#[verifier::external_body]
pub struct ExIriParseError(IriParseError);

#[verifier::external_type_specification]
#[verifier::external_body]
pub struct ExQueryEvaluationError(QueryEvaluationError);

#[verifier::external_type_specification]
#[verifier::external_body]
pub struct ExSparqlSyntaxError(SparqlSyntaxError);

/// Why the graph could not be read or written.
#[derive(Debug)]
pub enum CredentialGraphError {
    /// A term's IRI is not valid.
    Iri(IriParseError),
    /// The store failed.
    Storage(StorageError),
    /// A query could not be evaluated.
    Query(QueryEvaluationError),
    /// A query could not be parsed.
    Syntax(SparqlSyntaxError),
}

/// The object of a statement.
#[derive(Debug)]
pub enum Object {
    /// An IRI.
    Named(String),
    /// A blank node, by its number.
    Blank(u128),
    /// A plain string literal.
    Text(String),
    /// An `xsd:integer` literal.
    Integer(u64),
}

/// A statement on a blank node of the default graph.
#[derive(Debug)]
pub struct Statement {
    pub subject: u128,
    pub predicate: String,
    pub object: Object,
}

/// What an [`Object`] holds.
pub enum ObjectView {
    Named(Seq<char>),
    Blank(int),
    Text(Seq<char>),
    Integer(int),
}

/// What a [`Statement`] says.
pub struct Triple {
    pub subject: int,
    pub predicate: Seq<char>,
    pub object: ObjectView,
}

impl View for Object {
    type V = ObjectView;

    open spec fn view(&self) -> ObjectView {
        match self {
            Object::Named(iri) => ObjectView::Named(iri@),
            Object::Blank(id) => ObjectView::Blank(*id as int),
            Object::Text(text) => ObjectView::Text(text@),
            Object::Integer(n) => ObjectView::Integer(*n as int),
        }
    }
}

impl View for Statement {
    type V = Triple;

    open spec fn view(&self) -> Triple {
        Triple {
            subject: self.subject as int,
            predicate: self.predicate@,
            object: self.object@,
        }
    }
}

/// What a list of statements says.
pub open spec fn triples(list: Seq<Statement>) -> Set<Triple> {
    list.map_values(|s: Statement| s@).to_set()
}

/// Whether every IRI in a statement is that of a term.
pub open spec fn in_vocabulary(t: Triple) -> bool {
    is_term_iri(t.predicate) && (t.object matches ObjectView::Named(iri) ==> is_term_iri(iri))
}

/// Statements are made in terms alone where all they say is.
pub proof fn lemma_statements_in_vocabulary(list: Seq<Statement>)
    requires
        forall|t: Triple| #[trigger] triples(list).contains(t) ==> in_vocabulary(t),
    ensures
        forall|i: int| 0 <= i < list.len() ==> in_vocabulary((#[trigger] list[i])@),
{
    assert forall|i: int| 0 <= i < list.len() implies in_vocabulary((#[trigger] list[i])@) by {
        let views = list.map_values(|s: Statement| s@);
        assert(views[i] == list[i]@);
        assert(triples(list).contains(list[i]@));
    }
}

/// The statements that a store holds in its default graph.
pub uninterp spec fn stored(store: Store) -> Set<Triple>;

/// Calls `oxigraph::store::Store::new`, which always gives a fresh in-memory
/// store. It holds nothing.
#[verifier::external_body]
pub(crate) fn open_store() -> (res: Result<Store, StorageError>)
    ensures
        res is Ok,
        res matches Ok(store) ==> stored(store) == Set::<Triple>::empty(),
{
    Store::new()
}

/// Calls `oxigraph::store::Store::extend`, which adds a set of quads atomically:
/// after a failure the store holds what it held. A store in memory, the only one
/// there is without the `rocksdb` feature, takes every quad; what can fail is
/// `NamedNode::new` on a text that is not an IRI, and a namespace followed by
/// letters is one.
#[verifier::external_body]
pub(crate) fn insert_statements(store: &mut Store, added: &Vec<Statement>) -> (res: Result<
    (),
    CredentialGraphError,
>)
    ensures
        (forall|i: int| 0 <= i < added@.len() ==> in_vocabulary((#[trigger] added@[i])@))
            ==> res is Ok,
        res is Ok ==> stored(*final(store)) == stored(*old(store)).union(triples(added@)),
        res is Err ==> stored(*final(store)) == stored(*old(store)),
{
    let mut quads: Vec<Quad> = Vec::new();
    for item in added {
        let object: Term = match &item.object {
            Object::Named(iri) => NamedNode::new(iri).map_err(CredentialGraphError::Iri)?.into(),
            Object::Blank(id) => BlankNode::new_from_unique_id(*id).into(),
            Object::Text(text) => Literal::new_simple_literal(text).into(),
            Object::Integer(n) => Literal::from(*n).into(),
        };
        let subject = BlankNode::new_from_unique_id(item.subject);
        let predicate = NamedNode::new(&item.predicate).map_err(CredentialGraphError::Iri)?;
        quads.push(Quad::new(subject, predicate, object, GraphName::DefaultGraph));
    }
    store.extend(quads).map_err(CredentialGraphError::Storage)
}

/// Calls `quads_for_pattern` and `remove` on an `oxigraph::store::Transaction`,
/// which is atomic: once committed, every statement on one of the nodes is gone
/// and no other. On a store in memory none of these calls fails: it keeps every
/// text it was ever given, so each quad can be decoded.
#[verifier::external_body]
pub(crate) fn remove_nodes(store: &mut Store, nodes: &Vec<u128>) -> (res: Result<
    (),
    StorageError,
>)
    ensures
        res is Ok,
        stored(*final(store)) == stored(*old(store)).filter(
            |t: Triple| !is_listed(nodes@, t.subject),
        ),
{
    let mut transaction = store.start_transaction()?;
    for node in nodes {
        let subject = BlankNode::new_from_unique_id(*node);
        let found = transaction.quads_for_pattern(Some(subject.as_ref().into()), None, None, None);
        for quad in found.collect::<Result<Vec<_>, _>>()? {
            transaction.remove(&quad);
        }
    }
    transaction.commit()
}

/// Whether a list of node numbers holds `id`.
pub open spec fn is_listed(nodes: Seq<u128>, id: int) -> bool {
    exists|k: int| 0 <= k < nodes.len() && #[trigger] nodes[k] == id
}

/// A bound value in an answer.
#[derive(Debug)]
pub enum Cell {
    /// An IRI.
    Named(String),
    /// A blank node, by its number where it has one.
    Blank(Option<u128>),
    /// A literal, by its lexical form.
    Literal(String),
}

impl View for Cell {
    type V = CellView;

    open spec fn view(&self) -> CellView {
        match self {
            Cell::Named(iri) => CellView::Named(iri@),
            Cell::Blank(Some(id)) => CellView::Blank(Some(*id as int)),
            Cell::Blank(None) => CellView::Blank(None),
            Cell::Literal(text) => CellView::Literal(text@),
        }
    }
}

/// What an optional cell holds.
pub open spec fn cell_view(cell: Option<Cell>) -> Option<CellView> {
    match cell {
        Some(c) => Some(c@),
        None => None,
    }
}

/// What the rows of an answer hold.
pub open spec fn rows_view(rows: Seq<Vec<Option<Cell>>>) -> Seq<Seq<Option<CellView>>> {
    rows.map_values(|row: Vec<Option<Cell>>| row@.map_values(|c: Option<Cell>| cell_view(c)))
}

/// Whether every `ds:order` is an integer that the store compares by value.
pub open spec fn orders_are_integers(g: Set<Triple>) -> bool {
    forall|t: Triple| #[trigger]
        g.contains(t) && t.predicate == order_iri() ==> (t.object matches ObjectView::Integer(n)
            && 0 <= n <= i64::MAX)
}

/// Calls `oxigraph::sparql::SparqlEvaluator` on a query. Each of the graph's
/// queries is answered as SPARQL defines it: the rows are the projected
/// solutions, each solution once, sorted by value where the query orders them.
/// They are well-formed, and use no service, function or named graph, so that
/// their evaluation could fail only by the store; one in memory does not.
#[verifier::external_body]
pub(crate) fn select(store: &Store, query: &str) -> (res: Result<
    Vec<Vec<Option<Cell>>>,
    CredentialGraphError,
>)
    requires
        orders_are_integers(stored(*store)),
    ensures
        query@ == BATCHES_QUERY@ || query@ == OFFERS_QUERY@ || query@ == ISSUED_QUERY@
            ==> res is Ok,
        res matches Ok(rows) ==> {
            &&& query@ == BATCHES_QUERY@ ==> answers(stored(*store), batch_shape(), rows_view(rows@))
            &&& query@ == OFFERS_QUERY@ ==> answers(stored(*store), offer_shape(), rows_view(rows@))
            &&& query@ == ISSUED_QUERY@ ==> answers_issued(stored(*store), rows_view(rows@))
        },
{
    let prepared = SparqlEvaluator::new().parse_query(query).map_err(CredentialGraphError::Syntax)?;
    let results = prepared.on_store(store).execute().map_err(CredentialGraphError::Query)?;
    let mut rows = Vec::new();
    if let QueryResults::Solutions(solutions) = results {
        for solution in solutions {
            let solution = solution.map_err(CredentialGraphError::Query)?;
            rows.push(solution.values().iter().map(|value| value.as_ref().map(|term| match term {
                Term::NamedNode(node) => Cell::Named(node.as_str().to_string()),
                Term::BlankNode(node) => Cell::Blank(node.as_ref().unique_id()),
                Term::Literal(literal) => Cell::Literal(literal.value().to_string()),
            })).collect());
        }
    }
    Ok(rows)
}

} // verus!
