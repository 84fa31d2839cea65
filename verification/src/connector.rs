//! The graph as documents of a generic connector: one per stored batch and one
//! per accepted offer, each under a kind of its own.

use vstd::prelude::*;

use crate::graph::{batch_with_id, offer_with_id, CredentialGraph};
use crate::model::{batches_view, offers_view, AcceptedOffer, BatchView, CredentialBatch, OfferView};
use crate::rdf::CredentialGraphError;
use crate::text::{concat3, same_text};

verus! {

/// The kind of an accepted `CredentialMessage`.
pub const STORED_CREDENTIAL_KIND: &'static str = "ds-identity-hub-rs:stored-credential-batch";

/// The kind of an accepted `CredentialOfferMessage`.
pub const ACCEPTED_OFFER_KIND: &'static str = "ds-identity-hub-rs:accepted-offer";

/// The name of the connector, which is also the source of its documents.
pub const SOURCE_NAME: &'static str = "ds-identity-hub-rs";

/// What a document is about.
#[derive(Debug)]
pub enum Fields {
    Batch(CredentialBatch),
    Offer(AcceptedOffer),
}

/// What [`Fields`] hold.
pub enum FieldsView {
    Batch(BatchView),
    Offer(OfferView),
}

impl View for Fields {
    type V = FieldsView;

    open spec fn view(&self) -> FieldsView {
        match self {
            Fields::Batch(batch) => FieldsView::Batch(batch@),
            Fields::Offer(offer) => FieldsView::Offer(offer@),
        }
    }
}

/// A document of the connector.
#[derive(Debug)]
pub struct Document {
    pub name: String,
    pub remote_id: String,
    pub kind: String,
    pub source: String,
    pub fields: Fields,
}

/// What a [`Document`] holds.
pub struct DocumentView {
    pub name: Seq<char>,
    pub remote_id: Seq<char>,
    pub kind: Seq<char>,
    pub source: Seq<char>,
    pub fields: FieldsView,
}

impl View for Document {
    type V = DocumentView;

    open spec fn view(&self) -> DocumentView {
        DocumentView {
            name: self.name@,
            remote_id: self.remote_id@,
            kind: self.kind@,
            source: self.source@,
            fields: self.fields@,
        }
    }
}

/// What a list of documents holds.
pub open spec fn documents_view(list: Seq<Document>) -> Seq<DocumentView> {
    list.map_values(|d: Document| d@)
}

/// Why the connector refuses.
#[derive(Debug)]
pub enum ConnectorError {
    /// The graph could not be read.
    Graph(CredentialGraphError),
    /// The connector has no documents of this kind.
    UnsupportedKind { connector: String, kind: String },
    /// There is no document of this kind with this id.
    NotFound { kind: String, id: String },
    /// The connector cannot do this.
    Unsupported { connector: String, operation: String },
}

/// The document of a batch.
pub open spec fn batch_document_view(b: BatchView) -> DocumentView {
    DocumentView {
        name: "credential-batch-"@ + b.issuer_pid,
        remote_id: b.id,
        kind: STORED_CREDENTIAL_KIND@,
        source: SOURCE_NAME@,
        fields: FieldsView::Batch(b),
    }
}

/// The document of an offer.
pub open spec fn offer_document_view(o: OfferView) -> DocumentView {
    DocumentView {
        name: "credential-offer-"@ + o.issuer,
        remote_id: o.id,
        kind: ACCEPTED_OFFER_KIND@,
        source: SOURCE_NAME@,
        fields: FieldsView::Offer(o),
    }
}

fn batch_document(batch: CredentialBatch) -> (res: Document)
    ensures
        res@ == batch_document_view(batch@),
{
    Document {
        name: String::from_str("credential-batch-").concat(batch.issuer_pid.as_str()),
        remote_id: batch.id.clone(),
        kind: String::from_str(STORED_CREDENTIAL_KIND),
        source: String::from_str(SOURCE_NAME),
        fields: Fields::Batch(batch),
    }
}

fn offer_document(offer: AcceptedOffer) -> (res: Document)
    ensures
        res@ == offer_document_view(offer@),
{
    Document {
        name: String::from_str("credential-offer-").concat(offer.issuer.as_str()),
        remote_id: offer.id.clone(),
        kind: String::from_str(ACCEPTED_OFFER_KIND),
        source: String::from_str(SOURCE_NAME),
        fields: Fields::Offer(offer),
    }
}

/// The connector to a graph.
pub struct CredentialGraphConnector<'a> {
    pub graph: &'a CredentialGraph,
}

impl<'a> CredentialGraphConnector<'a> {
    pub fn new(graph: &'a CredentialGraph) -> (res: Self)
        ensures
            res.graph == graph,
    {
        CredentialGraphConnector { graph }
    }

    pub fn source_name(&self) -> (res: &'static str)
        ensures
            res@ == SOURCE_NAME@,
    {
        SOURCE_NAME
    }

    /// All documents of a kind, in insertion order. A kind that the connector
    /// does not have is an error, never an empty result.
    pub fn pull(&self, kind: &str) -> (res: Result<Vec<Document>, ConnectorError>)
        requires
            self.graph.wf(),
        ensures
            res is Ok == (kind@ == STORED_CREDENTIAL_KIND@ || kind@ == ACCEPTED_OFFER_KIND@),
            match res {
                Ok(list) => if kind@ == STORED_CREDENTIAL_KIND@ {
                    documents_view(list@) == self.graph@.batches.map_values(
                        |b: BatchView| batch_document_view(b),
                    )
                } else {
                    kind@ == ACCEPTED_OFFER_KIND@ && documents_view(list@)
                        == self.graph@.offers.map_values(|o: OfferView| offer_document_view(o))
                },
                Err(ConnectorError::UnsupportedKind { connector, kind: asked }) => {
                    &&& kind@ != STORED_CREDENTIAL_KIND@ && kind@ != ACCEPTED_OFFER_KIND@
                    &&& connector@ == SOURCE_NAME@
                    &&& asked@ == kind@
                },
                Err(_) => false,
            },
    {
        if same_text(kind, STORED_CREDENTIAL_KIND) {
            let batches = match self.graph.batches() {
                Ok(batches) => batches,
                Err(error) => {
                    return Err(ConnectorError::Graph(error));
                },
            };
            Ok(batch_documents(batches))
        } else if same_text(kind, ACCEPTED_OFFER_KIND) {
            let offers = match self.graph.offers() {
                Ok(offers) => offers,
                Err(error) => {
                    return Err(ConnectorError::Graph(error));
                },
            };
            Ok(offer_documents(offers))
        } else {
            Err(
                ConnectorError::UnsupportedKind {
                    connector: String::from_str(SOURCE_NAME),
                    kind: String::from_str(kind),
                },
            )
        }
    }

    /// The document of a kind with an id.
    pub fn get(&self, kind: &str, remote_id: &str) -> (res: Result<Document, ConnectorError>)
        requires
            self.graph.wf(),
        ensures
            match res {
                Ok(doc) => if kind@ == STORED_CREDENTIAL_KIND@ {
                    batch_with_id(self.graph@.batches, remote_id@) matches Some(b) && doc@
                        == batch_document_view(b)
                } else {
                    kind@ == ACCEPTED_OFFER_KIND@ && (offer_with_id(
                        self.graph@.offers,
                        remote_id@,
                    ) matches Some(o) && doc@ == offer_document_view(o))
                },
                Err(ConnectorError::NotFound { kind: asked, id }) => {
                    &&& asked@ == kind@
                    &&& id@ == remote_id@
                    &&& if kind@ == STORED_CREDENTIAL_KIND@ {
                        batch_with_id(self.graph@.batches, remote_id@) is None
                    } else {
                        kind@ == ACCEPTED_OFFER_KIND@ && offer_with_id(
                            self.graph@.offers,
                            remote_id@,
                        ) is None
                    }
                },
                Err(ConnectorError::UnsupportedKind { connector, kind: asked }) => {
                    &&& kind@ != STORED_CREDENTIAL_KIND@ && kind@ != ACCEPTED_OFFER_KIND@
                    &&& connector@ == SOURCE_NAME@
                    &&& asked@ == kind@
                },
                Err(_) => false,
            },
    {
        if same_text(kind, STORED_CREDENTIAL_KIND) {
            match self.graph.batch(remote_id) {
                Ok(Some(batch)) => Ok(batch_document(batch)),
                Ok(None) => Err(not_found(kind, remote_id)),
                Err(error) => Err(ConnectorError::Graph(error)),
            }
        } else if same_text(kind, ACCEPTED_OFFER_KIND) {
            match self.graph.offer(remote_id) {
                Ok(Some(offer)) => Ok(offer_document(offer)),
                Ok(None) => Err(not_found(kind, remote_id)),
                Err(error) => Err(ConnectorError::Graph(error)),
            }
        } else {
            Err(
                ConnectorError::UnsupportedKind {
                    connector: String::from_str(SOURCE_NAME),
                    kind: String::from_str(kind),
                },
            )
        }
    }

    /// The connector takes no documents: the graph is written by the Storage API
    /// and the Credential Offer API alone.
    pub fn push(&self, kind: &str) -> (res: ConnectorError)
        ensures
            res matches ConnectorError::Unsupported { connector, operation } && connector@
                == SOURCE_NAME@ && operation@ == "push (kind: "@ + kind@ + ")"@,
    {
        ConnectorError::Unsupported {
            connector: String::from_str(SOURCE_NAME),
            operation: concat3("push (kind: ", kind, ")"),
        }
    }
}

fn not_found(kind: &str, id: &str) -> (res: ConnectorError)
    ensures
        res matches ConnectorError::NotFound { kind: k, id: i } && k@ == kind@ && i@ == id@,
{
    ConnectorError::NotFound { kind: String::from_str(kind), id: String::from_str(id) }
}

fn batch_documents(batches: Vec<CredentialBatch>) -> (res: Vec<Document>)
    ensures
        documents_view(res@) == batches_view(batches@).map_values(
            |b: BatchView| batch_document_view(b),
        ),
{
    let ghost all = batches_view(batches@);
    let mut out: Vec<Document> = Vec::new();
    for batch in it: batches
        invariant
            batches_view(it.seq()) == all,
            out@.len() == it.index(),
            forall|k: int| 0 <= k < out@.len() ==> (#[trigger] out@[k])@ == batch_document_view(all[k]),
    {
        proof {
            assert(all[it.index() as int] == batch@);
        }
        out.push(batch_document(batch));
    }
    proof {
        assert(documents_view(out@) =~= all.map_values(|b: BatchView| batch_document_view(b)));
    }
    out
}

fn offer_documents(offers: Vec<AcceptedOffer>) -> (res: Vec<Document>)
    ensures
        documents_view(res@) == offers_view(offers@).map_values(
            |o: OfferView| offer_document_view(o),
        ),
{
    let ghost all = offers_view(offers@);
    let mut out: Vec<Document> = Vec::new();
    for offer in it: offers
        invariant
            offers_view(it.seq()) == all,
            out@.len() == it.index(),
            forall|k: int| 0 <= k < out@.len() ==> (#[trigger] out@[k])@ == offer_document_view(all[k]),
    {
        proof {
            assert(all[it.index() as int] == offer@);
        }
        out.push(offer_document(offer));
    }
    proof {
        assert(documents_view(out@) =~= all.map_values(|o: OfferView| offer_document_view(o)));
    }
    out
}

/// The two kinds are apart.
pub proof fn law_kinds_are_apart()
    ensures
        STORED_CREDENTIAL_KIND@ != ACCEPTED_OFFER_KIND@,
{
    reveal_strlit("ds-identity-hub-rs:stored-credential-batch");
    reveal_strlit("ds-identity-hub-rs:accepted-offer");
    assert(STORED_CREDENTIAL_KIND@[19] == 's');
    assert(ACCEPTED_OFFER_KIND@[19] == 'a');
}

/// A batch's document carries the batch under its id and kind, and an offer's
/// carries the offer, each named after whom it is from.
pub proof fn law_documents_carry_what_they_are_about(b: BatchView, o: OfferView)
    ensures
        batch_document_view(b).name == "credential-batch-"@ + b.issuer_pid,
        batch_document_view(b).remote_id == b.id,
        batch_document_view(b).kind == "ds-identity-hub-rs:stored-credential-batch"@,
        batch_document_view(b).source == "ds-identity-hub-rs"@,
        batch_document_view(b).fields == FieldsView::Batch(b),
        offer_document_view(o).name == "credential-offer-"@ + o.issuer,
        offer_document_view(o).remote_id == o.id,
        offer_document_view(o).kind == "ds-identity-hub-rs:accepted-offer"@,
        offer_document_view(o).source == "ds-identity-hub-rs"@,
        offer_document_view(o).fields == FieldsView::Offer(o),
{
}

/// Documents read as they stand, item by item.
pub proof fn law_documents_read_as_they_stand(list: Seq<Document>, i: int)
    requires
        0 <= i < list.len(),
    ensures
        documents_view(list).len() == list.len(),
        documents_view(list)[i].name == list[i].name@,
        documents_view(list)[i].remote_id == list[i].remote_id@,
        documents_view(list)[i].kind == list[i].kind@,
        documents_view(list)[i].source == list[i].source@,
        list[i].fields matches Fields::Batch(batch) ==> documents_view(list)[i].fields
            == FieldsView::Batch(batch@),
        list[i].fields matches Fields::Offer(offer) ==> documents_view(list)[i].fields
            == FieldsView::Offer(offer@),
{
}

} // verus!
