//! The graph's own domain types: what is handed to it, and what is read back.

use vstd::prelude::*;

use crate::json::{JsonValue, JsonView};
use crate::text::{copy_optional, optional_text};

verus! {

/// One entry of the `credentials` array of an accepted `CredentialMessage`.
#[derive(Debug)]
pub struct CredentialEntry {
    pub credential_type: String,
    pub payload: JsonValue,
    pub format: String,
}

/// What a [`CredentialEntry`] holds.
pub struct EntryView {
    pub credential_type: Seq<char>,
    pub payload: JsonView,
    pub format: Seq<char>,
}

impl View for CredentialEntry {
    type V = EntryView;

    open spec fn view(&self) -> EntryView {
        EntryView {
            credential_type: self.credential_type@,
            payload: self.payload@,
            format: self.format@,
        }
    }
}

/// What a list of [`CredentialEntry`] holds.
pub open spec fn entries_view(list: Seq<CredentialEntry>) -> Seq<EntryView> {
    list.map_values(|e: CredentialEntry| e@)
}

/// One accepted `CredentialMessage`, before the graph mints an id for it.
#[derive(Debug)]
pub struct NewCredentialBatch {
    pub issuer_pid: String,
    pub holder_pid: Option<String>,
    pub status: String,
    pub rejection_reason: Option<String>,
    pub credentials: Vec<CredentialEntry>,
}

/// One stored batch: a [`NewCredentialBatch`] and the id minted for it.
#[derive(Debug)]
pub struct CredentialBatch {
    pub id: String,
    pub issuer_pid: String,
    pub holder_pid: Option<String>,
    pub status: String,
    pub rejection_reason: Option<String>,
    pub credentials: Vec<CredentialEntry>,
}

/// What a [`CredentialBatch`] holds.
pub struct BatchView {
    pub id: Seq<char>,
    pub issuer_pid: Seq<char>,
    pub holder_pid: Option<Seq<char>>,
    pub status: Seq<char>,
    pub rejection_reason: Option<Seq<char>>,
    pub credentials: Seq<EntryView>,
}

impl View for CredentialBatch {
    type V = BatchView;

    open spec fn view(&self) -> BatchView {
        BatchView {
            id: self.id@,
            issuer_pid: self.issuer_pid@,
            holder_pid: optional_text(self.holder_pid),
            status: self.status@,
            rejection_reason: optional_text(self.rejection_reason),
            credentials: entries_view(self.credentials@),
        }
    }
}

/// What a list of [`CredentialBatch`] holds.
pub open spec fn batches_view(list: Seq<CredentialBatch>) -> Seq<BatchView> {
    list.map_values(|b: CredentialBatch| b@)
}

/// One `CredentialObject` reference inside an accepted
/// `CredentialOfferMessage`.
#[derive(Debug)]
pub struct OfferedCredential {
    pub id: String,
    pub credential_type: Option<String>,
}

/// What an [`OfferedCredential`] holds.
pub struct OfferedView {
    pub id: Seq<char>,
    pub credential_type: Option<Seq<char>>,
}

impl View for OfferedCredential {
    type V = OfferedView;

    open spec fn view(&self) -> OfferedView {
        OfferedView { id: self.id@, credential_type: optional_text(self.credential_type) }
    }
}

/// What a list of [`OfferedCredential`] holds.
pub open spec fn offered_view(list: Seq<OfferedCredential>) -> Seq<OfferedView> {
    list.map_values(|o: OfferedCredential| o@)
}

/// One accepted `CredentialOfferMessage`, before the graph mints an id for it.
#[derive(Debug)]
pub struct NewAcceptedOffer {
    pub issuer: String,
    pub credentials: Vec<OfferedCredential>,
}

/// One accepted offer, read back from the graph.
#[derive(Debug)]
pub struct AcceptedOffer {
    pub id: String,
    pub issuer: String,
    pub credentials: Vec<OfferedCredential>,
}

/// What an [`AcceptedOffer`] holds.
pub struct OfferView {
    pub id: Seq<char>,
    pub issuer: Seq<char>,
    pub credentials: Seq<OfferedView>,
}

impl View for AcceptedOffer {
    type V = OfferView;

    open spec fn view(&self) -> OfferView {
        OfferView {
            id: self.id@,
            issuer: self.issuer@,
            credentials: offered_view(self.credentials@),
        }
    }
}

/// What a list of [`AcceptedOffer`] holds.
pub open spec fn offers_view(list: Seq<AcceptedOffer>) -> Seq<OfferView> {
    list.map_values(|o: AcceptedOffer| o@)
}

impl Clone for CredentialEntry {
    fn clone(&self) -> (res: Self)
        ensures
            res@ == self@,
    {
        CredentialEntry {
            credential_type: self.credential_type.clone(),
            payload: self.payload.clone(),
            format: self.format.clone(),
        }
    }
}

impl Clone for OfferedCredential {
    fn clone(&self) -> (res: Self)
        ensures
            res@ == self@,
    {
        OfferedCredential {
            id: self.id.clone(),
            credential_type: copy_optional(&self.credential_type),
        }
    }
}

/// A batch reads as it stands: its id, its fields, and its credentials in order.
pub proof fn law_batches_read_as_they_stand(batch: CredentialBatch, i: int)
    ensures
        batch@.id == batch.id@,
        batch@.issuer_pid == batch.issuer_pid@,
        batch@.holder_pid is Some == batch.holder_pid is Some,
        batch.holder_pid matches Some(text) ==> batch@.holder_pid == Some(text@),
        batch@.status == batch.status@,
        batch@.rejection_reason is Some == batch.rejection_reason is Some,
        batch.rejection_reason matches Some(text) ==> batch@.rejection_reason == Some(text@),
        batch@.credentials.len() == batch.credentials@.len(),
        0 <= i < batch.credentials@.len() ==> {
            &&& batch@.credentials[i].credential_type == batch.credentials@[i].credential_type@
            &&& batch@.credentials[i].payload == batch.credentials@[i].payload@
            &&& batch@.credentials[i].format == batch.credentials@[i].format@
        },
{
}

/// An offer reads as it stands: its id, its issuer, and what it offers in order.
pub proof fn law_offers_read_as_they_stand(offer: AcceptedOffer, i: int)
    ensures
        offer@.id == offer.id@,
        offer@.issuer == offer.issuer@,
        offer@.credentials.len() == offer.credentials@.len(),
        0 <= i < offer.credentials@.len() ==> {
            &&& offer@.credentials[i].id == offer.credentials@[i].id@
            &&& offer@.credentials[i].credential_type is Some
                == offer.credentials@[i].credential_type is Some
            &&& offer.credentials@[i].credential_type matches Some(text)
                ==> offer@.credentials[i].credential_type == Some(text@)
        },
{
}

/// Lists of batches and of offers read item by item.
pub proof fn law_lists_read_item_by_item(
    batches: Seq<CredentialBatch>,
    offers: Seq<AcceptedOffer>,
    i: int,
)
    ensures
        batches_view(batches).len() == batches.len(),
        0 <= i < batches.len() ==> batches_view(batches)[i] == batches[i]@,
        offers_view(offers).len() == offers.len(),
        0 <= i < offers.len() ==> offers_view(offers)[i] == offers[i]@,
{
}

} // verus!
