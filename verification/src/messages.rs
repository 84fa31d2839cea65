//! DCP message shapes: the Verifiable Presentation Protocol and the Credential
//! Issuance Protocol.

use vstd::prelude::*;

use crate::json::JsonValue;
use crate::text::texts;

verus! {

/// The DCP JSON-LD `@context` URI.
pub const DCP_CONTEXT: &'static str = "https://w3id.org/dspace-dcp/v1.0/dcp.jsonld";

/// `@context` of a W3C Verifiable Presentation or Credential.
pub const VC_CONTEXT: &'static str = "https://www.w3.org/2018/credentials/v1";

/// The `@context` array of every DCP message.
pub fn dcp_context() -> (res: Vec<String>)
    ensures
        texts(res@) == seq![DCP_CONTEXT@],
{
    let mut context: Vec<String> = Vec::new();
    context.push(String::from_str(DCP_CONTEXT));
    proof {
        assert(texts(context@) =~= seq![DCP_CONTEXT@]);
    }
    context
}

/// `POST /presentations/query` request body.
#[derive(Debug)]
pub struct PresentationQueryMessage {
    pub context: Vec<String>,
    pub message_type: String,
    pub scope: Vec<String>,
    pub presentation_definition: Option<JsonValue>,
}

/// `POST /presentations/query` response body.
#[derive(Debug)]
pub struct PresentationResponseMessage {
    pub context: Vec<String>,
    pub message_type: String,
    pub presentation: Vec<String>,
    pub presentation_submission: Option<JsonValue>,
}

impl PresentationResponseMessage {
    pub fn new(presentation: Vec<String>) -> (res: Self)
        ensures
            texts(res.context@) == seq![DCP_CONTEXT@],
            res.message_type@ == "PresentationResponseMessage"@,
            res.presentation == presentation,
            res.presentation_submission is None,
    {
        PresentationResponseMessage {
            context: dcp_context(),
            message_type: String::from_str("PresentationResponseMessage"),
            presentation,
            presentation_submission: None,
        }
    }
}

/// One entry of a [`CredentialMessage`]'s `credentials` array.
#[derive(Debug)]
pub struct CredentialContainer {
    pub credential_type: String,
    pub payload: JsonValue,
    pub format: String,
}

/// `POST /credentials` request body on the Storage API (Issuer Service to
/// Credential Service). Every field but `rejection_reason` is required of the
/// sender; `credentials` may be empty.
#[derive(Debug)]
pub struct CredentialMessage {
    pub context: Vec<String>,
    pub message_type: String,
    pub issuer_pid: String,
    pub holder_pid: String,
    pub status: String,
    pub credentials: Vec<CredentialContainer>,
    pub rejection_reason: Option<String>,
}

pub fn credential_message_type() -> (res: String)
    ensures
        res@ == "CredentialMessage"@,
{
    String::from_str("CredentialMessage")
}

/// A reference into the Issuer's `credentialsSupported` list, by id.
#[derive(Debug)]
pub struct CredentialRef {
    pub id: String,
}

/// `POST /credentials` request body on the Credential Request API (a potential
/// Holder to Issuer Service).
#[derive(Debug)]
pub struct CredentialRequestMessage {
    pub context: Vec<String>,
    pub message_type: String,
    pub holder_pid: String,
    pub credentials: Vec<CredentialRef>,
}

pub fn credential_request_message_type() -> (res: String)
    ensures
        res@ == "CredentialRequestMessage"@,
{
    String::from_str("CredentialRequestMessage")
}

/// `GET /requests/<id>` response body.
#[derive(Debug)]
pub struct CredentialStatus {
    pub context: Vec<String>,
    pub message_type: String,
    pub issuer_pid: String,
    pub holder_pid: String,
    pub status: String,
}

pub fn credential_status_type() -> (res: String)
    ensures
        res@ == "CredentialStatus"@,
{
    String::from_str("CredentialStatus")
}

impl CredentialStatus {
    pub fn new(issuer_pid: String, holder_pid: String, status: &str) -> (res: Self)
        ensures
            texts(res.context@) == seq![DCP_CONTEXT@],
            res.message_type@ == "CredentialStatus"@,
            res.issuer_pid@ == issuer_pid@,
            res.holder_pid@ == holder_pid@,
            res.status@ == status@,
    {
        CredentialStatus {
            context: dcp_context(),
            message_type: credential_status_type(),
            issuer_pid,
            holder_pid,
            status: String::from_str(status),
        }
    }
}

/// A credential that an issuer offers or supports.
#[derive(Debug)]
pub struct CredentialObject {
    pub context: Option<Vec<String>>,
    pub id: String,
    pub object_type: String,
    pub credential_type: Option<String>,
    pub binding_methods: Option<Vec<String>>,
    pub credential_schema: Option<String>,
    pub profile: Option<String>,
    pub issuance_policy: Option<JsonValue>,
    pub offer_reason: Option<String>,
}

pub fn credential_object_type() -> (res: String)
    ensures
        res@ == "CredentialObject"@,
{
    String::from_str("CredentialObject")
}

/// `POST /offers` request body (Credential Issuer to Credential Service).
#[derive(Debug)]
pub struct CredentialOfferMessage {
    pub context: Vec<String>,
    pub message_type: String,
    pub issuer: String,
    pub credentials: Vec<CredentialObject>,
}

pub fn credential_offer_message_type() -> (res: String)
    ensures
        res@ == "CredentialOfferMessage"@,
{
    String::from_str("CredentialOfferMessage")
}

/// `GET /metadata` response body.
#[derive(Debug)]
pub struct IssuerMetadata {
    pub context: Vec<String>,
    pub message_type: String,
    pub issuer: String,
    pub credentials_supported: Option<Vec<CredentialObject>>,
}

impl IssuerMetadata {
    pub fn new(issuer: String, credentials_supported: Vec<CredentialObject>) -> (res: Self)
        ensures
            texts(res.context@) == seq![DCP_CONTEXT@],
            res.message_type@ == "IssuerMetadata"@,
            res.issuer@ == issuer@,
            res.credentials_supported == Some(credentials_supported),
    {
        IssuerMetadata {
            context: dcp_context(),
            message_type: String::from_str("IssuerMetadata"),
            issuer,
            credentials_supported: Some(credentials_supported),
        }
    }
}

} // verus!
