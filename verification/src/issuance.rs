//! The Issuer Service: it takes credential requests, delivers what it issues to
//! the holder's Credential Service, and answers for the status of a request.

use vstd::prelude::*;

use crate::evidence::{Claims, ClaimsView};
use crate::identity::ServiceIdentity;
use crate::ids::{fresh_id, is_uuid};
use crate::json::{JsonValue, JsonView};
use crate::messages::{
    credential_message_type, dcp_context, CredentialContainer, CredentialMessage, CredentialObject,
    CredentialRef, CredentialRequestMessage, CredentialStatus, IssuerMetadata, DCP_CONTEXT,
    VC_CONTEXT,
};
use crate::outbound::{did_refusal, location_view, outbound_message, url_parts, url_refusal};
use crate::reply::Reply;
use crate::requests::{
    entered, ids_unique, law_entered_request_is_tracked, lemma_entered_unique, record_of, tracks,
    tracks_at, with_status, RecordView, RequestRecord,
};
use crate::state::AppState;
use crate::sts::IdTokenClaims;
use crate::text::{concat3, copy_optional, copy_texts, optional_text, texts};

verus! {

/// How long a delivery's own token is valid.
pub const DELIVERY_TOKEN_TTL_SECS: u64 = 300;

/// How long an issued credential is valid.
pub const CREDENTIAL_TTL_SECS: u64 = 3600;

/// What is needed to deliver a credential that was asked for.
#[derive(Debug)]
pub struct DeliveryJob {
    pub request_id: String,
    pub holder_pid: String,
    pub holder_did: String,
    /// The access token that the holder's own token carried, which the delivery
    /// must carry back.
    pub delivery_bearer: Option<String>,
}

/// What is decided of a credential request.
#[derive(Debug)]
pub enum RequestOutcome {
    /// Refuse the request with this reply.
    Refuse(Reply),
    /// Answer 201 with this `Location`, and deliver.
    Accepted(String, DeliveryJob),
}

/// Whether a request asks for something, and for nothing but the credential with
/// this id.
pub open spec fn asks_only_for(credentials: Seq<CredentialRef>, id: Seq<char>) -> bool {
    credentials.len() > 0 && forall|i: int|
        0 <= i < credentials.len() ==> (#[trigger] credentials[i]).id@ == id
}

/// Why a request is refused, by HTTP status and body; `None` where it is
/// accepted.
pub open spec fn request_refusal(
    supported: CredentialObject,
    claims: ClaimsView,
    message: CredentialRequestMessage,
) -> Option<(u16, Seq<char>)> {
    if claims.sub is None {
        Some((400, "token has no sub claim"@))
    } else if !asks_only_for(message.credentials@, supported.id@) {
        Some(
            (
                400,
                "unknown credential id: only '"@ + supported.id@
                    + "' is supported by this bootstrap"@,
            ),
        )
    } else {
        None
    }
}

/// Whether a job delivers what a request asked for.
pub open spec fn is_job_for(
    job: DeliveryJob,
    claims: ClaimsView,
    message: CredentialRequestMessage,
) -> bool {
    &&& job.holder_pid@ == message.holder_pid@
    &&& Some(job.holder_did@) == claims.sub
    &&& optional_text(job.delivery_bearer) == claims.token
}

/// The record that a request is tracked by when it is accepted.
pub open spec fn received(id: Seq<char>, message: CredentialRequestMessage) -> RecordView {
    RecordView { issuer_pid: id, holder_pid: message.holder_pid@, status: "RECEIVED"@ }
}

/// Whether nothing but the tracked requests differs between two states.
pub open spec fn same_but_requests(a: AppState, b: AppState) -> bool {
    &&& a.config == b.config
    &&& a.identity == b.identity
    &&& a.sts_party == b.sts_party
    &&& a.sts_config == b.sts_config
    &&& a.scope_matcher == b.scope_matcher
    &&& a.store == b.store
    &&& a.supported_credential == b.supported_credential
    &&& a.outbound == b.outbound
    &&& a.seen_jti == b.seen_jti
}

/// Whether a request asks for something, and for nothing but the credential with
/// this id.
fn only_asks_for(credentials: &Vec<CredentialRef>, id: &String) -> (res: bool)
    ensures
        res == asks_only_for(credentials@, id@),
{
    let mut i: usize = 0;
    while i < credentials.len()
        invariant
            i <= credentials@.len(),
            forall|k: int| 0 <= k < i ==> (#[trigger] credentials@[k]).id@ == id@,
        decreases credentials.len() - i,
    {
        if credentials[i].id != *id {
            return false;
        }
        i = i + 1;
    }
    credentials.len() > 0
}

/// Whether an outcome is what a credential request comes to, and the tracked
/// requests are as it leaves them: only a request that is accepted changes them.
pub open spec fn is_request_outcome(
    outcome: RequestOutcome,
    before: AppState,
    after: AppState,
    claims: ClaimsView,
    message: CredentialRequestMessage,
) -> bool {
    let refusal = request_refusal(before.supported_credential, claims, message);
    match outcome {
        RequestOutcome::Refuse(reply) => {
            &&& refusal == Some((reply.status, reply.body@))
            &&& after.requests == before.requests
        },
        RequestOutcome::Accepted(location, job) => {
            &&& refusal is None
            &&& is_uuid(job.request_id@)
            &&& is_job_for(job, claims, message)
            &&& location@ == "/requests/"@ + job.request_id@
            &&& after.requests@ == entered(
                before.requests@,
                job.request_id@,
                received(job.request_id@, message),
            )
        },
    }
}

/// Takes a `CredentialRequestMessage` of a caller whose own token was accepted.
/// An accepted request is tracked under a fresh id, as received.
pub fn credential_request(
    state: &mut AppState,
    claims: &Claims,
    message: &CredentialRequestMessage,
) -> (res: RequestOutcome)
    requires
        old(state).wf(),
    ensures
        final(state).wf(),
        same_but_requests(*final(state), *old(state)),
        is_request_outcome(res, *old(state), *final(state), claims@, *message),
{
    let holder_did = match &claims.sub {
        Some(did) => did.clone(),
        None => {
            return RequestOutcome::Refuse(Reply::new(400, "token has no sub claim"));
        },
    };
    if !only_asks_for(&message.credentials, &state.supported_credential.id) {
        let body = concat3(
            "unknown credential id: only '",
            state.supported_credential.id.as_str(),
            "' is supported by this bootstrap",
        );
        return RequestOutcome::Refuse(Reply { status: 400, body });
    }
    let request_id = fresh_id();
    let record = RequestRecord {
        issuer_pid: request_id.clone(),
        holder_pid: message.holder_pid.clone(),
        status: String::from_str("RECEIVED"),
    };
    state.requests.insert(request_id.clone(), record);
    let location = String::from_str("/requests/").concat(request_id.as_str());
    RequestOutcome::Accepted(
        location,
        DeliveryJob {
            request_id,
            holder_pid: message.holder_pid.clone(),
            holder_did,
            delivery_bearer: copy_optional(&claims.token),
        },
    )
}

/// The claims of an issued credential.
#[derive(Debug)]
pub struct CredentialClaims {
    pub iss: String,
    pub sub: String,
    pub context: Vec<String>,
    pub types: Vec<String>,
    /// The `id` of the credential's subject.
    pub subject_id: String,
    pub iat: u64,
    pub exp: u64,
    pub jti: String,
}

/// The type that a credential has besides `VerifiableCredential`.
pub open spec fn own_type(credential_type: Option<Seq<char>>) -> Seq<char> {
    match credential_type {
        Some(t) => t,
        None => "VerifiableCredential"@,
    }
}

/// Whether these are the claims of the credential that an issuer issues to a
/// holder.
pub open spec fn is_credential(
    claims: CredentialClaims,
    issuer: Seq<char>,
    holder: Seq<char>,
    credential_type: Option<Seq<char>>,
    now: u64,
) -> bool {
    &&& claims.iss@ == issuer
    &&& claims.sub@ == holder
    &&& texts(claims.context@) == seq![VC_CONTEXT@]
    &&& texts(claims.types@) == seq!["VerifiableCredential"@, own_type(credential_type)]
    &&& claims.subject_id@ == holder
    &&& claims.iat == now
    &&& claims.exp == now + CREDENTIAL_TTL_SECS
    &&& is_uuid(claims.jti@)
}

/// Whether these are the claims of the token that a delivery carries.
pub open spec fn is_delivery_token(
    claims: IdTokenClaims,
    issuer: Seq<char>,
    job: DeliveryJob,
    now: u64,
) -> bool {
    &&& claims.iss@ == issuer
    &&& claims.sub@ == issuer
    &&& claims.aud@ == job.holder_did@
    &&& claims.iat == now
    &&& claims.nbf == now
    &&& claims.exp == now + DELIVERY_TOKEN_TTL_SECS
    &&& is_uuid(claims.jti@)
    &&& optional_text(claims.token) == optional_text(job.delivery_bearer)
}

/// Whether a message delivers the signed credential of a job.
pub open spec fn is_delivery(
    message: CredentialMessage,
    job: DeliveryJob,
    credential_type: Option<Seq<char>>,
    jws: Seq<char>,
) -> bool {
    &&& texts(message.context@) == seq![DCP_CONTEXT@]
    &&& message.message_type@ == "CredentialMessage"@
    &&& message.issuer_pid@ == job.request_id@
    &&& message.holder_pid@ == job.holder_pid@
    &&& message.status@ == "ISSUED"@
    &&& message.credentials@.len() == 1
    &&& message.credentials@[0].credential_type@ == (match credential_type {
        Some(t) => t,
        None => Seq::empty(),
    })
    &&& message.credentials@[0].payload@ == JsonView::Text(jws)
    &&& message.credentials@[0].format@ == "jwt"@
    &&& message.rejection_reason is None
}

/// The reply of the holder's Storage API.
#[derive(Debug)]
pub enum DeliveryReply {
    /// The request failed.
    Failed(String),
    /// The endpoint answered with this unsuccessful HTTP status.
    Status(String),
    /// The endpoint took the delivery.
    Taken,
}

/// What is known so far of a delivery.
#[derive(Debug)]
pub struct DeliveryEvidence {
    /// The URL at which the holder's DID resolves, or why there is none.
    pub location: Option<Result<String, String>>,
    /// The endpoint of the holder's `CredentialService` in its DID document, or
    /// why there is none.
    pub endpoint: Option<Result<String, String>>,
    /// The signed credential.
    pub credential: Option<String>,
    /// The signed token that the delivery carries.
    pub token: Option<String>,
    /// The reply of the holder's Storage API.
    pub reply: Option<DeliveryReply>,
}

impl DeliveryEvidence {
    /// Nothing is known yet.
    pub fn new() -> (res: Self)
        ensures
            res.location is None,
            res.endpoint is None,
            res.credential is None,
            res.token is None,
            res.reply is None,
    {
        DeliveryEvidence { location: None, endpoint: None, credential: None, token: None, reply: None }
    }
}

/// What is to be done next for a delivery.
#[derive(Debug)]
pub enum DeliveryStep {
    /// Find the URL at which this DID resolves, without resolving it.
    Locate(String),
    /// Resolve this DID and find its `CredentialService` endpoint.
    Resolve(String),
    /// Sign this credential.
    SignCredential(CredentialClaims),
    /// Sign this token.
    SignToken(IdTokenClaims),
    /// Post this message to this URL, with this bearer token.
    Post(String, String, CredentialMessage),
    /// The credential is delivered.
    Delivered,
    /// The delivery failed for this reason.
    Failed(String),
}

/// What a delivery comes to next.
pub enum DeliveryView {
    Locate(Seq<char>),
    Resolve(Seq<char>),
    SignCredential,
    SignToken,
    Post(Seq<char>, Seq<char>, Seq<char>),
    Delivered,
    Failed(Seq<char>),
}

/// What a delivery comes to next. Of a post, the URL, the token and the signed
/// credential are given.
pub open spec fn delivery_decision(
    allowed: Set<Seq<char>>,
    holder: Seq<char>,
    evidence: DeliveryEvidence,
) -> DeliveryView {
    match evidence.location {
        None => DeliveryView::Locate(holder),
        Some(location) => match did_refusal(allowed, location_view(location)) {
            Some(error) => DeliveryView::Failed(outbound_message(error)),
            None => match evidence.endpoint {
                None => DeliveryView::Resolve(holder),
                Some(Err(m)) => DeliveryView::Failed(m@),
                Some(Ok(endpoint)) => match url_refusal(
                    allowed,
                    endpoint@,
                    url_parts(endpoint@),
                ) {
                    Some(error) => DeliveryView::Failed(outbound_message(error)),
                    None => match (evidence.credential, evidence.token, evidence.reply) {
                        (None, _, _) => DeliveryView::SignCredential,
                        (Some(_), None, _) => DeliveryView::SignToken,
                        (Some(jws), Some(token), None) => DeliveryView::Post(
                            endpoint@ + "/credentials"@,
                            token@,
                            jws@,
                        ),
                        (Some(_), Some(_), Some(DeliveryReply::Failed(m))) => DeliveryView::Failed(
                            m@,
                        ),
                        (Some(_), Some(_), Some(DeliveryReply::Status(status))) =>
                            DeliveryView::Failed("Storage API returned HTTP "@ + status@),
                        (Some(_), Some(_), Some(DeliveryReply::Taken)) => DeliveryView::Delivered,
                    },
                },
            },
        },
    }
}

/// Whether a step is what a delivery comes to next.
pub open spec fn is_step(
    step: DeliveryStep,
    decision: DeliveryView,
    issuer: Seq<char>,
    credential_type: Option<Seq<char>>,
    job: DeliveryJob,
    now: u64,
) -> bool {
    match step {
        DeliveryStep::Locate(did) => decision == DeliveryView::Locate(did@),
        DeliveryStep::Resolve(did) => decision == DeliveryView::Resolve(did@),
        DeliveryStep::SignCredential(claims) => decision == DeliveryView::SignCredential
            && is_credential(claims, issuer, job.holder_did@, credential_type, now),
        DeliveryStep::SignToken(claims) => decision == DeliveryView::SignToken
            && is_delivery_token(claims, issuer, job, now),
        DeliveryStep::Post(url, token, message) => decision matches DeliveryView::Post(u, t, jws)
            && u == url@ && t == token@ && is_delivery(message, job, credential_type, jws),
        DeliveryStep::Delivered => decision == DeliveryView::Delivered,
        DeliveryStep::Failed(m) => decision == DeliveryView::Failed(m@),
    }
}

/// The claims of the credential that is issued to a holder.
pub fn credential_claims(
    identity: &ServiceIdentity,
    supported: &CredentialObject,
    holder_did: &str,
    now: u64,
) -> (res: CredentialClaims)
    requires
        now <= u64::MAX - CREDENTIAL_TTL_SECS,
    ensures
        is_credential(
            res,
            identity.did(),
            holder_did@,
            optional_text(supported.credential_type),
            now,
        ),
{
    let mut context: Vec<String> = Vec::new();
    context.push(String::from_str(VC_CONTEXT));
    let mut types: Vec<String> = Vec::new();
    types.push(String::from_str("VerifiableCredential"));
    let credential_type = match &supported.credential_type {
        Some(t) => t.clone(),
        None => String::from_str("VerifiableCredential"),
    };
    types.push(credential_type);
    proof {
        assert(texts(context@) =~= seq![VC_CONTEXT@]);
        assert(texts(types@) =~= seq![
            "VerifiableCredential"@,
            own_type(optional_text(supported.credential_type)),
        ]);
    }
    CredentialClaims {
        iss: String::from_str(identity.own_did()),
        sub: String::from_str(holder_did),
        context,
        types,
        subject_id: String::from_str(holder_did),
        iat: now,
        exp: now + CREDENTIAL_TTL_SECS,
        jti: fresh_id(),
    }
}

/// The message that delivers a signed credential.
pub fn delivery_message(job: &DeliveryJob, supported: &CredentialObject, jws: &str) -> (res:
    CredentialMessage)
    ensures
        is_delivery(res, *job, optional_text(supported.credential_type), jws@),
{
    let credential_type = match &supported.credential_type {
        Some(t) => t.clone(),
        None => String::new(),
    };
    let mut credentials: Vec<CredentialContainer> = Vec::new();
    credentials.push(
        CredentialContainer {
            credential_type,
            payload: JsonValue::Text(String::from_str(jws)),
            format: String::from_str("jwt"),
        },
    );
    CredentialMessage {
        context: dcp_context(),
        message_type: credential_message_type(),
        issuer_pid: job.request_id.clone(),
        holder_pid: job.holder_pid.clone(),
        status: String::from_str("ISSUED"),
        credentials,
        rejection_reason: None,
    }
}

/// Delivers an issued credential step by step: finds the holder's Credential
/// Service, signs the credential and a token, and posts both. Neither the
/// holder's DID nor its endpoint is called before the outbound policy passed it.
pub fn try_deliver_issued_credential(
    state: &AppState,
    job: &DeliveryJob,
    evidence: &DeliveryEvidence,
    now: u64,
) -> (res: DeliveryStep)
    requires
        now <= u64::MAX - CREDENTIAL_TTL_SECS,
    ensures
        is_step(
            res,
            delivery_decision(state.outbound@, job.holder_did@, *evidence),
            state.identity.did(),
            optional_text(state.supported_credential.credential_type),
            *job,
            now,
        ),
{
    let location = match &evidence.location {
        Some(location) => location,
        None => {
            return DeliveryStep::Locate(job.holder_did.clone());
        },
    };
    if let Err(error) = state.outbound.check_did(location) {
        return DeliveryStep::Failed(error.message());
    }
    let endpoint = match &evidence.endpoint {
        None => {
            return DeliveryStep::Resolve(job.holder_did.clone());
        },
        Some(Err(m)) => {
            return DeliveryStep::Failed(m.clone());
        },
        Some(Ok(endpoint)) => endpoint,
    };
    if let Err(error) = state.outbound.check_url(endpoint.as_str()) {
        return DeliveryStep::Failed(error.message());
    }
    let jws = match &evidence.credential {
        None => {
            return DeliveryStep::SignCredential(
                credential_claims(
                    &state.identity,
                    &state.supported_credential,
                    job.holder_did.as_str(),
                    now,
                ),
            );
        },
        Some(jws) => jws,
    };
    let token = match &evidence.token {
        None => {
            let own = String::from_str(state.identity.own_did());
            return DeliveryStep::SignToken(
                IdTokenClaims {
                    iss: own.clone(),
                    sub: own,
                    aud: job.holder_did.clone(),
                    iat: now,
                    nbf: now,
                    exp: now + DELIVERY_TOKEN_TTL_SECS,
                    jti: fresh_id(),
                    token: copy_optional(&job.delivery_bearer),
                },
            );
        },
        Some(token) => token,
    };
    match &evidence.reply {
        None => DeliveryStep::Post(
            String::from_str(endpoint.as_str()).concat("/credentials"),
            token.clone(),
            delivery_message(job, &state.supported_credential, jws.as_str()),
        ),
        Some(DeliveryReply::Failed(m)) => DeliveryStep::Failed(m.clone()),
        Some(DeliveryReply::Status(status)) => DeliveryStep::Failed(
            String::from_str("Storage API returned HTTP ").concat(status.as_str()),
        ),
        Some(DeliveryReply::Taken) => DeliveryStep::Delivered,
    }
}

/// Records how the delivery of a request ended, where the request is still
/// tracked.
pub fn deliver_issued_credential(state: &mut AppState, request_id: &str, delivered: bool)
    requires
        old(state).wf(),
    ensures
        final(state).wf(),
        same_but_requests(*final(state), *old(state)),
        final(state).requests@ == with_status(
            old(state).requests@,
            request_id@,
            if delivered {
                "ISSUED"@
            } else {
                "REJECTED"@
            },
        ),
{
    let status = if delivered {
        "ISSUED"
    } else {
        "REJECTED"
    };
    state.requests.set_status(request_id, status);
}

/// Whether a status message answers for a record.
pub open spec fn is_status_of(status: CredentialStatus, record: RecordView) -> bool {
    &&& texts(status.context@) == seq![DCP_CONTEXT@]
    &&& status.message_type@ == "CredentialStatus"@
    &&& status.issuer_pid@ == record.issuer_pid
    &&& status.holder_pid@ == record.holder_pid
    &&& status.status@ == record.status
}

/// The status of a request, `None` where it is not tracked.
pub fn request_status(state: &AppState, id: &str) -> (res: Option<CredentialStatus>)
    requires
        state.wf(),
    ensures
        res is Some == tracks(state.requests@, id@),
        res matches Some(status) ==> record_of(state.requests@, id@) matches Some(record)
            && is_status_of(status, record),
{
    match state.requests.get(id) {
        Some(record) => Some(
            CredentialStatus::new(
                record.issuer_pid.clone(),
                record.holder_pid.clone(),
                record.status.as_str(),
            ),
        ),
        None => None,
    }
}

/// Whether two credentials hold the same.
pub open spec fn same_credential(a: CredentialObject, b: CredentialObject) -> bool {
    &&& a.context is Some == b.context is Some
    &&& a.context is Some ==> texts(a.context->0@) == texts(b.context->0@)
    &&& a.id@ == b.id@
    &&& a.object_type@ == b.object_type@
    &&& optional_text(a.credential_type) == optional_text(b.credential_type)
    &&& a.binding_methods is Some == b.binding_methods is Some
    &&& a.binding_methods is Some ==> texts(a.binding_methods->0@) == texts(b.binding_methods->0@)
    &&& optional_text(a.credential_schema) == optional_text(b.credential_schema)
    &&& optional_text(a.profile) == optional_text(b.profile)
    &&& a.issuance_policy is Some == b.issuance_policy is Some
    &&& a.issuance_policy is Some ==> a.issuance_policy->0@ == b.issuance_policy->0@
    &&& optional_text(a.offer_reason) == optional_text(b.offer_reason)
}

/// A copy of an optional list of strings.
fn copy_list(list: &Option<Vec<String>>) -> (res: Option<Vec<String>>)
    ensures
        res is Some == list is Some,
        res is Some ==> texts(res->0@) == texts(list->0@),
{
    match list {
        Some(texts) => Some(copy_texts(texts)),
        None => None,
    }
}

/// A copy of a credential.
fn copy_credential(c: &CredentialObject) -> (res: CredentialObject)
    ensures
        same_credential(res, *c),
{
    CredentialObject {
        context: copy_list(&c.context),
        id: c.id.clone(),
        object_type: c.object_type.clone(),
        credential_type: copy_optional(&c.credential_type),
        binding_methods: copy_list(&c.binding_methods),
        credential_schema: copy_optional(&c.credential_schema),
        profile: copy_optional(&c.profile),
        issuance_policy: match &c.issuance_policy {
            Some(policy) => Some(policy.clone()),
            None => None,
        },
        offer_reason: copy_optional(&c.offer_reason),
    }
}

/// The Issuer Service's metadata: its DID and the one credential it supports.
pub fn issuer_metadata(state: &AppState) -> (res: IssuerMetadata)
    ensures
        texts(res.context@) == seq![DCP_CONTEXT@],
        res.message_type@ == "IssuerMetadata"@,
        res.issuer@ == state.identity.did(),
        res.credentials_supported matches Some(list) && list@.len() == 1 && same_credential(
            list@[0],
            state.supported_credential,
        ),
{
    let mut list: Vec<CredentialObject> = Vec::new();
    list.push(copy_credential(&state.supported_credential));
    IssuerMetadata::new(String::from_str(state.identity.own_did()), list)
}

/// Nothing is sent to a holder, nor its DID looked up, before the outbound policy
/// passed the place.
pub proof fn law_no_delivery_without_permission(
    allowed: Set<Seq<char>>,
    holder: Seq<char>,
    evidence: DeliveryEvidence,
)
    ensures
        delivery_decision(allowed, holder, evidence) is Resolve || delivery_decision(
            allowed,
            holder,
            evidence,
        ) is Post ==> (evidence.location matches Some(location) && did_refusal(
            allowed,
            location_view(location),
        ) is None),
        delivery_decision(allowed, holder, evidence) is Post ==> (
        evidence.endpoint matches Some(Ok(endpoint)) && url_refusal(
            allowed,
            endpoint@,
            url_parts(endpoint@),
        ) is None),
{
}

/// A request is tracked as received once it is accepted, as issued once its
/// credential is delivered, and as rejected once its delivery failed.
pub proof fn law_request_life_cycle(
    table: Seq<(Seq<char>, RecordView)>,
    id: Seq<char>,
    message: CredentialRequestMessage,
    delivered: bool,
)
    requires
        ids_unique(table),
    ensures
        ({
            let accepted = entered(table, id, received(id, message));
            let outcome = if delivered {
                "ISSUED"@
            } else {
                "REJECTED"@
            };
            let ended = with_status(accepted, id, outcome);
            &&& record_of(accepted, id) matches Some(record) && record.status == "RECEIVED"@
                && record.holder_pid == message.holder_pid@
            &&& record_of(ended, id) matches Some(record) && record.status == outcome
                && record.holder_pid == message.holder_pid@
        }),
{
    let accepted = entered(table, id, received(id, message));
    let outcome = if delivered {
        "ISSUED"@
    } else {
        "REJECTED"@
    };
    let ended = with_status(accepted, id, outcome);
    law_entered_request_is_tracked(table, id, received(id, message));
    let i = choose|i: int| tracks_at(accepted, id, i);
    assert(tracks_at(accepted, id, i));
    assert(tracks_at(ended, id, i));
    let at = choose|k: int| tracks_at(ended, id, k);
    assert(tracks_at(ended, id, at));
    assert(tracks_at(accepted, id, at));
    lemma_entered_unique(table, id, received(id, message));
    if at != i {
        assert(accepted[at].0 == accepted[i].0);
    }
}

/// A request is accepted exactly where its caller is somebody, it asks for
/// something, and everything that it asks for is the credential that is supported.
/// What fails first refuses it with 400.
pub proof fn law_requests_are_accepted_exactly(
    supported: CredentialObject,
    claims: ClaimsView,
    message: CredentialRequestMessage,
)
    ensures
        ({
            let refusal = request_refusal(supported, claims, message);
            let asked = message.credentials@.len() > 0 && forall|i: int|
                0 <= i < message.credentials@.len() ==> (#[trigger] message.credentials@[i]).id@
                    == supported.id@;
            &&& refusal is None <==> claims.sub is Some && asked
            &&& claims.sub is None ==> refusal == Some((400u16, "token has no sub claim"@))
            &&& claims.sub is Some && !asked ==> refusal == Some(
                (
                    400u16,
                    "unknown credential id: only '"@ + supported.id@
                        + "' is supported by this bootstrap"@,
                ),
            )
        }),
{
}

/// How a request is answered, and what becomes of the requests that are tracked. An
/// accepted request is given an id, under which it joins them as received, with the
/// holder's own id; it is answered with the place where its status can be asked
/// for, and delivered to the caller, with the access token that the caller brought.
/// A refused request leaves them as they are.
pub proof fn law_request_outcomes(
    outcome: RequestOutcome,
    before: AppState,
    after: AppState,
    claims: ClaimsView,
    message: CredentialRequestMessage,
)
    requires
        is_request_outcome(outcome, before, after, claims, message),
        ids_unique(before.requests@),
    ensures
        ({
            let refusal = request_refusal(before.supported_credential, claims, message);
            &&& refusal matches Some(reply) ==> {
                &&& outcome matches RequestOutcome::Refuse(given) && given.status == reply.0
                    && given.body@ == reply.1
                &&& after.requests == before.requests
            }
            &&& refusal is None <==> outcome is Accepted
            &&& outcome matches RequestOutcome::Accepted(location, job) ==> {
                &&& location@ == "/requests/"@ + job.request_id@
                &&& job.request_id@.len() == 36
                &&& job.holder_pid@ == message.holder_pid@
                &&& claims.sub == Some(job.holder_did@)
                &&& job.delivery_bearer is Some == claims.token is Some
                &&& job.delivery_bearer matches Some(token) ==> claims.token == Some(token@)
                &&& record_of(after.requests@, job.request_id@) == Some(
                    RecordView {
                        issuer_pid: job.request_id@,
                        holder_pid: message.holder_pid@,
                        status: "RECEIVED"@,
                    },
                )
                &&& after.requests@ == entered(
                    before.requests@,
                    job.request_id@,
                    RecordView {
                        issuer_pid: job.request_id@,
                        holder_pid: message.holder_pid@,
                        status: "RECEIVED"@,
                    },
                )
            }
        }),
{
    if let RequestOutcome::Accepted(_, job) = outcome {
        law_entered_request_is_tracked(
            before.requests@,
            job.request_id@,
            received(job.request_id@, message),
        );
    }
}

/// What a delivery comes to next: the holder's DID is located, and resolved only
/// once the outbound policy passed the location; its endpoint must pass too; then
/// the credential is signed, then the token, and both are posted; and the reply
/// ends the delivery. What fails ends it too, for the reason it has.
pub proof fn law_deliveries_go_in_order(
    allowed: Set<Seq<char>>,
    holder: Seq<char>,
    evidence: DeliveryEvidence,
    location: Result<String, String>,
    endpoint: String,
)
    ensures
        ({
            let decision = delivery_decision(allowed, holder, evidence);
            let located = evidence.location == Some(location);
            let refused = did_refusal(allowed, location_view(location));
            let passed = located && refused is None;
            let resolved = passed && evidence.endpoint == Some(Ok::<String, String>(endpoint));
            let barred = url_refusal(allowed, endpoint@, url_parts(endpoint@));
            let open = resolved && barred is None;
            &&& evidence.location is None ==> decision == DeliveryView::Locate(holder)
            &&& located && refused is Some ==> decision == DeliveryView::Failed(
                outbound_message(refused->0),
            )
            &&& passed && evidence.endpoint is None ==> decision == DeliveryView::Resolve(holder)
            &&& passed ==> (evidence.endpoint matches Some(Err(m)) ==> decision
                == DeliveryView::Failed(m@))
            &&& resolved && barred is Some ==> decision == DeliveryView::Failed(
                outbound_message(barred->0),
            )
            &&& open && evidence.credential is None ==> decision == DeliveryView::SignCredential
            &&& open && evidence.credential is Some && evidence.token is None ==> decision
                == DeliveryView::SignToken
            &&& open ==> (evidence.credential matches Some(jws) ==> (
            evidence.token matches Some(token) ==> {
                &&& evidence.reply is None ==> decision == DeliveryView::Post(
                    endpoint@ + "/credentials"@,
                    token@,
                    jws@,
                )
                &&& evidence.reply matches Some(DeliveryReply::Failed(m)) ==> decision
                    == DeliveryView::Failed(m@)
                &&& evidence.reply matches Some(DeliveryReply::Status(status)) ==> decision
                    == DeliveryView::Failed("Storage API returned HTTP "@ + status@)
                &&& evidence.reply == Some(DeliveryReply::Taken) ==> decision
                    == DeliveryView::Delivered
            }))
            &&& decision == DeliveryView::Delivered ==> evidence.reply == Some(
                DeliveryReply::Taken,
            ) && evidence.credential is Some && evidence.token is Some
        }),
{
}

/// What is posted to a holder's Storage API is a DCP `CredentialMessage` that
/// answers the request: under the request's id and the holder's own, issued, with
/// the signed credential in JWT form as its one credential, of the type that is
/// supported.
pub proof fn law_deliveries_are_credential_messages(
    step: DeliveryStep,
    decision: DeliveryView,
    issuer: Seq<char>,
    credential_type: Option<Seq<char>>,
    job: DeliveryJob,
    now: u64,
)
    requires
        is_step(step, decision, issuer, credential_type, job, now),
    ensures
        step matches DeliveryStep::Post(url, token, message) ==> {
            &&& decision matches DeliveryView::Post(to, with, jws) && to == url@ && with == token@
                && message.credentials@[0].payload@ == JsonView::Text(jws)
            &&& texts(message.context@) == seq!["https://w3id.org/dspace-dcp/v1.0/dcp.jsonld"@]
            &&& message.message_type@ == "CredentialMessage"@
            &&& message.issuer_pid@ == job.request_id@
            &&& message.holder_pid@ == job.holder_pid@
            &&& message.status@ == "ISSUED"@
            &&& message.rejection_reason is None
            &&& message.credentials@.len() == 1
            &&& message.credentials@[0].format@ == "jwt"@
            &&& credential_type matches Some(t) ==> message.credentials@[0].credential_type@ == t
            &&& credential_type is None ==> message.credentials@[0].credential_type@.len() == 0
        },
{
}

/// What is signed for a holder: a Verifiable Credential of the type that is
/// supported, by the issuer, about the holder, valid for an hour.
pub proof fn law_issued_credentials_are_about_the_holder(
    step: DeliveryStep,
    decision: DeliveryView,
    issuer: Seq<char>,
    credential_type: Option<Seq<char>>,
    job: DeliveryJob,
    now: u64,
)
    requires
        is_step(step, decision, issuer, credential_type, job, now),
    ensures
        step matches DeliveryStep::SignCredential(claims) ==> {
            &&& claims.iss@ == issuer
            &&& claims.sub@ == job.holder_did@
            &&& claims.subject_id@ == job.holder_did@
            &&& texts(claims.context@) == seq!["https://www.w3.org/2018/credentials/v1"@]
            &&& texts(claims.types@).len() == 2
            &&& texts(claims.types@)[0] == "VerifiableCredential"@
            &&& credential_type matches Some(t) ==> texts(claims.types@)[1] == t
            &&& credential_type is None ==> texts(claims.types@)[1] == "VerifiableCredential"@
            &&& claims.iat == now
            &&& claims.exp == now + 3600
            &&& claims.jti@.len() == 36
        },
{
}

/// The token that a delivery carries is the issuer's own, addressed to the holder,
/// valid from now on for five minutes, and brings back the access token that came
/// with the request.
pub proof fn law_delivery_tokens_are_addressed_to_the_holder(
    step: DeliveryStep,
    decision: DeliveryView,
    issuer: Seq<char>,
    credential_type: Option<Seq<char>>,
    job: DeliveryJob,
    now: u64,
)
    requires
        is_step(step, decision, issuer, credential_type, job, now),
    ensures
        step matches DeliveryStep::SignToken(claims) ==> {
            &&& claims.iss@ == issuer
            &&& claims.sub@ == issuer
            &&& claims.aud@ == job.holder_did@
            &&& claims.iat == now
            &&& claims.nbf == now
            &&& claims.exp == now + 300
            &&& claims.jti@.len() == 36
            &&& claims.token is Some == job.delivery_bearer is Some
            &&& claims.token matches Some(token) ==> job.delivery_bearer matches Some(given)
                && token@ == given@
        },
{
}

/// The step of a delivery is the one that it comes to, about what it comes to.
pub proof fn law_steps_are_what_a_delivery_comes_to(
    step: DeliveryStep,
    decision: DeliveryView,
    issuer: Seq<char>,
    credential_type: Option<Seq<char>>,
    job: DeliveryJob,
    now: u64,
)
    requires
        is_step(step, decision, issuer, credential_type, job, now),
    ensures
        decision matches DeliveryView::Locate(did) ==> {
            step matches DeliveryStep::Locate(asked) && asked@ == did
        },
        decision matches DeliveryView::Resolve(did) ==> {
            step matches DeliveryStep::Resolve(asked) && asked@ == did
        },
        decision == DeliveryView::SignCredential <==> step is SignCredential,
        decision == DeliveryView::SignToken <==> step is SignToken,
        decision is Post <==> step is Post,
        decision == DeliveryView::Delivered <==> step is Delivered,
        decision matches DeliveryView::Failed(reason) ==> {
            step matches DeliveryStep::Failed(given) && given@ == reason
        },
{
}

/// The status of a request is given in a DCP `CredentialStatus` that holds what is
/// tracked of it.
pub proof fn law_statuses_hold_what_is_tracked(status: CredentialStatus, record: RecordView)
    requires
        is_status_of(status, record),
    ensures
        texts(status.context@) == seq!["https://w3id.org/dspace-dcp/v1.0/dcp.jsonld"@],
        status.message_type@ == "CredentialStatus"@,
        status.issuer_pid@ == record.issuer_pid,
        status.holder_pid@ == record.holder_pid,
        status.status@ == record.status,
{
}

/// A copy of a credential holds what the credential holds.
pub proof fn law_copies_hold_the_same(a: CredentialObject, b: CredentialObject)
    requires
        same_credential(a, b),
    ensures
        a.id@ == b.id@,
        a.object_type@ == b.object_type@,
        a.credential_type is Some == b.credential_type is Some,
        a.credential_type matches Some(x) ==> b.credential_type matches Some(y) && x@ == y@,
        a.context is Some == b.context is Some,
        a.context matches Some(x) ==> b.context matches Some(y) && texts(x@) == texts(y@),
        a.binding_methods is Some == b.binding_methods is Some,
        a.binding_methods matches Some(x) ==> b.binding_methods matches Some(y) && texts(x@)
            == texts(y@),
        a.credential_schema is Some == b.credential_schema is Some,
        a.credential_schema matches Some(x) ==> b.credential_schema matches Some(y) && x@ == y@,
        a.profile is Some == b.profile is Some,
        a.profile matches Some(x) ==> b.profile matches Some(y) && x@ == y@,
        a.issuance_policy is Some == b.issuance_policy is Some,
        a.issuance_policy matches Some(x) ==> b.issuance_policy matches Some(y) && x@ == y@,
        a.offer_reason is Some == b.offer_reason is Some,
        a.offer_reason matches Some(x) ==> b.offer_reason matches Some(y) && x@ == y@,
{
}

/// Where nothing but the requests that are tracked differs, everything else is the
/// same.
pub proof fn law_everything_but_the_requests_stays(a: AppState, b: AppState)
    requires
        same_but_requests(a, b),
    ensures
        a.config == b.config,
        a.identity == b.identity,
        a.sts_party == b.sts_party,
        a.sts_config == b.sts_config,
        a.scope_matcher == b.scope_matcher,
        a.store == b.store,
        a.supported_credential == b.supported_credential,
        a.outbound == b.outbound,
        a.seen_jti == b.seen_jti,
{
}

} // verus!
