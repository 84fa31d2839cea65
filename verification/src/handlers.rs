//! The routes of both roles, and those of a Credential Service that write: DID
//! hosting, the Secure Token Service, the Storage API and the Credential Offer
//! API. Callers of the latter two come with a token that was accepted.

use vstd::prelude::*;

use crate::auth::{
    auth_message, check_trusted_issuer, law_distrust_has_its_reason, trust_refusal,
};
use crate::bounded::newest;
use crate::config::{scheme_of, Config, Mode};
use crate::evidence::{claim_text, Claims, ClaimsView, Step, StepView, TokenEvidence};
use crate::graph::{accepted_offer, MAX_ACCEPTED_OFFERS, MAX_CREDENTIAL_BATCHES};
use crate::ids::is_uuid;
use crate::identity::{
    is_document, law_document_advertises_each_service, law_document_lists_its_key_everywhere,
    DidDocument, ServiceIdentity,
};
use crate::layout::MAX_ORDER;
use crate::messages::{
    CredentialContainer, CredentialMessage, CredentialObject, CredentialOfferMessage,
};
use crate::model::{offered_view, NewAcceptedOffer, OfferView, OfferedCredential, OfferedView};
use crate::rdf::CredentialGraphError;
use crate::reply::{auth_error_response, validation_error_response, Reply};
use crate::state::AppState;
use crate::store::{
    accepted, container_view, containers_view, stored_batches, without_id, StoredCredentialBatch,
    StoredView,
};
use crate::sts::{
    is_access_token, is_id_token, issue_token, sts_message, sts_refusal, PendingToken,
    StsTokenRequest, TOKEN_TTL_SECS,
};
use crate::text::{copy_optional, optional_text, same_text, texts};
use crate::validation::{
    check_known_holder_pid, is_jwt_format, is_known_holder, is_message_status,
    law_all_verified_proofs_are_enough, law_every_proof_is_verified,
    law_first_unverified_proof_decides, offer_verdict, proof_verdict, proofs_verdict, validate_offer_credentials,
    validate_status, validation_message, verify_credential_proofs, CatalogEvidence, CatalogStep,
    CatalogStepView, OfferVerdict, OfferVerdictView, ProofView, ProofsVerdict, ProofsView,
    ValidationErrorView,
};

verus! {

/// The type of the service that a role advertises.
pub open spec fn service_type_of(mode: Mode) -> Seq<char> {
    match mode {
        Mode::CredentialService => "CredentialService"@,
        Mode::IssuerService => "IssuerService"@,
    }
}

/// Whether the services are the one that a process advertises.
pub open spec fn are_own_services(services: Seq<(String, String)>, config: Config) -> bool {
    &&& services.len() == 1
    &&& services[0].0@ == service_type_of(config.mode)
    &&& services[0].1@ == scheme_of(config.insecure_http) + "://"@ + config.did_host@
}

/// Whether a DID document is that of a process's own identity, with the one
/// service that it advertises.
pub open spec fn is_own_document(
    doc: DidDocument,
    identity: ServiceIdentity,
    config: Config,
) -> bool {
    exists|services: Seq<(String, String)>|
        are_own_services(services, config) && #[trigger] is_document(doc, identity, services)
}

/// The DID document served under a path segment, `None` where there is none: the
/// process's own identity, which advertises its service, or its STS party.
pub fn did_document(state: &AppState, segment: &str) -> (res: Option<DidDocument>)
    ensures
        match res {
            Some(doc) => if segment@ == state.identity.did_path_segment@ {
                is_own_document(doc, state.identity, state.config)
            } else {
                &&& segment@ == state.sts_party.did_path_segment@
                &&& is_document(doc, state.sts_party, Seq::empty())
            },
            None => segment@ != state.identity.did_path_segment@ && segment@
                != state.sts_party.did_path_segment@,
        },
{
    let mut services: Vec<(String, String)> = Vec::new();
    if same_text(segment, state.identity.did_path_segment.as_str()) {
        let service_type = match state.mode() {
            Mode::CredentialService => String::from_str("CredentialService"),
            Mode::IssuerService => String::from_str("IssuerService"),
        };
        services.push((service_type, state.base_url()));
        let doc = state.identity.did_document(&services);
        proof {
            assert(are_own_services(services@, state.config));
            assert(is_document(doc, state.identity, services@));
            assert(is_own_document(doc, state.identity, state.config));
        }
        Some(doc)
    } else if same_text(segment, state.sts_party.did_path_segment.as_str()) {
        proof {
            assert(services@ =~= Seq::empty());
        }
        Some(state.sts_party.did_document(&services))
    } else {
        None
    }
}

/// The form of a token request.
#[derive(Debug)]
pub struct StsForm {
    pub grant_type: String,
    pub client_id: String,
    pub client_secret: String,
    pub audience: String,
    pub bearer_access_scope: Option<String>,
}

/// The request that a form makes of the service with the given DID.
pub open spec fn is_request_of(req: StsTokenRequest, form: StsForm, own_did: Seq<char>) -> bool {
    &&& req.grant_type == form.grant_type
    &&& req.client_id == form.client_id
    &&& req.client_secret == form.client_secret
    &&& req.audience == form.audience
    &&& req.bearer_access_scope == form.bearer_access_scope
    &&& req.own_service_did@ == own_did
}

/// The body of a refused token request.
#[derive(Debug)]
pub struct StsRefusal {
    pub status: u16,
    pub error: String,
    pub error_description: String,
}

/// Answers a token request with the claims to sign, or with a refusal.
pub fn sts_token(state: &AppState, form: StsForm, now: u64) -> (res: Result<
    PendingToken,
    StsRefusal,
>)
    requires
        now <= u64::MAX - TOKEN_TTL_SECS,
    ensures
        exists|req: StsTokenRequest|
            {
                &&& #[trigger] is_request_of(req, form, state.identity.did())
                &&& match res {
                    Err(refusal) => {
                        &&& refusal.status == 400
                        &&& refusal.error@ == "invalid_client"@
                        &&& sts_refusal(state.sts_config, req) matches Some(error)
                            && refusal.error_description@ == sts_message(error)
                    },
                    Ok(pending) => {
                        &&& sts_refusal(state.sts_config, req) is None
                        &&& is_id_token(pending.id, state.sts_party.did(), req, now)
                        &&& pending.id.token is None
                        &&& pending.access is Some == form.bearer_access_scope is Some
                        &&& pending.access matches Some(access) ==> is_access_token(
                            access,
                            state.sts_party.did(),
                            req,
                            now,
                        )
                    },
                }
            },
{
    let req = StsTokenRequest {
        grant_type: form.grant_type,
        client_id: form.client_id,
        client_secret: form.client_secret,
        audience: form.audience,
        bearer_access_scope: form.bearer_access_scope,
        own_service_did: String::from_str(state.identity.own_did()),
    };
    proof {
        assert(is_request_of(req, form, state.identity.did()));
    }
    match issue_token(&state.sts_config, &state.sts_party, req, now) {
        Ok(pending) => Ok(pending),
        Err(error) => Err(
            StsRefusal {
                status: 400,
                error: String::from_str("invalid_client"),
                error_description: error.message(),
            },
        ),
    }
}

/// What is decided of a credential message.
#[derive(Debug)]
pub enum StorageStep {
    /// Refuse the request with this reply.
    Refuse(Reply),
    /// Find this out about the credential at this position.
    Need(usize, Step),
    /// The message is stored.
    Stored,
}

/// What a credential message comes to.
pub enum StorageView {
    Refuse(u16, Seq<char>),
    Need(int, StepView),
    Store,
}

/// What a credential message comes to: its sender must be a trusted issuer, its
/// status recognized, its `holderPid` expected, and every credential's proof
/// verified.
pub open spec fn storage_decision(
    config: Config,
    allowed: Set<Seq<char>>,
    claims: ClaimsView,
    message: CredentialMessage,
    evidence: Seq<TokenEvidence>,
) -> StorageView {
    match trust_refusal(claims, texts(config.trusted_issuer_dids@)) {
        Some(error) => StorageView::Refuse(401, auth_message(error)),
        None => if !is_message_status(message.status@) {
            StorageView::Refuse(
                400,
                validation_message(ValidationErrorView::InvalidStatus(message.status@)),
            )
        } else if !is_known_holder(message.holder_pid@, texts(config.known_holder_pids@)) {
            StorageView::Refuse(
                400,
                validation_message(ValidationErrorView::UnknownHolderPid(message.holder_pid@)),
            )
        } else {
            match proofs_verdict(message.credentials@, evidence, allowed, 0) {
                ProofsView::Need(i, step) => StorageView::Need(i, step),
                ProofsView::Reject(error) => StorageView::Refuse(400, validation_message(error)),
                ProofsView::Verified => StorageView::Store,
            }
        },
    }
}

/// What is stored of a credential message.
pub open spec fn message_batch(message: CredentialMessage) -> StoredView {
    StoredView {
        issuer_pid: message.issuer_pid@,
        holder_pid: Some(message.holder_pid@),
        status: message.status@,
        rejection_reason: optional_text(message.rejection_reason),
        credentials: containers_view(message.credentials@),
    }
}

/// Whether nothing but the store differs between two states.
pub open spec fn same_but_store(a: AppState, b: AppState) -> bool {
    &&& a.config == b.config
    &&& a.identity == b.identity
    &&& a.sts_party == b.sts_party
    &&& a.sts_config == b.sts_config
    &&& a.scope_matcher == b.scope_matcher
    &&& a.requests == b.requests
    &&& a.supported_credential == b.supported_credential
    &&& a.outbound == b.outbound
    &&& a.seen_jti == b.seen_jti
}

/// A copy of credential containers.
fn copy_containers(list: &Vec<CredentialContainer>) -> (res: Vec<CredentialContainer>)
    ensures
        containers_view(res@) == containers_view(list@),
        res@.len() == list@.len(),
        forall|k: int|
            0 <= k < list@.len() ==> (#[trigger] res@[k]).payload is Text
                == list@[k].payload is Text,
{
    let mut out: Vec<CredentialContainer> = Vec::new();
    let mut i: usize = 0;
    while i < list.len()
        invariant
            i <= list@.len(),
            out@.len() == i,
            forall|k: int|
                0 <= k < i ==> container_view(#[trigger] out@[k]) == container_view(list@[k])
                    && out@[k].payload is Text == list@[k].payload is Text,
        decreases list.len() - i,
    {
        let c = &list[i];
        out.push(
            CredentialContainer {
                credential_type: c.credential_type.clone(),
                payload: c.payload.clone(),
                format: c.format.clone(),
            },
        );
        i = i + 1;
    }
    proof {
        assert(containers_view(out@) =~= containers_view(list@));
    }
    out
}

/// Whether a step is what a credential message comes to, and the store is as it
/// leaves it: only a message that is stored changes it.
pub open spec fn is_storage_step(
    step: StorageStep,
    before: AppState,
    after: AppState,
    claims: ClaimsView,
    message: CredentialMessage,
    evidence: Seq<TokenEvidence>,
) -> bool {
    let decision = storage_decision(before.config, before.outbound@, claims, message, evidence);
    match step {
        StorageStep::Refuse(reply) => {
            &&& decision == StorageView::Refuse(reply.status, reply.body@)
            &&& after.store == before.store
        },
        StorageStep::Need(i, step) => {
            &&& decision == StorageView::Need(i as int, step@)
            &&& after.store == before.store
        },
        StorageStep::Stored => {
            &&& decision == StorageView::Store
            &&& stored_batches(after.store.graph@.batches) == newest(
                stored_batches(before.store.graph@.batches).push(message_batch(message)),
                MAX_CREDENTIAL_BATCHES as nat,
            )
            &&& is_uuid(after.store.graph@.batches.last().id)
            &&& after.store.graph@.batches == newest(
                before.store.graph@.batches.push(after.store.graph@.batches.last()),
                MAX_CREDENTIAL_BATCHES as nat,
            )
            &&& after.store.graph@.offers == before.store.graph@.offers
            &&& after.store.graph.room() + 1 == before.store.graph.room()
        },
    }
}

/// Receives a `CredentialMessage` and stores it, once everything about it is
/// verified. A message that is refused changes nothing.
pub fn storage_write(
    state: &mut AppState,
    claims: &Claims,
    message: &CredentialMessage,
    evidence: &Vec<TokenEvidence>,
) -> (res: Result<StorageStep, CredentialGraphError>)
    requires
        old(state).wf(),
        old(state).store.graph.room() > 0,
        evidence@.len() == message.credentials@.len(),
        message.credentials@.len() <= MAX_ORDER,
    ensures
        final(state).wf(),
        same_but_store(*final(state), *old(state)),
        res is Ok,
        res matches Ok(step) ==> is_storage_step(
            step,
            *old(state),
            *final(state),
            claims@,
            *message,
            evidence@,
        ),
{
    if let Err(error) = check_trusted_issuer(claims, &state.config.trusted_issuer_dids) {
        return Ok(StorageStep::Refuse(auth_error_response(&error)));
    }
    if let Err(error) = validate_status(message.status.as_str()) {
        return Ok(StorageStep::Refuse(validation_error_response(&error)));
    }
    if let Err(error) = check_known_holder_pid(
        message.holder_pid.as_str(),
        &state.config.known_holder_pids,
    ) {
        return Ok(StorageStep::Refuse(validation_error_response(&error)));
    }
    match verify_credential_proofs(&message.credentials, evidence, &state.outbound) {
        ProofsVerdict::Need(i, step) => {
            return Ok(StorageStep::Need(i, step));
        },
        ProofsVerdict::Reject(error) => {
            return Ok(StorageStep::Refuse(validation_error_response(&error)));
        },
        ProofsVerdict::Verified => {},
    }
    let batch = StoredCredentialBatch {
        issuer_pid: message.issuer_pid.clone(),
        holder_pid: Some(message.holder_pid.clone()),
        status: message.status.clone(),
        rejection_reason: copy_optional(&message.rejection_reason),
        credentials: copy_containers(&message.credentials),
    };
    proof {
        assert forall|k: int| 0 <= k < message.credentials@.len() implies (
        #[trigger] batch.credentials@[k]).payload is Text by {
            law_every_proof_is_verified(message.credentials@, evidence@, state.outbound@, 0, k);
        }
    }
    match state.store.store(&batch) {
        Ok(()) => {
            proof {
                assert(accepted(batch@).credentials =~= batch@.credentials);
                assert(batch@ == message_batch(*message));
            }
            Ok(StorageStep::Stored)
        },
        Err(error) => Err(error),
    }
}

/// What is decided of a credential offer.
#[derive(Debug)]
pub enum OfferStep {
    /// Refuse the request with this reply.
    Refuse(Reply),
    /// Find this out about the offering issuer's catalog.
    Need(CatalogStep),
    /// The offer is recorded under this id.
    Recorded(String),
}

/// What a credential offer comes to.
pub enum OfferDecisionView {
    Refuse(u16, Seq<char>),
    Need(CatalogStepView),
    Record,
}

/// What a credential offer comes to: its sender must be a trusted issuer, and
/// the offered credentials valid.
pub open spec fn offer_decision(
    config: Config,
    allowed: Set<Seq<char>>,
    claims: ClaimsView,
    message: CredentialOfferMessage,
    evidence: CatalogEvidence,
) -> OfferDecisionView {
    match trust_refusal(claims, texts(config.trusted_issuer_dids@)) {
        Some(error) => OfferDecisionView::Refuse(401, auth_message(error)),
        None => match offer_verdict(message.issuer@, message.credentials@, evidence, allowed) {
            OfferVerdictView::Need(step) => OfferDecisionView::Need(step),
            OfferVerdictView::Reject(error) => OfferDecisionView::Refuse(
                400,
                validation_message(error),
            ),
            OfferVerdictView::Accept => OfferDecisionView::Record,
        },
    }
}

/// What is recorded of the credentials that are offered.
pub open spec fn offered_of(credentials: Seq<CredentialObject>) -> Seq<OfferedView> {
    credentials.map_values(
        |c: CredentialObject|
            OfferedView { id: c.id@, credential_type: optional_text(c.credential_type) },
    )
}

/// What is recorded of an offer under an id.
pub open spec fn recorded_offer(id: Seq<char>, message: CredentialOfferMessage) -> OfferView {
    OfferView {
        id,
        issuer: message.issuer@,
        credentials: offered_of(message.credentials@),
    }
}

/// What is recorded of the credentials that are offered.
fn offered_credentials(credentials: &Vec<CredentialObject>) -> (res: Vec<OfferedCredential>)
    ensures
        offered_view(res@) == offered_of(credentials@),
        res@.len() == credentials@.len(),
{
    let mut out: Vec<OfferedCredential> = Vec::new();
    let mut i: usize = 0;
    while i < credentials.len()
        invariant
            i <= credentials@.len(),
            out@.len() == i,
            forall|k: int|
                0 <= k < i ==> (#[trigger] out@[k])@ == (OfferedView {
                    id: credentials@[k].id@,
                    credential_type: optional_text(credentials@[k].credential_type),
                }),
        decreases credentials.len() - i,
    {
        out.push(
            OfferedCredential {
                id: credentials[i].id.clone(),
                credential_type: copy_optional(&credentials[i].credential_type),
            },
        );
        i = i + 1;
    }
    proof {
        assert(offered_view(out@) =~= offered_of(credentials@));
    }
    out
}

/// Whether a step is what a credential offer comes to, and the store is as it
/// leaves it: only an offer that is recorded changes it.
pub open spec fn is_offer_step(
    step: OfferStep,
    before: AppState,
    after: AppState,
    claims: ClaimsView,
    message: CredentialOfferMessage,
    evidence: CatalogEvidence,
) -> bool {
    let decision = offer_decision(before.config, before.outbound@, claims, message, evidence);
    match step {
        OfferStep::Refuse(reply) => {
            &&& decision == OfferDecisionView::Refuse(reply.status, reply.body@)
            &&& after.store == before.store
        },
        OfferStep::Need(step) => {
            &&& decision == OfferDecisionView::Need(step@)
            &&& after.store == before.store
        },
        OfferStep::Recorded(id) => {
            &&& decision == OfferDecisionView::Record
            &&& is_uuid(id@)
            &&& after.store.graph@.offers == newest(
                before.store.graph@.offers.push(recorded_offer(id@, message)),
                MAX_ACCEPTED_OFFERS as nat,
            )
            &&& after.store.graph@.batches == before.store.graph@.batches
            &&& after.store.graph.room() + 1 == before.store.graph.room()
        },
    }
}

/// Receives a `CredentialOfferMessage` and records it. An offer that is refused
/// changes nothing.
pub fn credential_offer(
    state: &mut AppState,
    claims: &Claims,
    message: &CredentialOfferMessage,
    evidence: &CatalogEvidence,
) -> (res: Result<OfferStep, CredentialGraphError>)
    requires
        old(state).wf(),
        old(state).store.graph.room() > 0,
        message.credentials@.len() <= MAX_ORDER,
    ensures
        final(state).wf(),
        same_but_store(*final(state), *old(state)),
        res is Ok,
        res matches Ok(step) ==> is_offer_step(
            step,
            *old(state),
            *final(state),
            claims@,
            *message,
            *evidence,
        ),
{
    if let Err(error) = check_trusted_issuer(claims, &state.config.trusted_issuer_dids) {
        return Ok(OfferStep::Refuse(auth_error_response(&error)));
    }
    match validate_offer_credentials(
        message.issuer.as_str(),
        &message.credentials,
        evidence,
        &state.outbound,
    ) {
        OfferVerdict::Need(step) => {
            return Ok(OfferStep::Need(step));
        },
        OfferVerdict::Reject(error) => {
            return Ok(OfferStep::Refuse(validation_error_response(&error)));
        },
        OfferVerdict::Accept => {},
    }
    let offer = NewAcceptedOffer {
        issuer: message.issuer.clone(),
        credentials: offered_credentials(&message.credentials),
    };
    match state.store.graph.add_offer(offer) {
        Ok(id) => {
            proof {
                assert(accepted_offer(id@, offer) == recorded_offer(id@, *message));
            }
            Ok(OfferStep::Recorded(id))
        },
        Err(error) => Err(error),
    }
}

/// With no trusted issuer configured every message and every offer is refused
/// with 401, whoever sends it and whatever it holds.
pub proof fn law_nothing_is_written_without_a_trusted_issuer(
    config: Config,
    allowed: Set<Seq<char>>,
    claims: ClaimsView,
    message: CredentialMessage,
    proofs: Seq<TokenEvidence>,
    offer: CredentialOfferMessage,
    catalog: CatalogEvidence,
)
    requires
        config.trusted_issuer_dids@.len() == 0,
    ensures
        storage_decision(config, allowed, claims, message, proofs) matches StorageView::Refuse(
            status,
            _,
        ) && status == 401,
        offer_decision(config, allowed, claims, offer, catalog) matches OfferDecisionView::Refuse(
            status,
            _,
        ) && status == 401,
{
}

/// Whatever is stored came from a trusted issuer with a recognized status, for
/// an expected holder, and every credential in it is a verified JWT.
pub proof fn law_stored_message_is_verified(
    config: Config,
    allowed: Set<Seq<char>>,
    claims: ClaimsView,
    message: CredentialMessage,
    proofs: Seq<TokenEvidence>,
    k: int,
)
    requires
        storage_decision(config, allowed, claims, message, proofs) == StorageView::Store,
        0 <= k < message.credentials@.len(),
    ensures
        texts(config.trusted_issuer_dids@).contains(claim_text(claims.iss)),
        is_message_status(message.status@),
        is_known_holder(message.holder_pid@, texts(config.known_holder_pids@)),
        is_jwt_format(message.credentials@[k].format@),
        message.credentials@[k].payload is Text,
        proofs[k].signature matches Some(Ok(_)),
{
    law_every_proof_is_verified(message.credentials@, proofs, allowed, 0, k);
}

/// A message is stored exactly where its sender is one of the trusted issuers, its
/// status is `ISSUED` or `REJECTED`, its `holderPid` is listed or nothing is, and
/// the proof of every credential in it, however many, is verified. What fails first
/// refuses it: with 401 where it is the sender, and else with 400.
pub proof fn law_messages_are_stored_exactly(
    config: Config,
    allowed: Set<Seq<char>>,
    claims: ClaimsView,
    message: CredentialMessage,
    evidence: Seq<TokenEvidence>,
    sender: Seq<char>,
)
    requires
        claims.iss == Some(sender),
    ensures
        ({
            let decision = storage_decision(config, allowed, claims, message, evidence);
            let trusted = exists|i: int|
                0 <= i < config.trusted_issuer_dids@.len() && (
                #[trigger] config.trusted_issuer_dids@[i])@ == sender;
            let recognized = message.status@ == "ISSUED"@ || message.status@ == "REJECTED"@;
            let expected = config.known_holder_pids@.len() == 0 || exists|i: int|
                0 <= i < config.known_holder_pids@.len() && (
                #[trigger] config.known_holder_pids@[i])@ == message.holder_pid@;
            let proven = forall|k: int|
                0 <= k < message.credentials@.len() ==> proof_verdict(
                    (#[trigger] message.credentials@[k]).format@,
                    message.credentials@[k].payload@,
                    evidence[k],
                    allowed,
                ) == ProofView::Verified;
            &&& decision == StorageView::Store <==> trusted && recognized && expected && proven
            &&& config.trusted_issuer_dids@.len() == 0 ==> decision == StorageView::Refuse(
                401,
                "no trusted issuer is configured on this service"@,
            )
            &&& config.trusted_issuer_dids@.len() > 0 && !trusted ==> decision
                == StorageView::Refuse(
                401,
                "issuer '"@ + sender + "' is not on this service's trusted-issuer allow-list"@,
            )
            &&& trusted && !recognized ==> decision == StorageView::Refuse(
                400,
                "credential message status '"@ + message.status@
                    + "' is not one of the recognized values (ISSUED, REJECTED)"@,
            )
            &&& trusted && recognized && !expected ==> decision == StorageView::Refuse(
                400,
                "holderPid '"@ + message.holder_pid@
                    + "' does not match a request this service was configured to expect"@,
            )
        }),
{
    let dids = config.trusted_issuer_dids@;
    let pids = config.known_holder_pids@;
    lemma_listed(dids, sender);
    lemma_listed(pids, message.holder_pid@);
    law_distrust_has_its_reason(claims, texts(dids));
    if forall|k: int|
        0 <= k < message.credentials@.len() ==> proof_verdict(
            (#[trigger] message.credentials@[k]).format@,
            message.credentials@[k].payload@,
            evidence[k],
            allowed,
        ) == ProofView::Verified {
        law_all_verified_proofs_are_enough(message.credentials@, evidence, allowed);
    } else {
        let k = first_unproven(message.credentials@, evidence, allowed, 0);
        lemma_first_unproven(message.credentials@, evidence, allowed, 0);
        law_first_unverified_proof_decides(message.credentials@, evidence, allowed, k);
    }
}

/// The first position from `i` on whose credential is not proven, or the end.
spec fn first_unproven(
    credentials: Seq<CredentialContainer>,
    evidence: Seq<TokenEvidence>,
    allowed: Set<Seq<char>>,
    i: int,
) -> int
    decreases credentials.len() - i,
{
    if i >= credentials.len() {
        i
    } else if proof_verdict(credentials[i].format@, credentials[i].payload@, evidence[i], allowed)
        != ProofView::Verified {
        i
    } else {
        first_unproven(credentials, evidence, allowed, i + 1)
    }
}

proof fn lemma_first_unproven(
    credentials: Seq<CredentialContainer>,
    evidence: Seq<TokenEvidence>,
    allowed: Set<Seq<char>>,
    i: int,
)
    requires
        0 <= i <= credentials.len(),
        exists|k: int|
            i <= k < credentials.len() && proof_verdict(
                (#[trigger] credentials[k]).format@,
                credentials[k].payload@,
                evidence[k],
                allowed,
            ) != ProofView::Verified,
    ensures
        ({
            let k = first_unproven(credentials, evidence, allowed, i);
            &&& i <= k < credentials.len()
            &&& proof_verdict(credentials[k].format@, credentials[k].payload@, evidence[k], allowed)
                != ProofView::Verified
            &&& forall|j: int|
                i <= j < k ==> proof_verdict(
                    (#[trigger] credentials[j]).format@,
                    credentials[j].payload@,
                    evidence[j],
                    allowed,
                ) == ProofView::Verified
        }),
    decreases credentials.len() - i,
{
    if proof_verdict(credentials[i].format@, credentials[i].payload@, evidence[i], allowed)
        == ProofView::Verified {
        lemma_first_unproven(credentials, evidence, allowed, i + 1);
    }
}

/// A text is among the texts of strings where one of the strings is that text.
proof fn lemma_listed(list: Seq<String>, text: Seq<char>)
    ensures
        texts(list).contains(text) <==> exists|i: int|
            0 <= i < list.len() && (#[trigger] list[i])@ == text,
        texts(list).len() == list.len(),
{
    if exists|i: int| 0 <= i < list.len() && (#[trigger] list[i])@ == text {
        let i = choose|i: int| 0 <= i < list.len() && (#[trigger] list[i])@ == text;
        assert(texts(list)[i] == text);
    }
    if texts(list).contains(text) {
        let i = choose|i: int| 0 <= i < texts(list).len() && texts(list)[i] == text;
        assert(list[i]@ == text);
    }
}

/// Where sender, status and holder of a message are in order, the first credential
/// whose proof is not verified decides: what it needs is found out, or what it
/// lacks refuses the whole message with 400.
pub proof fn law_first_unproven_credential_decides(
    config: Config,
    allowed: Set<Seq<char>>,
    claims: ClaimsView,
    message: CredentialMessage,
    evidence: Seq<TokenEvidence>,
    k: int,
)
    requires
        trust_refusal(claims, texts(config.trusted_issuer_dids@)) is None,
        is_message_status(message.status@),
        is_known_holder(message.holder_pid@, texts(config.known_holder_pids@)),
        0 <= k < message.credentials@.len(),
        forall|j: int|
            0 <= j < k ==> proof_verdict(
                (#[trigger] message.credentials@[j]).format@,
                message.credentials@[j].payload@,
                evidence[j],
                allowed,
            ) == ProofView::Verified,
    ensures
        ({
            let decision = storage_decision(config, allowed, claims, message, evidence);
            let one = proof_verdict(
                message.credentials@[k].format@,
                message.credentials@[k].payload@,
                evidence[k],
                allowed,
            );
            &&& one matches ProofView::Need(step) ==> decision == StorageView::Need(k, step)
            &&& one matches ProofView::Reject(error) ==> decision == StorageView::Refuse(
                400,
                validation_message(error),
            )
        }),
{
    law_first_unverified_proof_decides(message.credentials@, evidence, allowed, k);
}

/// How a message is answered, and what becomes of the store. A message that is to
/// be stored joins the end of what is stored, field by field and credential by
/// credential as it was sent; every other batch stays as it is, but that the oldest
/// of 2048 goes; and offers stay. Any other message leaves the store as it is.
pub proof fn law_storage_steps(
    step: StorageStep,
    before: AppState,
    after: AppState,
    claims: ClaimsView,
    message: CredentialMessage,
    evidence: Seq<TokenEvidence>,
    k: int,
    i: int,
)
    requires
        is_storage_step(step, before, after, claims, message, evidence),
        before.store.graph@.batches.len() <= 2048,
    ensures
        ({
            let decision = storage_decision(
                before.config,
                before.outbound@,
                claims,
                message,
                evidence,
            );
            let was = before.store.graph@.batches;
            let now = after.store.graph@.batches;
            &&& decision matches StorageView::Refuse(status, body) ==> {
                step matches StorageStep::Refuse(reply) && reply.status == status && reply.body@
                    == body
            }
            &&& decision matches StorageView::Need(at, next) ==> {
                step matches StorageStep::Need(place, asked) && place == at && asked@ == next
            }
            &&& decision == StorageView::Store <==> step is Stored
            &&& !(step is Stored) ==> after.store == before.store
            &&& step is Stored ==> {
                &&& after.store.graph@.offers == before.store.graph@.offers
                &&& now.len() == if was.len() < 2048 {
                    was.len() + 1
                } else {
                    2048
                }
                &&& 0 <= i < now.len() - 1 ==> now[i] == was[was.len() + 1 - now.len() + i]
                &&& now.last().issuer_pid == message.issuer_pid@
                &&& now.last().holder_pid == Some(message.holder_pid@)
                &&& now.last().status == message.status@
                &&& now.last().rejection_reason is Some == message.rejection_reason is Some
                &&& message.rejection_reason matches Some(text) ==> now.last().rejection_reason
                    == Some(text@)
                &&& now.last().credentials.len() == message.credentials@.len()
                &&& 0 <= k < message.credentials@.len() ==> {
                    &&& now.last().credentials[k].credential_type
                        == message.credentials@[k].credential_type@
                    &&& now.last().credentials[k].payload == message.credentials@[k].payload@
                    &&& now.last().credentials[k].format == message.credentials@[k].format@
                }
            }
        }),
{
    if step is Stored {
        let was = before.store.graph@.batches;
        let now = after.store.graph@.batches;
        let kept = stored_batches(was).push(message_batch(message));
        assert(stored_batches(now) == newest(kept, 2048));
        assert(stored_batches(now).last() == message_batch(message));
        assert(stored_batches(now)[now.len() - 1] == message_batch(message));
        assert(without_id(now.last()) == message_batch(message));
    }
}

/// An offer is recorded exactly where its sender is one of the trusted issuers and
/// what it offers is in order. What fails first refuses it: with 401 where it is
/// the sender, and else with 400.
pub proof fn law_offers_are_recorded_exactly(
    config: Config,
    allowed: Set<Seq<char>>,
    claims: ClaimsView,
    message: CredentialOfferMessage,
    evidence: CatalogEvidence,
    sender: Seq<char>,
)
    requires
        claims.iss == Some(sender),
    ensures
        ({
            let decision = offer_decision(config, allowed, claims, message, evidence);
            let verdict = offer_verdict(message.issuer@, message.credentials@, evidence, allowed);
            let trusted = exists|i: int|
                0 <= i < config.trusted_issuer_dids@.len() && (
                #[trigger] config.trusted_issuer_dids@[i])@ == sender;
            &&& decision == OfferDecisionView::Record <==> trusted && verdict
                == OfferVerdictView::Accept
            &&& config.trusted_issuer_dids@.len() == 0 ==> decision == OfferDecisionView::Refuse(
                401,
                "no trusted issuer is configured on this service"@,
            )
            &&& config.trusted_issuer_dids@.len() > 0 && !trusted ==> decision
                == OfferDecisionView::Refuse(
                401,
                "issuer '"@ + sender + "' is not on this service's trusted-issuer allow-list"@,
            )
            &&& trusted ==> (verdict matches OfferVerdictView::Need(step) ==> decision
                == OfferDecisionView::Need(step))
            &&& trusted ==> (verdict matches OfferVerdictView::Reject(error) ==> decision
                == OfferDecisionView::Refuse(400, validation_message(error)))
        }),
{
    lemma_listed(config.trusted_issuer_dids@, sender);
    law_distrust_has_its_reason(claims, texts(config.trusted_issuer_dids@));
}

/// What is recorded of an offer: its issuer, and entry by entry the id and the type
/// of what it offers.
pub proof fn law_offers_are_recorded_entry_by_entry(
    id: Seq<char>,
    message: CredentialOfferMessage,
    i: int,
)
    ensures
        recorded_offer(id, message).id == id,
        recorded_offer(id, message).issuer == message.issuer@,
        recorded_offer(id, message).credentials.len() == message.credentials@.len(),
        0 <= i < message.credentials@.len() ==> {
            let entry = recorded_offer(id, message).credentials[i];
            let offered = message.credentials@[i];
            &&& entry.id == offered.id@
            &&& entry.credential_type is Some == offered.credential_type is Some
            &&& offered.credential_type matches Some(text) ==> entry.credential_type == Some(text@)
        },
{
}

/// How an offer is answered, and what becomes of the store. An offer that is to be
/// recorded joins the end of those that are, entry by entry as it was made; every
/// other offer stays as it is, but that the oldest of 2048 goes; and batches stay.
/// Any other offer leaves the store as it is.
pub proof fn law_offer_steps(
    step: OfferStep,
    before: AppState,
    after: AppState,
    claims: ClaimsView,
    message: CredentialOfferMessage,
    evidence: CatalogEvidence,
    k: int,
    i: int,
)
    requires
        is_offer_step(step, before, after, claims, message, evidence),
        before.store.graph@.offers.len() <= 2048,
    ensures
        ({
            let decision = offer_decision(
                before.config,
                before.outbound@,
                claims,
                message,
                evidence,
            );
            let was = before.store.graph@.offers;
            let now = after.store.graph@.offers;
            &&& decision matches OfferDecisionView::Refuse(status, body) ==> {
                step matches OfferStep::Refuse(reply) && reply.status == status && reply.body@
                    == body
            }
            &&& decision matches OfferDecisionView::Need(next) ==> {
                step matches OfferStep::Need(asked) && asked@ == next
            }
            &&& decision == OfferDecisionView::Record <==> step is Recorded
            &&& !(step is Recorded) ==> after.store == before.store
            &&& step matches OfferStep::Recorded(id) ==> {
                &&& after.store.graph@.batches == before.store.graph@.batches
                &&& now.len() == if was.len() < 2048 {
                    was.len() + 1
                } else {
                    2048
                }
                &&& 0 <= i < now.len() - 1 ==> now[i] == was[was.len() + 1 - now.len() + i]
                &&& now.last().id == id@
                &&& now.last().issuer == message.issuer@
                &&& now.last().credentials.len() == message.credentials@.len()
                &&& 0 <= k < message.credentials@.len() ==> {
                    &&& now.last().credentials[k].id == message.credentials@[k].id@
                    &&& now.last().credentials[k].credential_type == optional_text(
                        message.credentials@[k].credential_type,
                    )
                }
            }
        }),
{
    if let OfferStep::Recorded(id) = step {
        law_offers_are_recorded_entry_by_entry(id@, message, k);
        assert(after.store.graph@.offers.last() == recorded_offer(id@, message));
    }
}

/// The DID document of a process's own identity advertises one service: that of
/// its role, at the address it is reachable at.
pub proof fn law_own_document_advertises_the_role(
    doc: DidDocument,
    identity: ServiceIdentity,
    config: Config,
)
    requires
        is_own_document(doc, identity, config),
    ensures
        doc.id@ == identity.did@,
        texts(doc.capability_invocation@) == seq![identity.key.key_id@],
        doc.service@.len() == 1,
        config.mode == Mode::CredentialService ==> doc.service@[0].service_type@
            == "CredentialService"@ && doc.service@[0].id@ == identity.did@ + "#"@
            + "CredentialService"@,
        config.mode == Mode::IssuerService ==> doc.service@[0].service_type@ == "IssuerService"@
            && doc.service@[0].id@ == identity.did@ + "#"@ + "IssuerService"@,
        config.insecure_http ==> doc.service@[0].service_endpoint@ == "http"@ + "://"@
            + config.did_host@,
        !config.insecure_http ==> doc.service@[0].service_endpoint@ == "https"@ + "://"@
            + config.did_host@,
{
    let services = choose|services: Seq<(String, String)>|
        are_own_services(services, config) && #[trigger] is_document(doc, identity, services);
    law_document_lists_its_key_everywhere(doc, identity, services);
    law_document_advertises_each_service(doc, identity, services, 0);
}

/// A token request is made of the form's fields, on behalf of the service itself.
pub proof fn law_token_requests_are_the_forms(
    req: StsTokenRequest,
    form: StsForm,
    own_did: Seq<char>,
)
    requires
        is_request_of(req, form, own_did),
    ensures
        req.grant_type@ == form.grant_type@,
        req.client_id@ == form.client_id@,
        req.client_secret@ == form.client_secret@,
        req.audience@ == form.audience@,
        req.bearer_access_scope is Some == form.bearer_access_scope is Some,
        req.bearer_access_scope matches Some(scope) ==> form.bearer_access_scope matches Some(given)
            && scope@ == given@,
        req.own_service_did@ == own_did,
{
}

/// A credential message is stored with its own fields, its credentials in order.
pub proof fn law_messages_are_stored_as_sent(message: CredentialMessage, k: int)
    ensures
        message_batch(message).issuer_pid == message.issuer_pid@,
        message_batch(message).holder_pid == Some(message.holder_pid@),
        message_batch(message).status == message.status@,
        message_batch(message).rejection_reason is Some == message.rejection_reason is Some,
        message.rejection_reason matches Some(text) ==> message_batch(message).rejection_reason
            == Some(text@),
        message_batch(message).credentials.len() == message.credentials@.len(),
        0 <= k < message.credentials@.len() ==> {
            let kept = message_batch(message).credentials[k];
            &&& kept.credential_type == message.credentials@[k].credential_type@
            &&& kept.payload == message.credentials@[k].payload@
            &&& kept.format == message.credentials@[k].format@
        },
{
}

/// Where nothing but the store differs, everything else is the same.
pub proof fn law_everything_but_the_store_stays(a: AppState, b: AppState)
    requires
        same_but_store(a, b),
    ensures
        a.config == b.config,
        a.identity == b.identity,
        a.sts_party == b.sts_party,
        a.sts_config == b.sts_config,
        a.scope_matcher == b.scope_matcher,
        a.requests == b.requests,
        a.supported_credential == b.supported_credential,
        a.outbound == b.outbound,
        a.seen_jti == b.seen_jti,
{
}

} // verus!
