//! The Storage API and the Credential Offer API, and what they check.

use identity_hub::config::{Config, Mode};
use identity_hub::evidence::{Claims, DecodedToken, DidKeys, Step, TokenEvidence};
use identity_hub::handlers::{
    credential_offer, did_document, storage_write, sts_token, OfferStep, StorageStep, StsForm,
};
use identity_hub::identity::PublicKey;
use identity_hub::json::JsonValue;
use identity_hub::messages::{
    credential_message_type, credential_object_type, credential_offer_message_type, dcp_context,
    CredentialContainer, CredentialMessage, CredentialObject, CredentialOfferMessage,
    IssuerMetadata,
};
use identity_hub::reply::Reply;
use identity_hub::state::AppState;
use identity_hub::validation::{
    check_known_holder_pid, validate_status, CatalogEvidence, CatalogReply, CatalogStep,
    ValidationError,
};

const ISSUER: &str = "did:web:127.0.0.1%3A7000:issuer";
const KID: &str = "did:web:127.0.0.1%3A7000:issuer#key-1";
const LOCATION: &str = "http://127.0.0.1:7000/issuer/did.json";
const KNOWN_HOLDER_PID: &str = "holder-pid-1";

fn text(s: &str) -> String {
    s.to_string()
}

fn key(id: &str) -> PublicKey {
    PublicKey { key_id: text(id), x: text("x"), y: text("y") }
}

fn service(config: Config) -> AppState {
    match AppState::new(config, key("own-key"), key("sts-key")) {
        Ok(state) => state,
        Err(error) => panic!("{error:?}"),
    }
}

fn config() -> Config {
    Config::for_test(Mode::CredentialService, 8080, text("localhost:8080"))
}

fn trusting(dids: &[&str]) -> AppState {
    service(
        config()
            .with_trusted_issuer_dids(dids.iter().map(|d| d.to_string()).collect())
            .with_known_holder_pids(vec![text(KNOWN_HOLDER_PID)]),
    )
}

fn sender() -> Claims {
    let mut claims = Claims::empty();
    claims.iss = Some(text(ISSUER));
    claims.sub = Some(text(ISSUER));
    claims
}

fn jwt(format: &str) -> CredentialContainer {
    CredentialContainer {
        credential_type: text("MembershipCredential"),
        payload: JsonValue::Text(text("a.jws.here")),
        format: text(format),
    }
}

fn message(holder: &str, status: &str, credentials: Vec<CredentialContainer>) -> CredentialMessage {
    CredentialMessage {
        context: dcp_context(),
        message_type: credential_message_type(),
        issuer_pid: text("issuer-pid-1"),
        holder_pid: text(holder),
        status: text(status),
        credentials,
        rejection_reason: None,
    }
}

fn verified() -> TokenEvidence {
    let mut claims = Claims::empty();
    claims.iss = Some(text(ISSUER));
    TokenEvidence {
        decoded: Some(Ok(DecodedToken { kid: Some(text(KID)), claims })),
        location: Some(Ok(text(LOCATION))),
        document: Some(Ok(DidKeys { capability_invocation: vec![] })),
        key: Some(Ok(())),
        signature: Some(Ok(())),
    }
}

fn write(state: &mut AppState, message: &CredentialMessage, evidence: Vec<TokenEvidence>) -> StorageStep {
    let before = state.store.all().unwrap().len();
    let step = storage_write(state, &sender(), message, &evidence).expect("graph");
    let added = match step {
        StorageStep::Stored => 1,
        _ => 0,
    };
    assert_eq!(state.store.all().unwrap().len(), before + added);
    step
}

fn refused(step: StorageStep) -> Reply {
    match step {
        StorageStep::Refuse(reply) => reply,
        other => panic!("expected a refusal, got {other:?}"),
    }
}

#[test]
fn storage_write_rejects_an_invalid_status_value() {
    let mut state = trusting(&[ISSUER]);
    let reply = refused(write(&mut state, &message(KNOWN_HOLDER_PID, "INVALID_STATUS", vec![]), vec![]));
    assert_eq!(reply.status, 400);
    assert_eq!(
        reply.body,
        "credential message status 'INVALID_STATUS' is not one of the recognized values (ISSUED, REJECTED)"
    );
    assert!(state.store.all().unwrap().is_empty());
    assert!(validate_status("issued").is_err());
}

#[test]
fn storage_write_accepts_the_recognized_status_values() {
    let mut state = trusting(&[ISSUER]);
    for status in ["ISSUED", "REJECTED"] {
        let step = write(&mut state, &message(KNOWN_HOLDER_PID, status, vec![]), vec![]);
        assert!(matches!(step, StorageStep::Stored));
    }
    let all = state.store.all().unwrap();
    assert_eq!(all.len(), 2);
    assert_eq!(all[0].status, "ISSUED");
    assert_eq!(all[1].status, "REJECTED");
    assert_eq!(all[0].issuer_pid, "issuer-pid-1");
    assert_eq!(all[0].holder_pid.as_deref(), Some(KNOWN_HOLDER_PID));
}

#[test]
fn storage_write_rejects_an_unknown_holder_pid() {
    let mut state = trusting(&[ISSUER]);
    let reply = refused(write(&mut state, &message("some-other-holder-pid", "ISSUED", vec![]), vec![]));
    assert_eq!(reply.status, 400);
    assert_eq!(
        reply.body,
        "holderPid 'some-other-holder-pid' does not match a request this service was configured to expect"
    );
}

#[test]
fn storage_write_accepts_a_known_holder_pid() {
    let mut state = trusting(&[ISSUER]);
    let step = write(&mut state, &message(KNOWN_HOLDER_PID, "ISSUED", vec![]), vec![]);
    assert!(matches!(step, StorageStep::Stored));
    assert!(check_known_holder_pid("anyone", &Vec::new()).is_ok());
}

#[test]
fn storage_write_rejects_a_credential_with_an_unverifiable_proof() {
    let mut state = trusting(&[ISSUER]);
    let body = message(KNOWN_HOLDER_PID, "ISSUED", vec![jwt("jwt"), jwt("jwt")]);
    let mut bad = verified();
    bad.key = Some(Err(text("no key with that id")));
    let reply = refused(write(&mut state, &body, vec![verified(), bad]));
    assert_eq!(reply.status, 400);
    assert_eq!(
        reply.body,
        "a credential's own embedded proof could not be verified: no key with that id"
    );
}

#[test]
fn storage_write_accepts_credentials_with_genuinely_verifiable_proofs() {
    let mut state = trusting(&[ISSUER]);
    let body = message(KNOWN_HOLDER_PID, "ISSUED", vec![jwt("jwt"), jwt("jwt")]);
    let step = write(&mut state, &body, vec![verified(), verified()]);
    assert!(matches!(step, StorageStep::Stored));
    let found = state.store.credentials_of_types(&vec![text("MembershipCredential")]).unwrap();
    assert_eq!(found.len(), 2);
    assert_eq!(found[0].payload, JsonValue::Text(text("a.jws.here")));
}

#[test]
fn a_stored_message_is_read_back_as_it_was_sent() {
    let mut state = trusting(&[ISSUER]);
    let mut body = message(KNOWN_HOLDER_PID, "REJECTED", vec![jwt("VC1_0_JWT"), jwt("jwt")]);
    body.rejection_reason = Some(text("expired"));
    let step = write(&mut state, &body, vec![verified(), verified()]);
    assert!(matches!(step, StorageStep::Stored));
    let all = state.store.all().unwrap();
    assert_eq!(all.len(), 1);
    assert_eq!(all[0].issuer_pid, "issuer-pid-1");
    assert_eq!(all[0].holder_pid.as_deref(), Some(KNOWN_HOLDER_PID));
    assert_eq!(all[0].status, "REJECTED");
    assert_eq!(all[0].rejection_reason.as_deref(), Some("expired"));
    assert_eq!(all[0].credentials.len(), 2);
    for (kept, sent) in all[0].credentials.iter().zip(&body.credentials) {
        assert_eq!(kept.credential_type, sent.credential_type);
        assert_eq!(kept.payload, sent.payload);
        assert_eq!(kept.format, sent.format);
    }
}

#[test]
fn what_is_needed_of_each_credential_is_asked_for_in_order() {
    let mut state = trusting(&[ISSUER]);
    let body = message(KNOWN_HOLDER_PID, "ISSUED", vec![jwt("jwt"), jwt("jwt")]);
    let step = write(&mut state, &body, vec![TokenEvidence::new(), TokenEvidence::new()]);
    assert!(matches!(step, StorageStep::Need(0, Step::Decode(jws)) if jws == "a.jws.here"));
    let step = write(&mut state, &body, vec![verified(), TokenEvidence::new()]);
    assert!(matches!(step, StorageStep::Need(1, Step::Decode(_))));
    let mut half = verified();
    half.document = None;
    let step = write(&mut state, &body, vec![half, TokenEvidence::new()]);
    assert!(matches!(step, StorageStep::Need(0, Step::Resolve(did)) if did == ISSUER));
    let mut elsewhere = verified();
    elsewhere.location = Some(Ok(text("http://evil.example/did.json")));
    let reply = refused(write(&mut state, &body, vec![elsewhere, verified()]));
    assert_eq!(
        reply.body,
        "a credential's own embedded proof could not be verified: outbound host 'evil.example' is not on this service's allow-list"
    );
}

#[test]
fn default_config_storage_write_rejects_an_unrecognized_issuer() {
    let mut state = service(config());
    let reply = refused(write(&mut state, &message(KNOWN_HOLDER_PID, "ISSUED", vec![]), vec![]));
    assert_eq!(reply.status, 401);
    assert_eq!(reply.body, "no trusted issuer is configured on this service");
}

#[test]
fn storage_write_rejects_a_token_from_an_untrusted_issuer() {
    let mut state = trusting(&["did:web:someone-else"]);
    let reply = refused(write(&mut state, &message(KNOWN_HOLDER_PID, "ISSUED", vec![]), vec![]));
    assert_eq!(reply.status, 401);
}

#[test]
fn storage_write_accepts_a_token_from_a_trusted_issuer() {
    let mut state = trusting(&["did:web:someone-else", ISSUER]);
    let step = write(&mut state, &message(KNOWN_HOLDER_PID, "ISSUED", vec![]), vec![]);
    assert!(matches!(step, StorageStep::Stored));
}

#[test]
fn storage_write_rejects_a_credential_whose_format_cannot_be_verified() {
    let mut state = trusting(&[ISSUER]);
    let body = message(KNOWN_HOLDER_PID, "ISSUED", vec![jwt("ldp_vc")]);
    let reply = refused(write(&mut state, &body, vec![verified()]));
    assert_eq!(reply.status, 400);
    assert_eq!(reply.body, "credential format 'ldp_vc' is not one this service can verify");
}

#[test]
fn storage_write_rejects_a_credential_with_an_empty_format() {
    let mut state = trusting(&[ISSUER]);
    for format in ["", "   "] {
        let body = message(KNOWN_HOLDER_PID, "ISSUED", vec![jwt(format)]);
        assert_eq!(refused(write(&mut state, &body, vec![verified()])).status, 400);
    }
}

#[test]
fn storage_write_still_accepts_a_genuinely_verifiable_jwt_credential() {
    let mut state = trusting(&[ISSUER]);
    let body = message(KNOWN_HOLDER_PID, "ISSUED", vec![jwt("jwt")]);
    assert!(matches!(write(&mut state, &body, vec![verified()]), StorageStep::Stored));
}

#[test]
fn storage_write_still_accepts_the_tck_s_own_jwt_format_label() {
    let mut state = trusting(&[ISSUER]);
    for format in ["VC1_0_JWT", " Jwt_vc \t"] {
        let body = message(KNOWN_HOLDER_PID, "ISSUED", vec![jwt(format)]);
        assert!(matches!(write(&mut state, &body, vec![verified()]), StorageStep::Stored));
    }
}

#[test]
fn a_jwt_credential_that_is_no_string_is_refused() {
    let mut state = trusting(&[ISSUER]);
    let mut object = jwt("jwt");
    object.payload = JsonValue::Json(text("{\"a\":1}"));
    let body = message(KNOWN_HOLDER_PID, "ISSUED", vec![object]);
    assert_eq!(
        refused(write(&mut state, &body, vec![verified()])).body,
        "a credential's own embedded proof could not be verified: a jwt-format credential's payload must be a JWS string"
    );
}

fn object(id: &str, credential_type: Option<&str>) -> CredentialObject {
    CredentialObject {
        context: None,
        id: text(id),
        object_type: credential_object_type(),
        credential_type: credential_type.map(|t| t.to_string()),
        binding_methods: None,
        credential_schema: None,
        profile: None,
        issuance_policy: None,
        offer_reason: None,
    }
}

fn offer(credentials: Vec<CredentialObject>) -> CredentialOfferMessage {
    CredentialOfferMessage {
        context: dcp_context(),
        message_type: credential_offer_message_type(),
        issuer: text(ISSUER),
        credentials,
    }
}

fn catalog(ids: &[&str]) -> CatalogEvidence {
    CatalogEvidence {
        location: Some(Ok(text(LOCATION))),
        endpoint: Some(Ok(text("http://127.0.0.1:7000"))),
        reply: Some(CatalogReply::Metadata(IssuerMetadata::new(
            text(ISSUER),
            ids.iter().map(|id| object(id, Some("T"))).collect(),
        ))),
    }
}

fn make_offer(state: &mut AppState, offer: &CredentialOfferMessage, evidence: &CatalogEvidence) -> OfferStep {
    let before = state.store.graph().offers().unwrap().len();
    let step = credential_offer(state, &sender(), offer, evidence).expect("graph");
    let added = match step {
        OfferStep::Recorded(_) => 1,
        _ => 0,
    };
    assert_eq!(state.store.graph().offers().unwrap().len(), before + added);
    step
}

fn offer_refused(step: OfferStep) -> Reply {
    match step {
        OfferStep::Refuse(reply) => reply,
        other => panic!("expected a refusal, got {other:?}"),
    }
}

#[test]
fn credential_offer_rejects_an_empty_credentials_array() {
    let mut state = trusting(&[ISSUER]);
    let reply = offer_refused(make_offer(&mut state, &offer(vec![]), &CatalogEvidence::new()));
    assert_eq!(reply.status, 400);
    assert_eq!(reply.body, "a CredentialOfferMessage must offer at least one credential");
}

#[test]
fn credential_offer_accepts_a_full_credential_object_without_a_catalog_lookup() {
    let mut state = trusting(&[ISSUER]);
    let full = offer(vec![object("c-1", Some("MembershipCredential"))]);
    let id = match make_offer(&mut state, &full, &CatalogEvidence::new()) {
        OfferStep::Recorded(id) => id,
        other => panic!("{other:?}"),
    };
    let recorded = state.store.graph().offer(&id).unwrap().unwrap();
    assert_eq!(recorded.issuer, ISSUER);
    assert_eq!(recorded.credentials[0].id, "c-1");
    assert_eq!(recorded.credentials[0].credential_type.as_deref(), Some("MembershipCredential"));
}

#[test]
fn credential_offer_rejects_a_sparse_offer_with_unrecognized_ids() {
    let mut state = trusting(&[ISSUER]);
    let sparse = offer(vec![object("known", None), object("unknown", None), object("other", None)]);
    let reply = offer_refused(make_offer(&mut state, &sparse, &catalog(&["known"])));
    assert_eq!(reply.status, 400);
    assert_eq!(
        reply.body,
        "offered credential id 'unknown' does not match the issuer's own known catalog"
    );
}

#[test]
fn credential_offer_accepts_a_sparse_offer_with_catalog_known_ids() {
    let mut state = trusting(&[ISSUER]);
    let sparse = offer(vec![object("b", None), object("a", None)]);
    let step = make_offer(&mut state, &sparse, &catalog(&["a", "b", "c"]));
    assert!(matches!(step, OfferStep::Recorded(_)));
}

#[test]
fn what_is_needed_of_a_catalog_is_asked_for_in_order() {
    let mut state = trusting(&[ISSUER]);
    let sparse = offer(vec![object("a", None)]);
    let mut evidence = CatalogEvidence::new();
    let step = make_offer(&mut state, &sparse, &evidence);
    assert!(matches!(step, OfferStep::Need(CatalogStep::Locate(did)) if did == ISSUER));
    evidence.location = Some(Ok(text(LOCATION)));
    let step = make_offer(&mut state, &sparse, &evidence);
    assert!(matches!(step, OfferStep::Need(CatalogStep::Resolve(did)) if did == ISSUER));
    evidence.endpoint = Some(Ok(text("http://127.0.0.1:7000")));
    let step = make_offer(&mut state, &sparse, &evidence);
    assert!(matches!(
        step,
        OfferStep::Need(CatalogStep::Fetch(url)) if url == "http://127.0.0.1:7000/metadata"
    ));
}

#[test]
fn a_catalog_that_cannot_be_had_refuses_the_offer() {
    let mut state = trusting(&[ISSUER]);
    let sparse = offer(vec![object("a", None)]);
    let prefix = "could not resolve the offering issuer's own credential catalog: ";
    let mut body_for = |evidence: CatalogEvidence| {
        offer_refused(make_offer(&mut state, &sparse, &evidence)).body
    };
    let mut evidence = catalog(&["a"]);
    evidence.location = Some(Ok(text("http://evil.example/did.json")));
    assert!(body_for(evidence).starts_with(prefix));
    let mut evidence = catalog(&["a"]);
    evidence.endpoint = Some(Ok(text("http://evil.example")));
    assert!(body_for(evidence).contains("'evil.example'"));
    let mut evidence = catalog(&["a"]);
    evidence.endpoint = Some(Err(text("no IssuerService entry")));
    assert_eq!(body_for(evidence), format!("{prefix}no IssuerService entry"));
    let mut evidence = catalog(&["a"]);
    evidence.reply = Some(CatalogReply::Status(text("503 Service Unavailable")));
    assert_eq!(
        body_for(evidence),
        format!("{prefix}issuer metadata endpoint returned HTTP 503 Service Unavailable")
    );
    let mut evidence = catalog(&["a"]);
    evidence.reply = Some(CatalogReply::Failed(text("connection refused")));
    assert_eq!(body_for(evidence), format!("{prefix}connection refused"));
    let mut evidence = catalog(&["a"]);
    evidence.reply = Some(CatalogReply::Unreadable(text("expected value")));
    assert_eq!(body_for(evidence), format!("{prefix}expected value"));
    let mut evidence = catalog(&["a"]);
    let mut none = IssuerMetadata::new(text(ISSUER), Vec::new());
    none.credentials_supported = None;
    evidence.reply = Some(CatalogReply::Metadata(none));
    assert!(body_for(evidence).starts_with("offered credential id 'a'"));
}

#[test]
fn credential_offer_rejects_a_token_from_an_untrusted_issuer() {
    let mut state = trusting(&["did:web:someone-else"]);
    let full = offer(vec![object("c-1", Some("MembershipCredential"))]);
    assert_eq!(offer_refused(make_offer(&mut state, &full, &CatalogEvidence::new())).status, 401);
    let mut state = service(config());
    assert_eq!(offer_refused(make_offer(&mut state, &full, &CatalogEvidence::new())).status, 401);
}

#[test]
fn credential_offer_accepts_a_token_from_a_trusted_issuer() {
    let mut state = trusting(&[ISSUER]);
    let full = offer(vec![object("c-1", Some("MembershipCredential"))]);
    let step = make_offer(&mut state, &full, &CatalogEvidence::new());
    assert!(matches!(step, OfferStep::Recorded(_)));
}

#[test]
fn errors_name_what_is_refused() {
    assert!(matches!(
        validate_status("x").unwrap_err(),
        ValidationError::InvalidStatus(status) if status == "x"
    ));
    assert!(matches!(
        check_known_holder_pid("p", &vec![text("q")]).unwrap_err(),
        ValidationError::UnknownHolderPid(pid) if pid == "p"
    ));
}

#[test]
fn did_documents_are_served_under_their_segments() {
    let state = service(config());
    let own = did_document(&state, "credential-service").unwrap();
    assert_eq!(own.id, "did:web:localhost%3A8080:credential-service");
    assert_eq!(own.service.len(), 1);
    assert_eq!(own.service[0].service_type, "CredentialService");
    assert_eq!(own.service[0].service_endpoint, "http://localhost:8080");
    assert_eq!(own.capability_invocation, vec![text("own-key")]);
    let party = did_document(&state, "sts-party").unwrap();
    assert_eq!(party.id, "did:web:127.0.0.1%3A8080:sts-party");
    assert!(party.service.is_empty());
    assert_eq!(party.authentication, vec![text("sts-key")]);
    assert!(did_document(&state, "issuer-service").is_none());
    let issuer =
        service(Config::for_test(Mode::IssuerService, 8081, text("issuer.example")));
    let doc = did_document(&issuer, "issuer-service").unwrap();
    assert_eq!(doc.service[0].service_type, "IssuerService");
}

fn form(secret: &str) -> StsForm {
    StsForm {
        grant_type: text("client_credentials"),
        client_id: text("tck-client"),
        client_secret: text(secret),
        audience: text("did:web:localhost%3A8080:credential-service"),
        bearer_access_scope: Some(text("scope-1")),
    }
}

#[test]
fn token_requests_are_answered_or_refused() {
    let state = service(config());
    let pending = sts_token(&state, form("tck-secret"), 500).unwrap();
    assert_eq!(pending.id.iss, "did:web:127.0.0.1%3A8080:sts-party");
    let access = pending.access.unwrap();
    assert_eq!(access.aud, "did:web:127.0.0.1%3A8080:sts-party");
    assert_eq!(access.scope, "scope-1");
    let refusal = sts_token(&state, form("wrong"), 500).unwrap_err();
    assert_eq!(refusal.status, 400);
    assert_eq!(refusal.error, "invalid_client");
    assert_eq!(refusal.error_description, "invalid_client: unknown client_id/client_secret");
}
