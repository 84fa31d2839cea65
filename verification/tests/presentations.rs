//! The Presentation API.

use identity_hub::auth::{verify_bearer_token, AuthError, TokenVerdict};
use identity_hub::config::{Config, Mode};
use identity_hub::evidence::{Claims, DecodedToken, DidKeys, Step, TokenEvidence};
use identity_hub::handlers::{sts_token, StsForm};
use identity_hub::identity::PublicKey;
use identity_hub::json::JsonValue;
use identity_hub::messages::{dcp_context, CredentialContainer, PresentationQueryMessage};
use identity_hub::presentation::{
    build_presentation, check_query, effective_types, granted_credential_types,
    presentation_query, Grant, PresentationClaims, PresentationStep,
};
use identity_hub::reply::Reply;
use identity_hub::state::AppState;
use identity_hub::store::StoredCredentialBatch;

const NOW: u64 = 1_000_000;
const CALLER: &str = "did:web:127.0.0.1%3A7000:verifier";
const STS: &str = "did:web:127.0.0.1%3A8080:sts-party";
const STS_KEY: &str = "sts-key";
const STS_LOCATION: &str = "http://127.0.0.1:8080/sts-party/did.json";
const MEMBERSHIP: &str = "org.eclipse.dspace.dcp.vc.type:MembershipCredential";
const SENSITIVE: &str = "org.eclipse.dspace.dcp.vc.type:SensitiveDataCredential";

fn text(s: &str) -> String {
    s.to_string()
}

fn list(items: &[&str]) -> Vec<String> {
    items.iter().map(|s| s.to_string()).collect()
}

fn key(id: &str) -> PublicKey {
    PublicKey { key_id: text(id), x: text("x"), y: text("y") }
}

fn container(credential_type: &str) -> CredentialContainer {
    CredentialContainer {
        credential_type: text(credential_type),
        payload: JsonValue::Text(format!("jws-of-{credential_type}")),
        format: text("jwt"),
    }
}

fn seeded() -> AppState {
    let config = Config::for_test(Mode::CredentialService, 8080, text("localhost:8080"));
    let mut state = match AppState::new(config, key("own-key"), key(STS_KEY)) {
        Ok(state) => state,
        Err(error) => panic!("{error:?}"),
    };
    for credential_type in ["MembershipCredential", "SensitiveDataCredential"] {
        state
            .store
            .store(&StoredCredentialBatch {
                issuer_pid: text("issuer"),
                holder_pid: None,
                status: text("ISSUED"),
                rejection_reason: None,
                credentials: vec![container(credential_type)],
            })
            .unwrap();
    }
    state
}

fn caller(token: Option<&str>) -> Claims {
    let mut claims = Claims::empty();
    claims.iss = Some(text(CALLER));
    claims.sub = Some(text(CALLER));
    claims.token = token.map(|t| t.to_string());
    claims
}

fn granting(scope: &str) -> TokenEvidence {
    let mut claims = Claims::empty();
    claims.iss = Some(text(STS));
    claims.aud = Some(text(CALLER));
    claims.exp = Some(NOW + 300);
    claims.scope = Some(text(scope));
    authentic(claims)
}

fn authentic(claims: Claims) -> TokenEvidence {
    TokenEvidence {
        decoded: Some(Ok(DecodedToken { kid: Some(text(STS_KEY)), claims })),
        location: Some(Ok(text(STS_LOCATION))),
        document: Some(Ok(DidKeys { capability_invocation: vec![text(STS_KEY)] })),
        key: Some(Ok(())),
        signature: Some(Ok(())),
    }
}

fn query(scopes: &[&str]) -> PresentationQueryMessage {
    PresentationQueryMessage {
        context: dcp_context(),
        message_type: text("PresentationQueryMessage"),
        scope: list(scopes),
        presentation_definition: None,
    }
}

fn ask(claims: &Claims, scopes: &[&str], evidence: &TokenEvidence) -> PresentationStep {
    presentation_query(&seeded(), claims, &query(scopes), evidence, NOW).expect("graph")
}

fn presented(step: PresentationStep) -> PresentationClaims {
    match step {
        PresentationStep::Present(claims) => claims,
        other => panic!("expected a presentation, got {other:?}"),
    }
}

fn refused(step: PresentationStep) -> Reply {
    match step {
        PresentationStep::Refuse(reply) => reply,
        other => panic!("expected a refusal, got {other:?}"),
    }
}

fn shown(step: PresentationStep) -> Vec<String> {
    let mut out: Vec<String> = presented(step)
        .vp
        .verifiable_credential
        .iter()
        .map(|v| v.as_str().unwrap().to_string())
        .collect();
    out.sort();
    out
}

#[test]
fn presentation_query_filters_response_to_the_tokens_own_granted_scope() {
    let step = ask(&caller(Some("nested")), &[MEMBERSHIP, SENSITIVE], &granting(MEMBERSHIP));
    assert_eq!(shown(step), list(&["jws-of-MembershipCredential"]));
    let step = ask(&caller(Some("nested")), &[SENSITIVE], &granting(MEMBERSHIP));
    assert!(shown(step).is_empty());
}

#[test]
fn presentation_query_returns_everything_within_a_broad_grant() {
    let broad = format!("{MEMBERSHIP} {SENSITIVE}");
    let step = ask(&caller(Some("nested")), &[MEMBERSHIP, SENSITIVE], &granting(&broad));
    assert_eq!(
        shown(step),
        list(&["jws-of-MembershipCredential", "jws-of-SensitiveDataCredential"])
    );
    let step = ask(&caller(Some("nested")), &[SENSITIVE], &granting(&broad));
    assert_eq!(shown(step), list(&["jws-of-SensitiveDataCredential"]));
}

#[test]
fn presentation_query_without_a_nested_token_still_succeeds() {
    let step = ask(&caller(None), &[MEMBERSHIP], &TokenEvidence::new());
    let claims = presented(step);
    assert_eq!(claims.iss, "did:web:localhost%3A8080:credential-service");
    assert_eq!(claims.sub, claims.iss);
    assert_eq!(claims.aud, CALLER);
    assert_eq!((claims.iat, claims.exp), (NOW, NOW + 300));
    assert_eq!(claims.vp.holder, claims.iss);
    assert_eq!(claims.vp.types, list(&["VerifiablePresentation"]));
    assert_eq!(claims.vp.context, list(&["https://www.w3.org/2018/credentials/v1"]));
}

#[test]
fn presentation_query_without_a_nested_token_discloses_nothing() {
    let step = ask(&caller(None), &[MEMBERSHIP, SENSITIVE], &TokenEvidence::new());
    assert!(shown(step).is_empty());
}

#[test]
fn a_nested_token_that_does_not_hold_refuses_the_request() {
    let mut late = granting(MEMBERSHIP);
    if let Some(Ok(decoded)) = &mut late.decoded {
        decoded.claims.exp = Some(NOW - 1);
    }
    let reply = refused(ask(&caller(Some("nested")), &[MEMBERSHIP], &late));
    assert_eq!(reply.status, 401);
    assert_eq!(reply.body, "nested access token has expired");
    let step = ask(&caller(Some("nested")), &[MEMBERSHIP], &TokenEvidence::new());
    assert!(matches!(step, PresentationStep::Need(Step::Decode(token)) if token == "nested"));
}

#[test]
fn a_token_from_this_hubs_own_sts_is_accepted_by_its_own_presentation_api() {
    let state = seeded();
    let form = StsForm {
        grant_type: text("client_credentials"),
        client_id: text("tck-client"),
        client_secret: text("tck-secret"),
        audience: text("did:web:localhost%3A8080:credential-service"),
        bearer_access_scope: Some(text(MEMBERSHIP)),
    };
    let mut pending = sts_token(&state, form, NOW).unwrap();
    let access = pending.access.take().unwrap();
    let id = pending.id_token(Some(text("signed-access-token")));
    let mut outer = Claims::empty();
    outer.iss = Some(id.iss);
    outer.sub = Some(id.sub);
    outer.token = id.token;
    let mut nested = Claims::empty();
    nested.iss = Some(access.iss);
    nested.aud = Some(access.aud);
    nested.exp = Some(access.exp);
    nested.scope = Some(access.scope);
    let step =
        presentation_query(&state, &outer, &query(&[MEMBERSHIP]), &authentic(nested), NOW).unwrap();
    assert_eq!(shown(step), list(&["jws-of-MembershipCredential"]));
}

#[test]
fn an_own_token_is_accepted_once_and_shows_what_it_grants() {
    let mut state = seeded();
    let own = text("did:web:localhost%3A8080:credential-service");
    let form = StsForm {
        grant_type: text("client_credentials"),
        client_id: text("tck-client"),
        client_secret: text("tck-secret"),
        audience: own.clone(),
        bearer_access_scope: Some(text(MEMBERSHIP)),
    };
    let mut pending = sts_token(&state, form, NOW).unwrap();
    let access = pending.access.take().unwrap();
    let id = pending.id_token(Some(text("signed-access-token")));
    let mut outer = Claims::empty();
    outer.iss = Some(id.iss);
    outer.sub = Some(id.sub);
    outer.aud = Some(id.aud);
    outer.exp = Some(id.exp);
    outer.nbf = Some(id.nbf);
    outer.iat = Some(id.iat);
    outer.jti = Some(id.jti);
    outer.token = id.token;
    let mut nested = Claims::empty();
    nested.iss = Some(access.iss);
    nested.aud = Some(access.aud);
    nested.exp = Some(access.exp);
    nested.scope = Some(access.scope);
    let header = Some(text("Bearer signed-id-token"));
    let outer = authentic(outer);
    let accepted =
        match verify_bearer_token(&header, &outer, &own, &state.outbound, NOW, &mut state.seen_jti) {
            TokenVerdict::Accept(claims) => claims,
            other => panic!("{other:?}"),
        };
    let asked = query(&[SENSITIVE, MEMBERSHIP]);
    let step = presentation_query(&state, &accepted, &asked, &authentic(nested), NOW).unwrap();
    assert_eq!(shown(step), list(&["jws-of-MembershipCredential"]));
    assert!(matches!(
        verify_bearer_token(&header, &outer, &own, &state.outbound, NOW, &mut state.seen_jti),
        TokenVerdict::Reject(AuthError::TokenReplayed)
    ));
}

#[test]
fn queries_are_checked_before_anything_else() {
    let body = |scopes: &[&str], definition: Option<&str>| {
        let mut message = query(scopes);
        message.presentation_definition = definition.map(|d| JsonValue::from_text(d).unwrap());
        match check_query(&message) {
            Ok(()) => (200, String::new()),
            Err(reply) => (reply.status, reply.body),
        }
    };
    assert_eq!(body(&[MEMBERSHIP], None), (200, String::new()));
    assert_eq!(
        body(&[], None),
        (
            400,
            text("PresentationQueryMessage must set a non-empty scope or a presentationDefinition")
        )
    );
    assert_eq!(
        body(&[MEMBERSHIP], Some(r#"{"id": "x"}"#)),
        (
            400,
            text("PresentationQueryMessage must not set both scope and presentationDefinition")
        )
    );
    assert_eq!(body(&[], Some(r#"{"id": "x"}"#)), (501, String::new()));
    for malformed in ["{}", "null", "[1]", "\"x\"", "7"] {
        assert_eq!(
            body(&[MEMBERSHIP], Some(malformed)),
            (400, text("presentationDefinition must be a non-empty object"))
        );
    }
}

#[test]
fn grants_are_read_from_the_scope_claim() {
    let state = seeded();
    let types = |claims: &Claims, evidence: &TokenEvidence| {
        match granted_credential_types(&state, claims, evidence, NOW) {
            Grant::Types(types) => types,
            other => panic!("{other:?}"),
        }
    };
    assert!(types(&caller(None), &TokenEvidence::new()).is_empty());
    assert_eq!(
        types(&caller(Some("n")), &granting(&format!("{SENSITIVE} junk {SENSITIVE}:read"))),
        list(&["SensitiveDataCredential"])
    );
    assert!(types(&caller(Some("n")), &granting("")).is_empty());
}

#[test]
fn only_what_is_both_requested_and_granted_is_effective() {
    assert_eq!(effective_types(&list(&["A", "B", "C"]), &list(&["C", "A"])), list(&["A", "C"]));
    assert!(effective_types(&list(&["A"]), &Vec::new()).is_empty());
    assert!(effective_types(&Vec::new(), &list(&["A"])).is_empty());
}

#[test]
fn presentations_show_payloads_as_they_are_stored() {
    let state = seeded();
    let mut object = container("A");
    object.payload = JsonValue::Json(text("{\"a\":1}"));
    let claims = build_presentation(&state.identity, "aud-1", &vec![object, container("B")], 5);
    assert_eq!(
        claims.vp.verifiable_credential,
        vec![JsonValue::Json(text("{\"a\":1}")), JsonValue::Text(text("jws-of-B"))]
    );
    assert_eq!(claims.aud, "aud-1");
    assert_eq!(claims.exp, 305);
    assert_eq!(claims.jti.len(), 36);
}
