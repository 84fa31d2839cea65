//! The routes that ask who calls.

use identity_hub::config::{Config, Mode};
use identity_hub::evidence::{Claims, DecodedToken, DidKeys, Step, TokenEvidence};
use identity_hub::handlers::{OfferStep, StorageStep};
use identity_hub::identity::PublicKey;
use identity_hub::issuance::RequestOutcome;
use identity_hub::json::JsonValue;
use identity_hub::messages::{
    credential_message_type, dcp_context, CredentialContainer, CredentialMessage, CredentialObject,
    CredentialOfferMessage, CredentialRef, CredentialRequestMessage, PresentationQueryMessage,
};
use identity_hub::presentation::PresentationStep;
use identity_hub::reply::Reply;
use identity_hub::routes::{
    issuance_request, offer_request, presentation_request, storage_request, Caller, Routed,
};
use identity_hub::state::AppState;
use identity_hub::validation::CatalogEvidence;

const NOW: u64 = 1_000_000;
const CALLER: &str = "did:web:127.0.0.1%3A7000:issuer";
const KID: &str = "did:web:127.0.0.1%3A7000:issuer#key-1";

fn text(s: &str) -> String {
    s.to_string()
}

fn service(mode: Mode) -> AppState {
    let config = Config::for_test(mode, 8080, text("localhost:8080"))
        .with_trusted_issuer_dids(vec![text(CALLER)]);
    let key = |id: &str| PublicKey { key_id: text(id), x: text("x"), y: text("y") };
    match AppState::new(config, key("own"), key("sts")) {
        Ok(state) => state,
        Err(error) => panic!("{error:?}"),
    }
}

fn authentic(claims: Claims) -> TokenEvidence {
    TokenEvidence {
        decoded: Some(Ok(DecodedToken { kid: Some(text(KID)), claims })),
        location: Some(Ok(text("http://127.0.0.1:7000/issuer/did.json"))),
        document: Some(Ok(DidKeys { capability_invocation: vec![text(KID)] })),
        key: Some(Ok(())),
        signature: Some(Ok(())),
    }
}

/// A caller with an authentic token that ends at `exp`.
fn until(state: &AppState, exp: u64) -> Caller {
    let mut claims = Claims::empty();
    claims.iss = Some(text(CALLER));
    claims.sub = Some(text(CALLER));
    claims.aud = Some(text(state.identity.own_did()));
    claims.exp = Some(exp);
    claims.jti = Some(text("jti-1"));
    Caller::Presents(Some(text("Bearer token-1")), authentic(claims))
}

fn message() -> CredentialMessage {
    CredentialMessage {
        context: dcp_context(),
        message_type: credential_message_type(),
        issuer_pid: text("issuer-pid-1"),
        holder_pid: text("holder-pid-1"),
        status: text("ISSUED"),
        credentials: vec![CredentialContainer {
            credential_type: text("MembershipCredential"),
            payload: JsonValue::Text(text("a.jws.here")),
            format: text("jwt"),
        }],
        rejection_reason: None,
    }
}

fn proven() -> TokenEvidence {
    let mut claims = Claims::empty();
    claims.iss = Some(text(CALLER));
    authentic(claims)
}

fn offer() -> CredentialOfferMessage {
    CredentialOfferMessage {
        context: dcp_context(),
        message_type: text("CredentialOfferMessage"),
        issuer: text(CALLER),
        credentials: vec![CredentialObject {
            context: None,
            id: text("c-1"),
            object_type: text("CredentialObject"),
            credential_type: Some(text("MembershipCredential")),
            binding_methods: None,
            credential_schema: None,
            profile: None,
            issuance_policy: None,
            offer_reason: None,
        }],
    }
}

fn query() -> PresentationQueryMessage {
    PresentationQueryMessage {
        context: dcp_context(),
        message_type: text("PresentationQueryMessage"),
        scope: vec![text("org.eclipse.dspace.dcp.vc.type:MembershipCredential")],
        presentation_definition: None,
    }
}

fn request() -> CredentialRequestMessage {
    CredentialRequestMessage {
        context: dcp_context(),
        message_type: text("CredentialRequestMessage"),
        holder_pid: text("holder-pid-1"),
        credentials: vec![CredentialRef { id: text("membership-credential") }],
    }
}

/// The reply by which the caller is refused, if it is.
fn refusal<S>(routed: Routed<S>) -> Option<Reply> {
    match routed {
        Routed::Refuse(reply) => Some(reply),
        _ => None,
    }
}

/// Asks every route, on behalf of the caller, and gives the replies that refuse
/// it.
fn refusals(state: &mut AppState, caller: &Caller) -> Vec<Option<Reply>> {
    let proofs = vec![proven()];
    vec![
        refusal(storage_request(state, caller, &message(), &proofs, NOW).unwrap()),
        refusal(offer_request(state, caller, &offer(), &CatalogEvidence::new(), NOW).unwrap()),
        refusal(presentation_request(state, caller, &query(), &proven(), NOW).unwrap()),
        refusal(issuance_request(state, caller, &request(), NOW)),
    ]
}

fn assert_untouched(state: &AppState) {
    assert!(state.store.all().unwrap().is_empty());
    assert!(state.store.graph().offers().unwrap().is_empty());
    assert_eq!(state.requests.len(), 0);
    assert_eq!(state.seen_jti.len(), 0);
}

#[test]
fn a_refused_caller_is_answered_401_and_changes_nothing() {
    let mut state = service(Mode::CredentialService);
    let late = until(&state, NOW);
    let unsigned = match until(&state, NOW + 300) {
        Caller::Presents(header, mut evidence) => {
            evidence.signature = Some(Err(text("bad signature")));
            Caller::Presents(header, evidence)
        }
        other => other,
    };
    for (caller, part) in [
        (Caller::Presents(None, TokenEvidence::new()), "missing"),
        (late, "expired"),
        (unsigned, "bad signature"),
    ] {
        for reply in refusals(&mut state, &caller) {
            let reply = reply.expect("the caller is refused");
            assert_eq!(reply.status, 401);
            assert!(reply.body.to_lowercase().contains(part), "{}", reply.body);
        }
        assert_untouched(&state);
    }
}

#[test]
fn what_is_needed_of_the_callers_token_is_asked_for_first() {
    let mut state = service(Mode::CredentialService);
    let caller = Caller::Presents(Some(text("Bearer token-1")), TokenEvidence::new());
    let routed = storage_request(&mut state, &caller, &message(), &vec![proven()], NOW).unwrap();
    assert!(matches!(routed, Routed::Identify(Step::Decode(token)) if token == "token-1"));
    let routed = issuance_request(&mut state, &caller, &request(), NOW);
    assert!(matches!(routed, Routed::Identify(Step::Decode(_))));
    assert_untouched(&state);
}

#[test]
fn a_caller_that_is_known_is_not_identified_again() {
    let mut state = service(Mode::CredentialService);
    let caller = until(&state, NOW + 300);
    let nothing = vec![TokenEvidence::new()];
    let known = match storage_request(&mut state, &caller, &message(), &nothing, NOW).unwrap() {
        Routed::Decided(known, StorageStep::Need(0, Step::Decode(jws))) => {
            assert_eq!(jws, "a.jws.here");
            known
        }
        other => panic!("{other:?}"),
    };
    assert_eq!(known.claims().iss.as_deref(), Some(CALLER));
    assert_eq!(state.seen_jti.len(), 1);
    let known = Caller::Known(known);
    let routed = storage_request(&mut state, &known, &message(), &vec![proven()], NOW).unwrap();
    assert!(matches!(routed, Routed::Decided(_, StorageStep::Stored)));
    assert_eq!(state.store.all().unwrap().len(), 1);
    assert_eq!(state.seen_jti.len(), 1);
    let replayed = refusals(&mut state, &caller);
    assert!(replayed.iter().all(|reply| reply.is_some()));
    assert_eq!(state.store.all().unwrap().len(), 1);
}

#[test]
fn an_accepted_caller_is_answered_by_each_route() {
    let mut state = service(Mode::CredentialService);
    let caller = until(&state, NOW + 300);
    match offer_request(&mut state, &caller, &offer(), &CatalogEvidence::new(), NOW).unwrap() {
        Routed::Decided(_, OfferStep::Recorded(id)) => {
            assert!(state.store.graph().offer(&id).unwrap().is_some());
        }
        other => panic!("{other:?}"),
    }
    let mut state = service(Mode::CredentialService);
    let nested = TokenEvidence::new();
    match presentation_request(&mut state, &caller, &query(), &nested, NOW).unwrap() {
        Routed::Decided(known, PresentationStep::Present(shown)) => {
            assert_eq!(known.claims().sub.as_deref(), Some(CALLER));
            assert_eq!(shown.aud, CALLER);
            assert!(shown.vp.verifiable_credential.is_empty());
        }
        other => panic!("{other:?}"),
    }
    let mut state = service(Mode::IssuerService);
    let caller = until(&state, NOW + 300);
    match issuance_request(&mut state, &caller, &request(), NOW) {
        Routed::Decided(_, RequestOutcome::Accepted(_, job)) => {
            assert_eq!(job.holder_did, CALLER);
            assert_eq!(state.requests.len(), 1);
        }
        other => panic!("{other:?}"),
    }
}
