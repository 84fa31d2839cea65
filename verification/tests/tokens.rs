//! Decisions on callers' tokens and on the access tokens nested in them.

use identity_hub::auth::{
    bearer_token, check_trusted_issuer, verify_bearer_token, verify_nested_access_token, AuthError,
    TokenVerdict,
};
use identity_hub::evidence::{Claims, DecodedToken, DidKeys, Step, TokenEvidence};
use identity_hub::outbound::OutboundPolicy;
use identity_hub::replay::ReplayGuard;
use identity_hub::reply::auth_error_response;

const NOW: u64 = 1_000_000;
const CALLER: &str = "did:web:127.0.0.1%3A7000:issuer";
const KID: &str = "did:web:127.0.0.1%3A7000:issuer#key-1";
const LOCATION: &str = "http://127.0.0.1:7000/issuer/did.json";
const OWN: &str = "did:web:localhost%3A8080:credential-service";
const STS: &str = "did:web:127.0.0.1%3A8080:sts-party";

fn text(s: &str) -> String {
    s.to_string()
}

fn header() -> Option<String> {
    Some(text("Bearer token-1"))
}

fn policy() -> OutboundPolicy {
    OutboundPolicy::new(vec![text("localhost"), text("127.0.0.1")])
}

fn claims() -> Claims {
    let mut claims = Claims::empty();
    claims.iss = Some(text(CALLER));
    claims.sub = Some(text(CALLER));
    claims.aud = Some(text(OWN));
    claims.exp = Some(NOW + 300);
    claims.nbf = Some(NOW);
    claims.iat = Some(NOW);
    claims.jti = Some(text("jti-1"));
    claims
}

/// Everything is known of a token with these claims, and it is authentic.
fn known(claims: Claims) -> TokenEvidence {
    TokenEvidence {
        decoded: Some(Ok(DecodedToken { kid: Some(text(KID)), claims })),
        location: Some(Ok(text(LOCATION))),
        document: Some(Ok(DidKeys { capability_invocation: vec![text(KID)] })),
        key: Some(Ok(())),
        signature: Some(Ok(())),
    }
}

fn verdict(evidence: &TokenEvidence) -> TokenVerdict {
    let mut seen = ReplayGuard::new();
    let res = verify_bearer_token(&header(), evidence, OWN, &policy(), NOW, &mut seen);
    match &res {
        TokenVerdict::Accept(accepted) => assert_eq!(seen.len(), accepted.jti.iter().count()),
        _ => assert_eq!(seen.len(), 0),
    }
    res
}

fn rejection(evidence: &TokenEvidence) -> AuthError {
    match verdict(evidence) {
        TokenVerdict::Reject(error) => error,
        other => panic!("expected a rejection, got {other:?}"),
    }
}

fn step(evidence: &TokenEvidence) -> Step {
    match verdict(evidence) {
        TokenVerdict::Need(step) => step,
        other => panic!("expected a step, got {other:?}"),
    }
}

#[test]
fn bearer_tokens_follow_an_exact_prefix() {
    assert_eq!(bearer_token(&Some(text("Bearer abc"))), Some(text("abc")));
    assert_eq!(bearer_token(&Some(text("Bearer "))), Some(text("")));
    assert_eq!(bearer_token(&Some(text("Bearer  a b"))), Some(text(" a b")));
    assert_eq!(bearer_token(&Some(text("bearer abc"))), None);
    assert_eq!(bearer_token(&Some(text("Bearer"))), None);
    assert_eq!(bearer_token(&Some(text("Basic abc"))), None);
    assert_eq!(bearer_token(&None), None);
}

#[test]
fn what_is_needed_of_a_token_is_asked_for_in_order() {
    let mut evidence = TokenEvidence::new();
    assert!(matches!(step(&evidence), Step::Decode(token) if token == "token-1"));
    evidence.decoded = Some(Ok(DecodedToken { kid: Some(text(KID)), claims: claims() }));
    assert!(matches!(step(&evidence), Step::Locate(did) if did == CALLER));
    evidence.location = Some(Ok(text(LOCATION)));
    assert!(matches!(step(&evidence), Step::Resolve(did) if did == CALLER));
    evidence.document = Some(Ok(DidKeys { capability_invocation: vec![text(KID)] }));
    assert!(matches!(step(&evidence), Step::FindKey(kid) if kid == KID));
    evidence.key = Some(Ok(()));
    assert!(matches!(step(&evidence), Step::CheckSignature));
    evidence.signature = Some(Ok(()));
    assert!(matches!(verdict(&evidence), TokenVerdict::Accept(_)));
}

#[test]
fn storage_write_accepts_a_genuinely_valid_token() {
    match verdict(&known(claims())) {
        TokenVerdict::Accept(accepted) => {
            assert_eq!(accepted.iss.as_deref(), Some(CALLER));
            assert_eq!(accepted.jti.as_deref(), Some("jti-1"));
        }
        other => panic!("{other:?}"),
    }
}

#[test]
fn storage_write_rejects_missing_auth_header() {
    let mut seen = ReplayGuard::new();
    let res = verify_bearer_token(&None, &known(claims()), OWN, &policy(), NOW, &mut seen);
    match res {
        TokenVerdict::Reject(error) => {
            assert!(matches!(error, AuthError::MissingToken));
            let reply = auth_error_response(&error);
            assert_eq!(reply.status, 401);
            assert_eq!(reply.body, "missing or malformed Authorization: Bearer header");
        }
        other => panic!("{other:?}"),
    }
}

#[test]
fn storage_write_rejects_token_missing_bearer_prefix() {
    let mut seen = ReplayGuard::new();
    let bare = Some(text("token-1"));
    let res = verify_bearer_token(&bare, &known(claims()), OWN, &policy(), NOW, &mut seen);
    assert!(matches!(res, TokenVerdict::Reject(AuthError::MissingToken)));
}

#[test]
fn storage_write_rejects_malformed_token() {
    let mut evidence = TokenEvidence::new();
    evidence.decoded = Some(Err(text("not a JWS")));
    assert_eq!(rejection(&evidence).message(), "signature verification failed: not a JWS");
}

#[test]
fn a_token_needs_an_issuer_and_a_key_id() {
    let mut anonymous = claims();
    anonymous.iss = None;
    assert_eq!(
        rejection(&known(anonymous)).message(),
        "signature verification failed: token has no iss claim"
    );
    let mut evidence = known(claims());
    evidence.decoded = Some(Ok(DecodedToken { kid: None, claims: claims() }));
    assert_eq!(
        rejection(&evidence).message(),
        "signature verification failed: token has no kid header"
    );
}

#[test]
fn storage_write_rejects_expired_token() {
    let mut late = claims();
    late.exp = Some(NOW);
    assert!(matches!(rejection(&known(late)), AuthError::Expired));
    let mut endless = claims();
    endless.exp = None;
    assert!(matches!(rejection(&known(endless)), AuthError::Expired));
}

#[test]
fn storage_write_rejects_wrong_audience() {
    let mut other = claims();
    other.aud = Some(text("did:web:somebody-else"));
    assert!(matches!(rejection(&known(other)), AuthError::WrongAudience));
}

#[test]
fn storage_write_rejects_invalid_signature() {
    let mut evidence = known(claims());
    evidence.signature = Some(Err(text("bad signature")));
    assert_eq!(rejection(&evidence).message(), "signature verification failed: bad signature");
    let mut evidence = known(claims());
    evidence.key = Some(Err(text("no such key")));
    assert_eq!(rejection(&evidence).message(), "signature verification failed: no such key");
}

#[test]
fn storage_write_rejects_token_whose_sub_does_not_match_iss() {
    let mut other = claims();
    other.sub = Some(text("did:web:somebody-else"));
    assert!(matches!(rejection(&known(other)), AuthError::IssuerSubjectMismatch));
}

#[test]
fn storage_write_rejects_token_with_no_sub_claim_at_all() {
    let mut none = claims();
    none.sub = None;
    assert!(matches!(rejection(&known(none)), AuthError::IssuerSubjectMismatch));
}

#[test]
fn storage_write_rejects_token_not_yet_valid() {
    let mut early = claims();
    early.nbf = Some(NOW + 31);
    assert!(matches!(rejection(&known(early)), AuthError::NotYetValid));
    let mut just = claims();
    just.nbf = Some(NOW + 30);
    assert!(matches!(verdict(&known(just)), TokenVerdict::Accept(_)));
}

#[test]
fn storage_write_rejects_token_with_iat_in_the_future() {
    let mut early = claims();
    early.iat = Some(NOW + 3600);
    assert!(matches!(rejection(&known(early)), AuthError::IssuedInFuture));
}

#[test]
fn storage_write_accepts_a_token_with_iat_within_clock_skew_leeway() {
    let mut just = claims();
    just.iat = Some(NOW + 5);
    assert!(matches!(verdict(&known(just)), TokenVerdict::Accept(_)));
}

#[test]
fn storage_write_rejects_a_key_not_listed_under_capability_invocation() {
    let mut evidence = known(claims());
    evidence.document = Some(Ok(DidKeys { capability_invocation: vec![] }));
    assert!(matches!(
        rejection(&evidence),
        AuthError::KeyNotAuthorizedForInvocation(kid) if kid == KID
    ));
}

#[test]
fn storage_write_accepts_a_key_that_is_listed_under_capability_invocation() {
    let mut evidence = known(claims());
    evidence.document =
        Some(Ok(DidKeys { capability_invocation: vec![text("other-key"), text(KID)] }));
    assert!(matches!(verdict(&evidence), TokenVerdict::Accept(_)));
}

#[test]
fn storage_write_rejects_a_reused_jti() {
    let mut seen = ReplayGuard::new();
    let first =
        verify_bearer_token(&header(), &known(claims()), OWN, &policy(), NOW, &mut seen);
    assert!(matches!(first, TokenVerdict::Accept(_)));
    let second =
        verify_bearer_token(&header(), &known(claims()), OWN, &policy(), NOW, &mut seen);
    assert!(matches!(second, TokenVerdict::Reject(AuthError::TokenReplayed)));
    assert_eq!(seen.len(), 1);
}

#[test]
fn storage_write_accepts_two_calls_with_distinct_jtis() {
    let mut seen = ReplayGuard::new();
    for jti in ["jti-1", "jti-2"] {
        let mut fresh = claims();
        fresh.jti = Some(text(jti));
        let res = verify_bearer_token(&header(), &known(fresh), OWN, &policy(), NOW, &mut seen);
        assert!(matches!(res, TokenVerdict::Accept(_)));
    }
    assert_eq!(seen.len(), 2);
}

#[test]
fn a_refused_token_is_not_remembered() {
    let mut seen = ReplayGuard::new();
    let mut late = claims();
    late.exp = Some(NOW - 1);
    let res = verify_bearer_token(&header(), &known(late), OWN, &policy(), NOW, &mut seen);
    assert!(matches!(res, TokenVerdict::Reject(AuthError::Expired)));
    assert_eq!(seen.len(), 0);
    let res = verify_bearer_token(&header(), &known(claims()), OWN, &policy(), NOW, &mut seen);
    assert!(matches!(res, TokenVerdict::Accept(_)));
}

#[test]
fn did_resolution_does_not_reach_an_unconfigured_host() {
    let mut evidence = TokenEvidence::new();
    evidence.decoded = Some(Ok(DecodedToken { kid: Some(text(KID)), claims: claims() }));
    evidence.location = Some(Ok(text("http://127.0.0.2:9/did.json")));
    assert_eq!(
        rejection(&evidence).message(),
        "outbound destination is not allowed: outbound host '127.0.0.2' is not on this service's allow-list"
    );
    evidence.location = Some(Err(text("not a did:web DID")));
    assert_eq!(
        rejection(&evidence).message(),
        "outbound destination is not allowed: outbound destination is not a usable URL: not a did:web DID"
    );
}

#[test]
fn did_resolution_gives_up_on_a_host_that_never_responds() {
    let mut evidence = known(claims());
    evidence.document = Some(Err(text("timed out")));
    assert_eq!(rejection(&evidence).message(), "could not resolve caller DID: timed out");
}

#[test]
fn empty_trusted_issuer_allowlist_rejects_an_unrecognized_issuer() {
    let err = check_trusted_issuer(&claims(), &Vec::new()).unwrap_err();
    assert!(matches!(err, AuthError::NoTrustedIssuerConfigured));
    assert_eq!(err.message(), "no trusted issuer is configured on this service");
}

#[test]
fn explicitly_configured_trusted_issuer_is_still_accepted() {
    let trusted = vec![text("did:web:other"), text(CALLER)];
    assert!(check_trusted_issuer(&claims(), &trusted).is_ok());
    let err = check_trusted_issuer(&claims(), &vec![text("did:web:other")]).unwrap_err();
    assert!(matches!(&err, AuthError::UntrustedIssuer(iss) if iss == CALLER));
    assert_eq!(
        err.message(),
        "issuer 'did:web:127.0.0.1%3A7000:issuer' is not on this service's trusted-issuer allow-list"
    );
    assert!(check_trusted_issuer(&Claims::empty(), &trusted).is_err());
}

fn grant() -> Claims {
    let mut claims = Claims::empty();
    claims.iss = Some(text(STS));
    claims.sub = Some(text(STS));
    claims.aud = Some(text(CALLER));
    claims.exp = Some(NOW + 300);
    claims.scope = Some(text("org.eclipse.dspace.dcp.vc.type:MembershipCredential"));
    claims
}

fn nested(evidence: &TokenEvidence) -> TokenVerdict {
    verify_nested_access_token("nested-1", evidence, CALLER, STS, &policy(), NOW)
}

fn nested_rejection(evidence: &TokenEvidence) -> AuthError {
    match nested(evidence) {
        TokenVerdict::Reject(error) => error,
        other => panic!("expected a rejection, got {other:?}"),
    }
}

#[test]
fn presentation_query_accepts_a_nested_token_bound_to_its_own_presenter() {
    match nested(&known(grant())) {
        TokenVerdict::Accept(accepted) => assert_eq!(accepted.scope, grant().scope),
        other => panic!("{other:?}"),
    }
    assert!(matches!(
        nested(&TokenEvidence::new()),
        TokenVerdict::Need(Step::Decode(token)) if token == "nested-1"
    ));
}

#[test]
fn presentation_query_rejects_a_nested_token_forwarded_to_a_different_party() {
    let mut forwarded = grant();
    forwarded.aud = Some(text("did:web:the-first-verifier"));
    assert!(matches!(
        nested_rejection(&known(forwarded)),
        AuthError::NestedTokenNotBoundToCaller
    ));
}

#[test]
fn presentation_query_rejects_an_undecodable_nested_token() {
    let mut evidence = TokenEvidence::new();
    evidence.decoded = Some(Err(text("not a JWS")));
    assert_eq!(
        nested_rejection(&evidence).message(),
        "nested access token is not valid: not a JWS"
    );
}

#[test]
fn presentation_query_rejects_an_expired_nested_token() {
    let mut late = grant();
    late.exp = Some(NOW);
    assert!(matches!(nested_rejection(&known(late)), AuthError::NestedTokenExpired));
}

#[test]
fn presentation_query_rejects_a_nested_token_self_signed_by_an_untrusted_party() {
    let mut own = grant();
    own.iss = Some(text(CALLER));
    let mut evidence = TokenEvidence::new();
    evidence.decoded = Some(Ok(DecodedToken { kid: Some(text(KID)), claims: own }));
    assert!(matches!(
        nested_rejection(&evidence),
        AuthError::NestedTokenIssuerNotAuthoritative(iss) if iss == CALLER
    ));
}

#[test]
fn nested_tokens_are_not_looked_up_without_permission() {
    let mut evidence = TokenEvidence::new();
    evidence.decoded = Some(Ok(DecodedToken { kid: Some(text(KID)), claims: grant() }));
    evidence.location = Some(Ok(text("ftp://127.0.0.1/did.json")));
    assert!(matches!(
        nested_rejection(&evidence),
        AuthError::OutboundDestinationNotAllowed(m)
            if m == "outbound URL scheme 'ftp' is not supported (only http/https)"
    ));
    let mut evidence = known(grant());
    evidence.signature = Some(Err(text("bad signature")));
    assert!(matches!(nested_rejection(&evidence), AuthError::InvalidNestedToken(_)));
}
