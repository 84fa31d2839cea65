//! The Issuer Service.

use identity_hub::config::{Config, Mode};
use identity_hub::evidence::Claims;
use identity_hub::identity::PublicKey;
use identity_hub::issuance::{
    credential_request, deliver_issued_credential, issuer_metadata, request_status,
    try_deliver_issued_credential, DeliveryEvidence, DeliveryJob, DeliveryReply, DeliveryStep,
    RequestOutcome,
};
use identity_hub::json::JsonValue;
use identity_hub::messages::{
    credential_request_message_type, dcp_context, CredentialRef, CredentialRequestMessage,
};
use identity_hub::reply::Reply;
use identity_hub::state::AppState;

const HOLDER: &str = "did:web:127.0.0.1%3A7000:holder";
const LOCATION: &str = "http://127.0.0.1:7000/holder/did.json";
const NOW: u64 = 1_000_000;

fn text(s: &str) -> String {
    s.to_string()
}

fn key(id: &str) -> PublicKey {
    PublicKey { key_id: text(id), x: text("x"), y: text("y") }
}

fn issuer() -> AppState {
    let config = Config::for_test(Mode::IssuerService, 8081, text("localhost:8081"));
    match AppState::new(config, key("own-key"), key("sts-key")) {
        Ok(state) => state,
        Err(error) => panic!("{error:?}"),
    }
}

fn holder(token: Option<&str>) -> Claims {
    let mut claims = Claims::empty();
    claims.iss = Some(text(HOLDER));
    claims.sub = Some(text(HOLDER));
    claims.token = token.map(|t| t.to_string());
    claims
}

fn request(ids: &[&str]) -> CredentialRequestMessage {
    CredentialRequestMessage {
        context: dcp_context(),
        message_type: credential_request_message_type(),
        holder_pid: text("holder-pid-1"),
        credentials: ids.iter().map(|id| CredentialRef { id: id.to_string() }).collect(),
    }
}

fn accepted(outcome: RequestOutcome) -> (String, DeliveryJob) {
    match outcome {
        RequestOutcome::Accepted(location, job) => (location, job),
        other => panic!("expected acceptance, got {other:?}"),
    }
}

fn refused(outcome: RequestOutcome) -> Reply {
    match outcome {
        RequestOutcome::Refuse(reply) => reply,
        other => panic!("expected a refusal, got {other:?}"),
    }
}

#[test]
fn an_accepted_request_is_tracked_until_it_is_issued() {
    let mut state = issuer();
    let (location, job) = accepted(credential_request(
        &mut state,
        &holder(Some("bearer")),
        &request(&["membership-credential", "membership-credential"]),
    ));
    assert_eq!(location, format!("/requests/{}", job.request_id));
    assert_eq!(job.request_id.len(), 36);
    assert_eq!(job.holder_pid, "holder-pid-1");
    assert_eq!(job.holder_did, HOLDER);
    assert_eq!(job.delivery_bearer.as_deref(), Some("bearer"));
    let status = request_status(&state, &job.request_id).unwrap();
    assert_eq!(status.status, "RECEIVED");
    assert_eq!(status.issuer_pid, job.request_id);
    assert_eq!(status.holder_pid, "holder-pid-1");
    deliver_issued_credential(&mut state, &job.request_id, true);
    assert_eq!(request_status(&state, &job.request_id).unwrap().status, "ISSUED");
    assert!(request_status(&state, "no-such-request").is_none());
}

#[test]
fn a_failed_delivery_rejects_its_request_alone() {
    let mut state = issuer();
    let ask = request(&["membership-credential"]);
    let (_, first) = accepted(credential_request(&mut state, &holder(None), &ask));
    let (_, second) = accepted(credential_request(&mut state, &holder(None), &ask));
    assert_ne!(first.request_id, second.request_id);
    deliver_issued_credential(&mut state, &first.request_id, false);
    assert_eq!(request_status(&state, &first.request_id).unwrap().status, "REJECTED");
    assert_eq!(request_status(&state, &second.request_id).unwrap().status, "RECEIVED");
    deliver_issued_credential(&mut state, "no-such-request", true);
    assert_eq!(state.requests.len(), 2);
}

#[test]
fn requests_for_anything_else_are_refused() {
    let mut state = issuer();
    for ids in [&[][..], &["other"][..], &["membership-credential", "other"][..]] {
        let reply = refused(credential_request(&mut state, &holder(None), &request(ids)));
        assert_eq!(reply.status, 400);
        assert_eq!(
            reply.body,
            "unknown credential id: only 'membership-credential' is supported by this bootstrap"
        );
    }
    let mut nobody = holder(None);
    nobody.sub = None;
    let reply = refused(credential_request(&mut state, &nobody, &request(&["other"])));
    assert_eq!((reply.status, reply.body.as_str()), (400, "token has no sub claim"));
    assert_eq!(state.requests.len(), 0);
}

fn job() -> DeliveryJob {
    DeliveryJob {
        request_id: text("request-1"),
        holder_pid: text("holder-pid-1"),
        holder_did: text(HOLDER),
        delivery_bearer: Some(text("bearer")),
    }
}

fn failure(evidence: &DeliveryEvidence) -> String {
    match try_deliver_issued_credential(&issuer(), &job(), evidence, NOW) {
        DeliveryStep::Failed(reason) => reason,
        other => panic!("expected a failure, got {other:?}"),
    }
}

#[test]
fn a_delivery_goes_step_by_step() {
    let state = issuer();
    let own = "did:web:localhost%3A8081:issuer-service";
    let next = |evidence: &DeliveryEvidence| {
        try_deliver_issued_credential(&state, &job(), evidence, NOW)
    };
    let mut evidence = DeliveryEvidence::new();
    assert!(matches!(next(&evidence), DeliveryStep::Locate(did) if did == HOLDER));
    evidence.location = Some(Ok(text(LOCATION)));
    assert!(matches!(next(&evidence), DeliveryStep::Resolve(did) if did == HOLDER));
    evidence.endpoint = Some(Ok(text("http://127.0.0.1:7000")));
    match next(&evidence) {
        DeliveryStep::SignCredential(claims) => {
            assert_eq!(claims.iss, own);
            assert_eq!(claims.sub, HOLDER);
            assert_eq!(claims.subject_id, HOLDER);
            assert_eq!(claims.types, vec![text("VerifiableCredential"), text("MembershipCredential")]);
            assert_eq!(claims.context, vec![text("https://www.w3.org/2018/credentials/v1")]);
            assert_eq!((claims.iat, claims.exp), (NOW, NOW + 3600));
        }
        other => panic!("{other:?}"),
    }
    evidence.credential = Some(text("signed-credential"));
    match next(&evidence) {
        DeliveryStep::SignToken(claims) => {
            assert_eq!((claims.iss.as_str(), claims.sub.as_str()), (own, own));
            assert_eq!(claims.aud, HOLDER);
            assert_eq!((claims.iat, claims.nbf, claims.exp), (NOW, NOW, NOW + 300));
            assert_eq!(claims.token.as_deref(), Some("bearer"));
        }
        other => panic!("{other:?}"),
    }
    evidence.token = Some(text("signed-token"));
    match next(&evidence) {
        DeliveryStep::Post(url, token, message) => {
            assert_eq!(url, "http://127.0.0.1:7000/credentials");
            assert_eq!(token, "signed-token");
            assert_eq!(message.issuer_pid, "request-1");
            assert_eq!(message.holder_pid, "holder-pid-1");
            assert_eq!(message.status, "ISSUED");
            assert_eq!(message.credentials.len(), 1);
            assert_eq!(message.credentials[0].credential_type, "MembershipCredential");
            assert_eq!(message.credentials[0].format, "jwt");
            assert_eq!(
                message.credentials[0].payload,
                JsonValue::Text(text("signed-credential"))
            );
        }
        other => panic!("{other:?}"),
    }
    evidence.reply = Some(DeliveryReply::Status(text("401 Unauthorized")));
    assert_eq!(failure(&evidence), "Storage API returned HTTP 401 Unauthorized");
    evidence.reply = Some(DeliveryReply::Failed(text("connection refused")));
    assert_eq!(failure(&evidence), "connection refused");
    evidence.reply = Some(DeliveryReply::Taken);
    assert!(matches!(next(&evidence), DeliveryStep::Delivered));
}

#[test]
fn issued_credential_delivery_does_not_follow_a_service_endpoint_to_an_unconfigured_host() {
    let mut evidence = DeliveryEvidence::new();
    evidence.location = Some(Ok(text(LOCATION)));
    evidence.endpoint = Some(Ok(text("http://127.0.0.2:9/latest")));
    assert_eq!(
        failure(&evidence),
        "outbound host '127.0.0.2' is not on this service's allow-list"
    );
    evidence.endpoint = Some(Err(text("no CredentialService entry")));
    assert_eq!(failure(&evidence), "no CredentialService entry");
    evidence.location = Some(Ok(text("http://evil.example/did.json")));
    assert_eq!(
        failure(&evidence),
        "outbound host 'evil.example' is not on this service's allow-list"
    );
}

#[test]
fn metadata_names_the_one_supported_credential() {
    let metadata = issuer_metadata(&issuer());
    assert_eq!(metadata.issuer, "did:web:localhost%3A8081:issuer-service");
    assert_eq!(metadata.message_type, "IssuerMetadata");
    let supported = metadata.credentials_supported.unwrap();
    assert_eq!(supported.len(), 1);
    assert_eq!(supported[0].id, "membership-credential");
    assert_eq!(supported[0].credential_type.as_deref(), Some("MembershipCredential"));
    assert_eq!(supported[0].binding_methods, Some(vec![text("did:web")]));
    assert_eq!(supported[0].profile.as_deref(), Some("vc10-sl2021/jwt"));
    assert_eq!(supported[0].object_type, "CredentialObject");
}
