//! Everything that a caller can make grow is bounded.

use identity_hub::config::{Config, Mode};
use identity_hub::evidence::{Claims, DecodedToken, DidKeys, TokenEvidence};
use identity_hub::graph::{CredentialGraph, MAX_ACCEPTED_OFFERS, MAX_CREDENTIAL_BATCHES};
use identity_hub::handlers::StorageStep;
use identity_hub::identity::PublicKey;
use identity_hub::issuance::{request_status, RequestOutcome};
use identity_hub::json::JsonValue;
use identity_hub::messages::{
    credential_message_type, dcp_context, CredentialContainer, CredentialMessage, CredentialRef,
    CredentialRequestMessage,
};
use identity_hub::model::{
    CredentialEntry, NewAcceptedOffer, NewCredentialBatch, OfferedCredential,
};
use identity_hub::replay::{ReplayGuard, MAX_SEEN_JTI};
use identity_hub::reply::Reply;
use identity_hub::requests::{RequestRecord, RequestTable, MAX_TRACKED_REQUESTS};
use identity_hub::routes::{issuance_request, storage_request, Caller, Routed};
use identity_hub::state::AppState;
use identity_hub::store::{InMemoryCredentialStore, StoredCredentialBatch};

const OVERSHOOT: usize = 64;

fn membership() -> Vec<String> {
    vec!["MembershipCredential".to_string()]
}

fn batch(issuer_pid: &str) -> NewCredentialBatch {
    NewCredentialBatch {
        issuer_pid: issuer_pid.to_string(),
        holder_pid: Some("holder-pid-1".to_string()),
        status: "ISSUED".to_string(),
        rejection_reason: None,
        credentials: vec![CredentialEntry {
            credential_type: "MembershipCredential".to_string(),
            payload: JsonValue::Text("fake-jws".to_string()),
            format: "jwt".to_string(),
        }],
    }
}

fn offer(issuer: &str) -> NewAcceptedOffer {
    NewAcceptedOffer {
        issuer: issuer.to_string(),
        credentials: vec![OfferedCredential {
            id: "membership-credential".to_string(),
            credential_type: Some("MembershipCredential".to_string()),
        }],
    }
}

fn stored_batch(issuer_pid: &str) -> StoredCredentialBatch {
    StoredCredentialBatch {
        issuer_pid: issuer_pid.to_string(),
        holder_pid: Some("holder-pid-1".to_string()),
        status: "ISSUED".to_string(),
        rejection_reason: None,
        credentials: vec![CredentialContainer {
            credential_type: "MembershipCredential".to_string(),
            payload: JsonValue::Text("fake-jws".to_string()),
            format: "jwt".to_string(),
        }],
    }
}

#[test]
fn credential_batches_do_not_grow_without_bound() {
    let mut graph = CredentialGraph::open_in_memory().expect("in-memory RDF store opens");
    let mut ids = Vec::new();
    for i in 0..(MAX_CREDENTIAL_BATCHES + OVERSHOOT) {
        ids.push(
            graph
                .add_batch(batch(&format!("issuer-pid-{i}")))
                .expect("credential batch insert into RDF store"),
        );
    }

    let stored = graph.batches().expect("credential batch query");
    assert!(stored.len() <= MAX_CREDENTIAL_BATCHES);
    assert_eq!(stored.len(), MAX_CREDENTIAL_BATCHES);

    let newest = ids.last().expect("at least one batch was written");
    assert!(graph.batch(newest).expect("credential batch lookup").is_some());
    assert!(graph.batch(&ids[0]).expect("credential batch lookup").is_none());
    assert!(!graph.credentials_of_types(&membership()).expect("credential type query").is_empty());
    let oldest_kept =
        format!("issuer-pid-{}", MAX_CREDENTIAL_BATCHES + OVERSHOOT - stored.len());
    assert_eq!(stored.first().map(|b| b.issuer_pid.clone()), Some(oldest_kept));
}

#[test]
fn accepted_offers_do_not_grow_without_bound() {
    let mut graph = CredentialGraph::open_in_memory().expect("in-memory RDF store opens");
    let mut ids = Vec::new();
    for i in 0..(MAX_ACCEPTED_OFFERS + OVERSHOOT) {
        ids.push(
            graph
                .add_offer(offer(&format!("did:web:issuer-{i}")))
                .expect("accepted-offer insert into RDF store"),
        );
    }

    let stored = graph.offers().expect("accepted-offer query");
    assert!(stored.len() <= MAX_ACCEPTED_OFFERS);
    assert_eq!(stored[0].issuer, format!("did:web:issuer-{OVERSHOOT}"));

    let newest = ids.last().expect("at least one offer was written");
    assert!(graph.offer(newest).expect("accepted-offer lookup").is_some());
}

#[test]
fn low_volume_batches_and_offers_are_all_retained() {
    let mut graph = CredentialGraph::open_in_memory().expect("in-memory RDF store opens");
    let mut batch_ids = Vec::new();
    let mut offer_ids = Vec::new();
    for i in 0..16 {
        batch_ids.push(
            graph
                .add_batch(batch(&format!("issuer-pid-{i}")))
                .expect("credential batch insert into RDF store"),
        );
        offer_ids.push(
            graph
                .add_offer(offer(&format!("did:web:issuer-{i}")))
                .expect("accepted-offer insert into RDF store"),
        );
    }

    let stored = graph.batches().expect("credential batch query");
    assert_eq!(stored.len(), 16);
    assert_eq!(stored.first().map(|b| b.issuer_pid.as_str()), Some("issuer-pid-0"));
    assert_eq!(graph.offers().expect("accepted-offer query").len(), 16);
    for id in &batch_ids {
        assert!(graph.batch(id).expect("credential batch lookup").is_some());
    }
    for id in &offer_ids {
        assert!(graph.offer(id).expect("accepted-offer lookup").is_some());
    }
}

#[test]
fn credential_store_does_not_grow_without_bound() {
    let mut store = InMemoryCredentialStore::new().expect("store opens");
    for i in 0..(MAX_CREDENTIAL_BATCHES + OVERSHOOT) {
        store.store(&stored_batch(&format!("issuer-pid-{i}"))).expect("store");
    }

    let stored = store.all().expect("all");
    assert!(stored.len() <= MAX_CREDENTIAL_BATCHES);

    let newest = format!("issuer-pid-{}", MAX_CREDENTIAL_BATCHES + OVERSHOOT - 1);
    assert!(stored.iter().any(|b| b.issuer_pid == newest));
    assert!(!store.credentials_of_types(&membership()).expect("query").is_empty());
}

#[test]
fn low_volume_writes_are_all_retained() {
    let mut store = InMemoryCredentialStore::new().expect("store opens");
    for i in 0..16 {
        store.store(&stored_batch(&format!("issuer-pid-{i}"))).expect("store");
    }

    let stored = store.all().expect("all");
    assert_eq!(stored.len(), 16);
    assert_eq!(stored.first().map(|b| b.issuer_pid.as_str()), Some("issuer-pid-0"));
    assert_eq!(store.credentials_of_types(&membership()).expect("query").len(), 16);
}

const NOW: u64 = 1_000_000;
const CALLER: &str = "did:web:127.0.0.1%3A7000:stranger";
const KID: &str = "did:web:127.0.0.1%3A7000:stranger#key-1";

fn service(mode: Mode) -> AppState {
    let config = Config::for_test(mode, 0, "localhost:0".to_string());
    let key = |id: &str| PublicKey {
        key_id: id.to_string(),
        x: "x".to_string(),
        y: "y".to_string(),
    };
    match AppState::new(config, key("own"), key("sts")) {
        Ok(state) => state,
        Err(error) => panic!("{error:?}"),
    }
}

/// A caller with a valid token that carries this `jti`.
fn presents(audience: &str, jti: &str) -> Caller {
    let mut claims = Claims::empty();
    claims.iss = Some(CALLER.to_string());
    claims.sub = Some(CALLER.to_string());
    claims.aud = Some(audience.to_string());
    claims.iat = Some(NOW);
    claims.nbf = Some(NOW);
    claims.exp = Some(NOW + 300);
    claims.jti = Some(jti.to_string());
    let evidence = TokenEvidence {
        decoded: Some(Ok(DecodedToken { kid: Some(KID.to_string()), claims })),
        location: Some(Ok("http://127.0.0.1:7000/stranger/did.json".to_string())),
        document: Some(Ok(DidKeys { capability_invocation: vec![KID.to_string()] })),
        key: Some(Ok(())),
        signature: Some(Ok(())),
    };
    Caller::Presents(Some(format!("Bearer token-{jti}")), evidence)
}

/// Posts an empty message, which no trusted issuer sent, and gives the refusal.
fn refused_write(state: &mut AppState, jti: &str) -> Reply {
    let message = CredentialMessage {
        context: dcp_context(),
        message_type: credential_message_type(),
        issuer_pid: "issuer-pid-1".to_string(),
        holder_pid: "holder-pid-1".to_string(),
        status: "ISSUED".to_string(),
        credentials: vec![],
        rejection_reason: None,
    };
    let caller = presents("did:web:localhost%3A0:credential-service", jti);
    match storage_request(state, &caller, &message, &vec![], NOW).expect("graph") {
        Routed::Refuse(reply) => reply,
        Routed::Decided(_, StorageStep::Refuse(reply)) => reply,
        other => panic!("{other:?}"),
    }
}

/// Asks for the supported credential, and gives the id of the request.
fn accepted_request(state: &mut AppState, i: usize) -> String {
    let message = CredentialRequestMessage {
        context: dcp_context(),
        message_type: "CredentialRequestMessage".to_string(),
        holder_pid: format!("holder-pid-{i}"),
        credentials: vec![CredentialRef { id: "membership-credential".to_string() }],
    };
    let caller = presents("did:web:localhost%3A0:issuer-service", &format!("jti-{i}"));
    match issuance_request(state, &caller, &message, NOW) {
        Routed::Decided(_, RequestOutcome::Accepted(location, job)) => {
            assert_eq!(location, format!("/requests/{}", job.request_id));
            job.request_id
        }
        other => panic!("{other:?}"),
    }
}

#[test]
fn seen_jti_set_does_not_grow_without_bound() {
    let mut state = service(Mode::CredentialService);
    for i in 0..(MAX_SEEN_JTI + OVERSHOOT) {
        assert_eq!(refused_write(&mut state, &format!("jti-{i}")).status, 401);
    }
    assert!(state.seen_jti.len() <= MAX_SEEN_JTI);
    let reply = refused_write(&mut state, &format!("jti-{}", MAX_SEEN_JTI + OVERSHOOT - 1));
    assert_eq!(reply.status, 401);
    assert!(reply.body.contains("replay"), "{}", reply.body);
}

#[test]
fn low_volume_traffic_keeps_every_jti() {
    let mut state = service(Mode::CredentialService);
    for i in 0..32 {
        assert_eq!(refused_write(&mut state, &format!("jti-{i}")).status, 401);
    }
    assert_eq!(state.seen_jti.len(), 32);
    let reply = refused_write(&mut state, "jti-0");
    assert!(reply.body.contains("replay"), "{}", reply.body);
    assert_eq!(state.seen_jti.len(), 32);
}

#[test]
fn tracked_credential_requests_do_not_grow_without_bound() {
    let mut state = service(Mode::IssuerService);
    let mut last = String::new();
    for i in 0..(MAX_TRACKED_REQUESTS + OVERSHOOT) {
        last = accepted_request(&mut state, i);
    }
    assert!(state.requests.len() <= MAX_TRACKED_REQUESTS);
    let status = request_status(&state, &last).expect("the newest request is tracked");
    assert_eq!(status.status, "RECEIVED");
    assert_eq!(status.holder_pid, format!("holder-pid-{}", MAX_TRACKED_REQUESTS + OVERSHOOT - 1));
}

#[test]
fn low_volume_credential_requests_are_all_still_tracked() {
    let mut state = service(Mode::IssuerService);
    let ids: Vec<String> = (0..16).map(|i| accepted_request(&mut state, i)).collect();
    assert_eq!(state.requests.len(), 16);
    for (i, id) in ids.iter().enumerate() {
        let status = request_status(&state, id).expect("every request is tracked");
        assert_eq!(status.holder_pid, format!("holder-pid-{i}"));
    }
}

#[test]
fn a_replay_guard_forgets_the_oldest_first() {
    let mut seen = ReplayGuard::new();
    for i in 0..(MAX_SEEN_JTI + OVERSHOOT) {
        assert!(seen.record(&format!("jti-{i}")));
        assert!(seen.len() <= MAX_SEEN_JTI);
    }
    assert_eq!(seen.len(), MAX_SEEN_JTI);
    assert!(!seen.record(&format!("jti-{}", MAX_SEEN_JTI + OVERSHOOT - 1)));
    assert!(seen.record("jti-0"));
}

fn record(id: &str) -> RequestRecord {
    RequestRecord {
        issuer_pid: id.to_string(),
        holder_pid: format!("holder-of-{id}"),
        status: "RECEIVED".to_string(),
    }
}

#[test]
fn a_request_table_drops_the_oldest_first() {
    let mut table = RequestTable::new();
    for i in 0..(MAX_TRACKED_REQUESTS + OVERSHOOT) {
        let id = format!("request-{i}");
        table.insert(id.clone(), record(&id));
        assert!(table.len() <= MAX_TRACKED_REQUESTS);
    }
    assert_eq!(table.len(), MAX_TRACKED_REQUESTS);
    assert!(table.get("request-0").is_none());
    let newest = format!("request-{}", MAX_TRACKED_REQUESTS + OVERSHOOT - 1);
    assert_eq!(table.get(&newest).unwrap().holder_pid, format!("holder-of-{newest}"));
}

#[test]
fn a_request_table_keeps_one_record_for_each_id() {
    let mut table = RequestTable::new();
    for i in 0..16 {
        let id = format!("request-{i}");
        table.insert(id.clone(), record(&id));
    }
    for i in 0..16 {
        assert_eq!(table.get(&format!("request-{i}")).unwrap().status, "RECEIVED");
    }
    table.set_status("request-3", "ISSUED");
    table.set_status("no-such-request", "ISSUED");
    assert_eq!(table.get("request-3").unwrap().status, "ISSUED");
    assert_eq!(table.get("request-3").unwrap().holder_pid, "holder-of-request-3");
    assert_eq!(table.get("request-4").unwrap().status, "RECEIVED");
    assert_eq!(table.len(), 16);
    let mut again = record("request-3");
    again.status = "REJECTED".to_string();
    table.insert("request-3".to_string(), again);
    assert_eq!(table.get("request-3").unwrap().status, "REJECTED");
    assert_eq!(table.len(), 16);
}
