//! The graph as a connector's documents.

use identity_hub::connector::{
    ConnectorError, CredentialGraphConnector, Document, Fields, ACCEPTED_OFFER_KIND,
    STORED_CREDENTIAL_KIND,
};
use identity_hub::graph::CredentialGraph;
use identity_hub::json::JsonValue;
use identity_hub::model::{
    AcceptedOffer, CredentialBatch, CredentialEntry, NewAcceptedOffer, NewCredentialBatch,
    OfferedCredential,
};

fn graph_with_one_batch_and_one_offer() -> CredentialGraph {
    let mut graph = CredentialGraph::open_in_memory().expect("open store");
    graph
        .add_batch(NewCredentialBatch {
            issuer_pid: "issuer-1".to_string(),
            holder_pid: Some("holder-1".to_string()),
            status: "ISSUED".to_string(),
            rejection_reason: None,
            credentials: vec![CredentialEntry {
                credential_type: "MembershipCredential".to_string(),
                payload: JsonValue::Text("fake-jws".to_string()),
                format: "jwt".to_string(),
            }],
        })
        .expect("add_batch");
    graph
        .add_offer(NewAcceptedOffer {
            issuer: "did:web:issuer.example".to_string(),
            credentials: vec![OfferedCredential {
                id: "membership-credential".to_string(),
                credential_type: Some("MembershipCredential".to_string()),
            }],
        })
        .expect("add_offer");
    graph
}

fn batch_in(doc: &Document) -> &CredentialBatch {
    match &doc.fields {
        Fields::Batch(batch) => batch,
        Fields::Offer(offer) => panic!("an offer: {offer:?}"),
    }
}

fn offer_in(doc: &Document) -> &AcceptedOffer {
    match &doc.fields {
        Fields::Offer(offer) => offer,
        Fields::Batch(batch) => panic!("a batch: {batch:?}"),
    }
}

#[test]
fn pull_returns_stored_batches_for_its_own_kind() {
    let graph = graph_with_one_batch_and_one_offer();
    let connector = CredentialGraphConnector::new(&graph);
    let docs = connector.pull(STORED_CREDENTIAL_KIND).expect("pull");
    assert_eq!(docs.len(), 1);
    assert_eq!(batch_in(&docs[0]).issuer_pid, "issuer-1");
    assert_eq!(batch_in(&docs[0]).credentials[0].credential_type, "MembershipCredential");
    assert_eq!(docs[0].name, "credential-batch-issuer-1");
    assert_eq!(docs[0].kind, "ds-identity-hub-rs:stored-credential-batch");
    assert_eq!(docs[0].source, "ds-identity-hub-rs");
}

#[test]
fn pull_returns_accepted_offers_for_its_own_kind() {
    let graph = graph_with_one_batch_and_one_offer();
    let connector = CredentialGraphConnector::new(&graph);
    let docs = connector.pull(ACCEPTED_OFFER_KIND).expect("pull");
    assert_eq!(docs.len(), 1);
    assert_eq!(offer_in(&docs[0]).issuer, "did:web:issuer.example");
    assert_eq!(docs[0].name, "credential-offer-did:web:issuer.example");
    assert_eq!(docs[0].kind, "ds-identity-hub-rs:accepted-offer");
    assert_eq!(docs[0].remote_id, graph.offers().unwrap()[0].id);
}

#[test]
fn get_fetches_a_single_batch_by_remote_id() {
    let graph = graph_with_one_batch_and_one_offer();
    let batch_id = graph.batches().expect("batches")[0].id.clone();
    let connector = CredentialGraphConnector::new(&graph);
    let doc = connector.get(STORED_CREDENTIAL_KIND, &batch_id).expect("get");
    assert_eq!(doc.remote_id, batch_id);
    assert_eq!(batch_in(&doc).status, "ISSUED");
}

#[test]
fn get_fetches_a_single_offer_by_remote_id() {
    let graph = graph_with_one_batch_and_one_offer();
    let offer_id = graph.offers().expect("offers")[0].id.clone();
    let connector = CredentialGraphConnector::new(&graph);
    let doc = connector.get(ACCEPTED_OFFER_KIND, &offer_id).expect("get");
    assert_eq!(offer_in(&doc).credentials[0].id, "membership-credential");
    let err = connector.get(STORED_CREDENTIAL_KIND, &offer_id).expect_err("no such batch");
    assert!(matches!(err, ConnectorError::NotFound { .. }));
}

#[test]
fn get_errors_not_found_for_an_unknown_remote_id() {
    let graph = graph_with_one_batch_and_one_offer();
    let connector = CredentialGraphConnector::new(&graph);
    let err = connector
        .get(STORED_CREDENTIAL_KIND, "no-such-id")
        .expect_err("unknown remote_id must error");
    match err {
        ConnectorError::NotFound { kind, id } => {
            assert_eq!(kind, STORED_CREDENTIAL_KIND);
            assert_eq!(id, "no-such-id");
        }
        other => panic!("expected NotFound, got {other:?}"),
    }
}

#[test]
fn unsupported_kind_errors_naming_kind_and_connector() {
    let graph = graph_with_one_batch_and_one_offer();
    let connector = CredentialGraphConnector::new(&graph);
    let pulled = connector.pull("customer").expect_err("a kind that is not handled must error");
    let got = connector.get("customer", "x").expect_err("a kind that is not handled must error");
    for err in [pulled, got] {
        match err {
            ConnectorError::UnsupportedKind { connector, kind } => {
                assert_eq!(connector, "ds-identity-hub-rs");
                assert_eq!(kind, "customer");
            }
            other => panic!("expected UnsupportedKind, got {other:?}"),
        }
    }
}

#[test]
fn push_is_unsupported() {
    let graph = graph_with_one_batch_and_one_offer();
    let connector = CredentialGraphConnector::new(&graph);
    match connector.push(STORED_CREDENTIAL_KIND) {
        ConnectorError::Unsupported { connector, operation } => {
            assert_eq!(connector, "ds-identity-hub-rs");
            assert_eq!(
                operation,
                "push (kind: ds-identity-hub-rs:stored-credential-batch)"
            );
        }
        other => panic!("expected Unsupported, got {other:?}"),
    }
    assert_eq!(connector.source_name(), "ds-identity-hub-rs");
}
