//! The credential graph, over its real RDF store.

use identity_hub::graph::CredentialGraph;
use identity_hub::json::{decode_payload, encode_payload, JsonValue};
use identity_hub::model::{
    CredentialEntry, NewAcceptedOffer, NewCredentialBatch, OfferedCredential,
};
use identity_hub::vocab::{ds, rdf, vc, xsd};

fn text(s: &str) -> String {
    s.to_string()
}

fn list(items: &[&str]) -> Vec<String> {
    items.iter().map(|s| s.to_string()).collect()
}

fn entry(credential_type: &str) -> CredentialEntry {
    CredentialEntry {
        credential_type: credential_type.to_string(),
        payload: JsonValue::Text(text("fake-jws")),
        format: text("jwt"),
    }
}

fn issued(credentials: Vec<CredentialEntry>) -> NewCredentialBatch {
    NewCredentialBatch {
        issuer_pid: text("issuer-1"),
        holder_pid: Some(text("holder-1")),
        status: text("ISSUED"),
        rejection_reason: None,
        credentials,
    }
}

#[test]
fn stores_and_filters_issued_credentials_by_type_via_sparql() {
    let mut graph = CredentialGraph::open_in_memory().expect("open in-memory store");
    graph.add_batch(issued(vec![entry("MembershipCredential")])).expect("add_batch");
    graph
        .add_batch(NewCredentialBatch {
            issuer_pid: text("issuer-2"),
            holder_pid: None,
            status: text("REJECTED"),
            rejection_reason: Some(text("nope")),
            credentials: vec![entry("SensitiveDataCredential")],
        })
        .expect("add_batch");

    let found = graph
        .credentials_of_types(&list(&["MembershipCredential"]))
        .expect("credentials_of_types");
    assert_eq!(found.len(), 1);
    assert_eq!(found[0].credential_type, "MembershipCredential");
    assert_eq!(found[0].payload, JsonValue::Text(text("fake-jws")));

    let none = graph
        .credentials_of_types(&list(&["SensitiveDataCredential"]))
        .expect("credentials_of_types");
    assert!(none.is_empty());

    assert_eq!(graph.batches().expect("batches").len(), 2);
}

#[test]
fn batches_round_trips_every_field_including_optional_ones() {
    let mut graph = CredentialGraph::open_in_memory().expect("open in-memory store");
    let id = graph
        .add_batch(NewCredentialBatch {
            issuer_pid: text("issuer-1"),
            holder_pid: None,
            status: text("REJECTED"),
            rejection_reason: Some(text("bad proof")),
            credentials: vec![],
        })
        .expect("add_batch");

    let batches = graph.batches().expect("batches");
    assert_eq!(batches.len(), 1);
    assert_eq!(batches[0].id, id);
    assert_eq!(batches[0].issuer_pid, "issuer-1");
    assert_eq!(batches[0].holder_pid, None);
    assert_eq!(batches[0].status, "REJECTED");
    assert_eq!(batches[0].rejection_reason.as_deref(), Some("bad proof"));
    assert!(batches[0].credentials.is_empty());

    let fetched = graph.batch(&id).expect("batch").expect("batch exists");
    assert_eq!(fetched.issuer_pid, "issuer-1");
    assert!(graph.batch("does-not-exist").expect("batch").is_none());
}

#[test]
fn batches_preserve_credential_order_within_a_batch() {
    let mut graph = CredentialGraph::open_in_memory().expect("open in-memory store");
    graph
        .add_batch(issued(vec![
            entry("FirstCredential"),
            entry("SecondCredential"),
            entry("ThirdCredential"),
        ]))
        .expect("add_batch");

    let batches = graph.batches().expect("batches");
    let types: Vec<&str> =
        batches[0].credentials.iter().map(|c| c.credential_type.as_str()).collect();
    assert_eq!(types, vec!["FirstCredential", "SecondCredential", "ThirdCredential"]);
}

#[test]
fn offers_round_trip_issuer_and_offered_credentials_in_order() {
    let mut graph = CredentialGraph::open_in_memory().expect("open in-memory store");
    let id = graph
        .add_offer(NewAcceptedOffer {
            issuer: text("did:web:issuer.example"),
            credentials: vec![
                OfferedCredential {
                    id: text("membership-credential"),
                    credential_type: Some(text("MembershipCredential")),
                },
                OfferedCredential { id: text("no-type-credential"), credential_type: None },
            ],
        })
        .expect("add_offer");

    let offers = graph.offers().expect("offers");
    assert_eq!(offers.len(), 1);
    assert_eq!(offers[0].id, id);
    assert_eq!(offers[0].issuer, "did:web:issuer.example");
    assert_eq!(offers[0].credentials.len(), 2);
    assert_eq!(offers[0].credentials[0].id, "membership-credential");
    assert_eq!(
        offers[0].credentials[0].credential_type.as_deref(),
        Some("MembershipCredential")
    );
    assert_eq!(offers[0].credentials[1].id, "no-type-credential");
    assert_eq!(offers[0].credentials[1].credential_type, None);

    let fetched = graph.offer(&id).expect("offer").expect("offer exists");
    assert_eq!(fetched.issuer, "did:web:issuer.example");
    assert!(graph.offer("does-not-exist").expect("offer").is_none());
}

#[test]
fn payload_round_trips_arbitrary_json_shapes_not_just_strings() {
    let mut graph = CredentialGraph::open_in_memory().expect("open in-memory store");
    let payload = JsonValue::from_text(
        r#"{"@context": ["https://www.w3.org/2018/credentials/v1"], "type": ["VerifiableCredential"]}"#,
    )
    .expect("JSON");
    graph
        .add_batch(issued(vec![CredentialEntry {
            credential_type: text("JsonLdCredential"),
            payload,
            format: text("ldp_vc"),
        }]))
        .expect("add_batch");

    let found =
        graph.credentials_of_types(&list(&["JsonLdCredential"])).expect("credentials_of_types");
    assert_eq!(found.len(), 1);
    let read = match &found[0].payload {
        JsonValue::Json(json) => serde_json::from_str::<serde_json::Value>(json).unwrap(),
        JsonValue::Text(content) => panic!("a string: {content}"),
    };
    assert_eq!(read["type"][0], "VerifiableCredential");
    assert_eq!(
        found[0].payload,
        JsonValue::Json(text(
            r#"{"@context":["https://www.w3.org/2018/credentials/v1"],"type":["VerifiableCredential"]}"#
        ))
    );
}

#[test]
fn what_is_read_is_what_was_written() {
    let mut graph = CredentialGraph::open_in_memory().expect("open in-memory store");
    let odd = [
        "",
        "\"",
        "a\\b\n\u{0}\u{1f600}",
        "null",
        "{\"a\": 1}",
        "<https://example.org/x> \"y\"@en ; }",
    ];
    for (i, content) in odd.iter().enumerate() {
        let payload = JsonValue::Text(content.to_string());
        assert!(payload.reads_back());
        let id = graph
            .add_batch(NewCredentialBatch {
                issuer_pid: content.to_string(),
                holder_pid: Some(content.to_string()),
                status: text("ISSUED"),
                rejection_reason: Some(content.to_string()),
                credentials: vec![CredentialEntry {
                    credential_type: content.to_string(),
                    payload,
                    format: content.to_string(),
                }],
            })
            .unwrap();
        assert_eq!(graph.batches().unwrap().len(), i + 1);
        let read = graph.batch(&id).unwrap().unwrap();
        assert_eq!(read.issuer_pid, *content);
        assert_eq!(read.holder_pid.as_deref(), Some(*content));
        assert_eq!(read.rejection_reason.as_deref(), Some(*content));
        assert_eq!(read.credentials.len(), 1);
        assert_eq!(read.credentials[0].credential_type, *content);
        assert_eq!(read.credentials[0].format, *content);
        assert_eq!(read.credentials[0].payload, JsonValue::Text(content.to_string()));
        let found = graph.credentials_of_types(&vec![content.to_string()]).unwrap();
        assert_eq!(found.len(), 1);
    }
}

#[test]
fn lists_of_more_than_ten_keep_their_order() {
    let mut graph = CredentialGraph::open_in_memory().expect("open in-memory store");
    for b in 0..25 {
        let credentials = (0..12).map(|c| entry(&format!("T{b}-{c}"))).collect();
        graph.add_batch(issued(credentials)).unwrap();
        graph
            .add_offer(NewAcceptedOffer {
                issuer: format!("issuer-{b}"),
                credentials: (0..12)
                    .map(|c| OfferedCredential { id: format!("{c}"), credential_type: None })
                    .collect(),
            })
            .unwrap();
    }
    let batches = graph.batches().unwrap();
    assert_eq!(batches.len(), 25);
    for (b, batch) in batches.iter().enumerate() {
        assert_eq!(batch.credentials.len(), 12);
        for (c, credential) in batch.credentials.iter().enumerate() {
            assert_eq!(credential.credential_type, format!("T{b}-{c}"));
        }
    }
    let offers = graph.offers().unwrap();
    assert_eq!(offers.len(), 25);
    for (b, offer) in offers.iter().enumerate() {
        assert_eq!(offer.issuer, format!("issuer-{b}"));
        let ids: Vec<String> = offer.credentials.iter().map(|c| c.id.clone()).collect();
        let expected: Vec<String> = (0..12).map(|c| format!("{c}")).collect();
        assert_eq!(ids, expected);
    }
}

#[test]
fn credentials_are_found_by_any_of_the_types_as_often_as_they_are_stored() {
    let mut graph = CredentialGraph::open_in_memory().expect("open in-memory store");
    graph.add_batch(issued(vec![entry("A"), entry("B"), entry("A")])).unwrap();
    graph.add_batch(issued(vec![entry("A"), entry("C")])).unwrap();
    let count = |types: &[&str]| graph.credentials_of_types(&list(types)).unwrap().len();
    assert_eq!(count(&["A"]), 3);
    assert_eq!(count(&["A", "A"]), 3);
    assert_eq!(count(&["A", "C"]), 4);
    assert_eq!(count(&["D"]), 0);
    assert_eq!(count(&[]), 0);
}

#[test]
fn offers_and_batches_do_not_mix() {
    let mut graph = CredentialGraph::open_in_memory().expect("open in-memory store");
    assert!(graph.has_room());
    let offer = graph
        .add_offer(NewAcceptedOffer {
            issuer: text("i"),
            credentials: vec![OfferedCredential { id: text("c"), credential_type: Some(text("A")) }],
        })
        .unwrap();
    assert!(graph.batches().unwrap().is_empty());
    assert!(graph.batch(&offer).unwrap().is_none());
    assert!(graph.credentials_of_types(&list(&["A"])).unwrap().is_empty());
    let batch = graph.add_batch(issued(vec![entry("A")])).unwrap();
    assert_eq!(graph.offers().unwrap().len(), 1);
    assert!(graph.offer(&batch).unwrap().is_none());
    assert_ne!(batch, offer);
}

#[test]
fn payloads_are_encoded_as_json() {
    let quoted = encode_payload(&JsonValue::Text(text("a\"b\n")));
    assert_eq!(quoted, "\"a\\\"b\\n\"");
    assert_eq!(decode_payload(quoted), JsonValue::Text(text("a\"b\n")));
    assert_eq!(decode_payload(text("not json")), JsonValue::Text(text("not json")));
    assert_eq!(decode_payload(text("[1, 2]")), JsonValue::Json(text("[1,2]")));
    assert_eq!(encode_payload(&JsonValue::Json(text("[1,2]"))), "[1,2]");
}

#[test]
fn values_read_from_a_plain_text_read_back() {
    for source in [
        "null",
        "true",
        "-12",
        "18446744073709551615",
        r#"{ "b": [1, {"c": null}], "a": "x.5e3" }"#,
        r#"["\"", "\\", "\n"]"#,
        r#"{"a\u0001": "\u001f\u00e9\ud83d\ude00"}"#,
        r#"["$serde_json::private::RawValue", {"a$serde_json::private::RawValue": "1"}]"#,
    ] {
        let value = JsonValue::from_text(source).unwrap();
        assert!(value.reads_back(), "{source}");
    }
    assert!(JsonValue::from_text("{").is_none());
    assert!(!JsonValue::Json(text("[1, 2]")).reads_back());
    assert!(!JsonValue::Json(text("not json")).reads_back());
    assert!(!JsonValue::Json(text("\"x\"")).reads_back());
}

#[test]
fn control_characters_are_escaped_and_read_back() {
    let value = JsonValue::from_text(r#"["\u0001\u0041"]"#).unwrap();
    assert_eq!(value, JsonValue::Json(text("[\"\\u0001A\"]")));
    assert_eq!(decode_payload(encode_payload(&value)), value);
    let string = JsonValue::from_text(r#""\u0002""#).unwrap();
    assert_eq!(string, JsonValue::Text(text("\u{2}")));
    assert_eq!(decode_payload(encode_payload(&string)), string);
}

#[test]
fn what_nests_deeper_than_can_be_read_is_kept_as_text() {
    let nested = |depth: usize| format!("{}{}", "[".repeat(depth), "]".repeat(depth));
    let value = JsonValue::from_text(&nested(127)).unwrap();
    assert!(value.reads_back());
    assert!(JsonValue::from_text(&nested(128)).is_none());
    assert_eq!(decode_payload(nested(128)), JsonValue::Text(nested(128)));
}

#[test]
fn an_object_that_stands_for_a_raw_value_does_not_read_back() {
    let source = r#"{"a":1,"$serde_json::private::RawValue":"2"}"#;
    let value = JsonValue::from_text(source).unwrap();
    assert_eq!(
        value,
        JsonValue::Json(text(r#"{"$serde_json::private::RawValue":"2","a":1}"#))
    );
    assert!(!value.reads_back());
}

#[test]
fn ids_have_the_form_of_a_uuid() {
    let is_uuid = |id: &str| {
        id.len() == 36 && id.chars().all(|c| c == '-' || c.is_ascii_digit() || ('a'..='f').contains(&c))
    };
    let mut graph = CredentialGraph::open_in_memory().unwrap();
    let batch = graph.add_batch(issued(vec![entry("A")])).unwrap();
    assert!(is_uuid(&batch), "{batch}");
    let offer = graph
        .add_offer(NewAcceptedOffer { issuer: text("did:web:i"), credentials: vec![] })
        .unwrap();
    assert!(is_uuid(&offer), "{offer}");
    assert_eq!(graph.batches().unwrap()[0].id, batch);
    assert_eq!(graph.offers().unwrap()[0].id, offer);
}

#[test]
fn objects_are_told_from_other_values() {
    for (source, expected) in [
        ("{}", false),
        ("null", false),
        ("[]", false),
        ("[{}]", false),
        ("\"{a}\"", false),
        (r#"{"id": 1}"#, true),
    ] {
        assert_eq!(JsonValue::from_text(source).unwrap().nonempty_object(), expected, "{source}");
    }
    assert_eq!(JsonValue::Text(text("jws")).as_str(), Some("jws"));
    assert_eq!(JsonValue::Json(text("{}")).as_str(), None);
}

#[test]
fn vocabulary_terms_are_expanded() {
    assert_eq!(vc("type"), "https://www.w3.org/2018/credentials#type");
    assert_eq!(rdf("type"), "http://www.w3.org/1999/02/22-rdf-syntax-ns#type");
    assert_eq!(xsd("integer"), "http://www.w3.org/2001/XMLSchema#integer");
    assert_eq!(ds("order"), "https://ds42.org/ontologies/ds-identity-hub-rs#order");
}
