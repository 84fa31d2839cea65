//! Scopes, the token service, identities, messages and the credential store.

use identity_hub::identity::{service_did, PublicKey, ServiceIdentity};
use identity_hub::json::JsonValue;
use identity_hub::messages::{
    credential_message_type, credential_object_type, credential_offer_message_type,
    credential_request_message_type, credential_status_type, dcp_context, CredentialContainer,
    CredentialMessage, CredentialRef, CredentialRequestMessage, CredentialStatus, IssuerMetadata,
    PresentationQueryMessage, PresentationResponseMessage, DCP_CONTEXT,
};
use identity_hub::scope::{split_scope_string, ScopeMatcher};
use identity_hub::store::{InMemoryCredentialStore, StoredCredentialBatch};
use identity_hub::sts::{issue_token, StsConfig, StsError, StsTokenRequest, StsTokenResponse};

fn text(s: &str) -> String {
    s.to_string()
}

fn list(items: &[&str]) -> Vec<String> {
    items.iter().map(|s| s.to_string()).collect()
}

fn key(id: &str) -> PublicKey {
    PublicKey { key_id: text(id), x: text("x-coordinate"), y: text("y-coordinate") }
}

#[test]
fn extracts_type_from_the_vc_type_alias() {
    let matcher = ScopeMatcher::default_pattern();
    assert_eq!(
        matcher.credential_type("org.eclipse.dspace.dcp.vc.type:MembershipCredential"),
        Some("MembershipCredential".to_string())
    );
    assert_eq!(
        matcher.credential_type("org.eclipse.dspace.dcp.vc.type:MembershipCredential:read"),
        Some("MembershipCredential".to_string())
    );
}

#[test]
fn unrecognized_scope_matches_nothing() {
    let matcher = ScopeMatcher::default_pattern();
    assert_eq!(matcher.credential_type("some-other-scope-alias"), None);
}

#[test]
fn default_pattern_matches_anywhere_and_needs_a_type() {
    let matcher = ScopeMatcher::default_pattern();
    assert_eq!(
        matcher.credential_type("x org.eclipse.dspace.dcp.vc.type:A"),
        Some("A".to_string())
    );
    assert_eq!(
        matcher.credential_type("org.eclipse.dspace.dcp.vc.type::org.eclipse.dspace.dcp.vc.type:B"),
        Some("B".to_string())
    );
    assert_eq!(matcher.credential_type("org.eclipse.dspace.dcp.vc.type:"), None);
    assert_eq!(matcher.credential_type("org.eclipse.dspace.dcp.vc.type::read"), None);
    assert_eq!(
        matcher.credential_type("org.eclipse.dspace.dcp.vc.type:A:b:c"),
        Some("A".to_string())
    );
    assert_eq!(
        matcher.credential_type("org.eclipse.dspace.dcp.vc.type:\u{e9}t\u{e9}:x"),
        Some("\u{e9}t\u{e9}".to_string())
    );
}

#[test]
fn a_pattern_of_ones_own_is_used() {
    let matcher = match ScopeMatcher::new("^type=(?P<type>[a-z]+)$") {
        Ok(matcher) => matcher,
        Err(error) => panic!("{error}"),
    };
    assert_eq!(matcher.credential_type("type=abc"), Some("abc".to_string()));
    assert_eq!(matcher.credential_type("org.eclipse.dspace.dcp.vc.type:A"), None);
    let no_group = match ScopeMatcher::new("^abc$") {
        Ok(matcher) => matcher,
        Err(error) => panic!("{error}"),
    };
    assert_eq!(no_group.credential_type("abc"), None);
    assert!(ScopeMatcher::new("(").is_err());
}

#[test]
fn types_are_listed_once_and_in_order() {
    let matcher = ScopeMatcher::default_pattern();
    let scopes = list(&[
        "org.eclipse.dspace.dcp.vc.type:B",
        "unknown",
        "org.eclipse.dspace.dcp.vc.type:A:read",
        "org.eclipse.dspace.dcp.vc.type:B:write",
    ]);
    assert_eq!(matcher.credential_types(&scopes), list(&["B", "A"]));
    assert!(matcher.credential_types(&Vec::new()).is_empty());
}

#[test]
fn split_scope_string_splits_multiple_space_delimited_aliases() {
    assert_eq!(
        split_scope_string(
            "org.eclipse.dspace.dcp.vc.type:MembershipCredential org.eclipse.dspace.dcp.vc.type:SensitiveDataCredential"
        ),
        vec![
            "org.eclipse.dspace.dcp.vc.type:MembershipCredential".to_string(),
            "org.eclipse.dspace.dcp.vc.type:SensitiveDataCredential".to_string(),
        ]
    );
}

#[test]
fn split_scope_string_handles_a_single_scope_with_no_delimiter() {
    assert_eq!(
        split_scope_string("org.eclipse.dspace.dcp.vc.type:MembershipCredential"),
        vec!["org.eclipse.dspace.dcp.vc.type:MembershipCredential".to_string()]
    );
}

#[test]
fn split_scope_string_of_an_empty_string_is_empty() {
    assert!(split_scope_string("").is_empty());
}

#[test]
fn split_scope_string_drops_all_white_space() {
    assert_eq!(split_scope_string(" \t a\n\u{a0}b \u{2003}c  "), list(&["a", "b", "c"]));
    assert!(split_scope_string(" \t\u{3000}\n").is_empty());
    assert_eq!(split_scope_string("a    b\r\n\tc"), list(&["a", "b", "c"]));
}

#[test]
fn granted_scope_intersects_with_requested_types_via_credential_types() {
    let matcher = ScopeMatcher::default_pattern();
    let granted = split_scope_string("org.eclipse.dspace.dcp.vc.type:MembershipCredential");
    let granted_types = matcher.credential_types(&granted);
    assert_eq!(granted_types, vec!["MembershipCredential".to_string()]);
}

fn request(secret: &str, audience: &str, scope: Option<&str>) -> StsTokenRequest {
    StsTokenRequest {
        grant_type: text("client_credentials"),
        client_id: text("client-1"),
        client_secret: text(secret),
        audience: text(audience),
        bearer_access_scope: scope.map(|s| s.to_string()),
        own_service_did: text("did:web:localhost%3A9999:credential-service"),
    }
}

fn sts() -> (StsConfig, ServiceIdentity) {
    (
        StsConfig::new(text("client-1"), text("secret-1")),
        ServiceIdentity::new("localhost:9999", "sts-party", key("sts-key")),
    )
}

const OWN_SERVICE: &str = "did:web:localhost%3A9999:credential-service";
const MEMBERSHIP: &str = "org.eclipse.dspace.dcp.vc.type:MembershipCredential";

#[test]
fn issues_a_real_signed_id_token_for_valid_client_credentials() {
    let (config, signer) = sts();
    let pending = issue_token(&config, &signer, request("secret-1", OWN_SERVICE, Some(MEMBERSHIP)), 1_000)
        .expect("valid request issues a token");
    let nested = pending.access.as_ref().expect("bearer_access_scope must produce a token claim");
    assert_eq!(nested.iss, signer.own_did());
    assert_eq!(nested.sub, signer.own_did());
    assert_eq!(nested.aud, signer.own_did());
    assert_eq!(nested.scope, MEMBERSHIP);
    assert_eq!((nested.iat, nested.exp), (1_000, 1_300));
    assert_eq!(nested.jti.len(), 36);
    let payload = pending.id_token(Some(text("signed-access-token")));
    assert_eq!(payload.iss, signer.own_did());
    assert_eq!(payload.sub, signer.own_did());
    assert_eq!(payload.aud, OWN_SERVICE);
    assert_eq!((payload.iat, payload.nbf, payload.exp), (1_000, 1_000, 1_300));
    assert_eq!(payload.token.as_deref(), Some("signed-access-token"));
    let response = StsTokenResponse::bearer(text("signed"));
    assert_eq!(response.token_type, "Bearer");
    assert_eq!(response.expires_in, 300);
    assert_eq!(response.access_token, "signed");
}

#[test]
fn rejects_wrong_client_secret() {
    let (config, signer) = sts();
    let err = issue_token(&config, &signer, request("wrong", OWN_SERVICE, None), 1_000).unwrap_err();
    assert!(matches!(err, StsError::InvalidClient));
    assert_eq!(err.message(), "invalid_client: unknown client_id/client_secret");
}

#[test]
fn rejects_other_grant_types_and_blank_audiences() {
    let (config, signer) = sts();
    let mut password = request("secret-1", OWN_SERVICE, None);
    password.grant_type = text("password");
    let err = issue_token(&config, &signer, password, 0).unwrap_err();
    assert!(matches!(err, StsError::UnsupportedGrantType));
    assert_eq!(err.message(), "unsupported_grant_type: only client_credentials is supported");
    let err = issue_token(&config, &signer, request("secret-1", " \t", None), 0).unwrap_err();
    assert_eq!(err.message(), "invalid_request: audience must not be empty");
    let mut other = request("secret-1", OWN_SERVICE, None);
    other.client_id = text("client-2");
    assert!(matches!(issue_token(&config, &signer, other, 0).unwrap_err(), StsError::InvalidClient));
}

#[test]
fn no_bearer_access_scope_means_no_token_claim() {
    let (config, signer) = sts();
    let pending = issue_token(&config, &signer, request("secret-1", OWN_SERVICE, None), 1_000).unwrap();
    assert!(pending.access.is_none());
    let payload = pending.id_token(None);
    assert!(payload.token.is_none());
}

#[test]
fn nested_access_token_aud_stays_the_audience_in_the_dcp_hand_off_case() {
    let (config, signer) = sts();
    let pending = issue_token(
        &config,
        &signer,
        request("secret-1", "did:web:verifier.example:verifier", Some(MEMBERSHIP)),
        1_000,
    )
    .expect("valid request issues a token");
    assert_eq!(pending.access.unwrap().aud, "did:web:verifier.example:verifier");
}

#[test]
fn did_document_carries_verification_relationships() {
    let identity = ServiceIdentity::new("localhost:9999", "credential-service", key("key-1"));
    let services = vec![(text("CredentialService"), text("http://localhost:9999"))];
    let doc = identity.did_document(&services);
    let key_id = identity.own_key_id();
    assert_eq!(doc.authentication, vec![key_id.to_string()]);
    assert_eq!(doc.assertion_method, vec![key_id.to_string()]);
    assert_eq!(doc.capability_invocation, vec![key_id.to_string()]);
    assert_eq!(doc.service[0].service_type, "CredentialService");
    assert_eq!(doc.service[0].service_endpoint, "http://localhost:9999");
    assert_eq!(doc.service[0].id, "did:web:localhost%3A9999:credential-service#CredentialService");
    assert_eq!(doc.context, list(&["https://www.w3.org/ns/did/v1", DCP_CONTEXT]));
    assert_eq!(doc.id, "did:web:localhost%3A9999:credential-service");
    assert_eq!(doc.verification_method.len(), 1);
    assert_eq!(doc.verification_method[0].id, "key-1");
    assert_eq!(doc.verification_method[0].method_type, "JsonWebKey2020");
    assert_eq!(doc.verification_method[0].controller, doc.id);
    assert_eq!(doc.verification_method[0].public_key_jwk.kty, "EC");
    assert_eq!(doc.verification_method[0].public_key_jwk.crv, "P-256");
    assert_eq!(doc.verification_method[0].public_key_jwk.x, "x-coordinate");
    assert_eq!(doc.verification_method[0].public_key_jwk.y, "y-coordinate");
}

#[test]
fn every_colon_of_a_host_is_encoded() {
    assert_eq!(service_did("a:1:2", "s"), "did:web:a%3A1%3A2:s");
    assert_eq!(service_did("", ""), "did:web::");
}

fn strings(value: &serde_json::Value) -> Vec<String> {
    match value.as_array() {
        Some(items) => items.iter().map(|v| v.as_str().unwrap().to_string()).collect(),
        None => Vec::new(),
    }
}

fn field(value: &serde_json::Value, name: &str) -> String {
    value[name].as_str().unwrap().to_string()
}

fn json_value(value: &serde_json::Value) -> JsonValue {
    JsonValue::from_text(&value.to_string()).unwrap()
}

#[test]
fn presentation_query_message_deserializes_the_spec_example() {
    let json = r#"{
        "@context": ["https://w3id.org/dspace-dcp/v1.0/dcp.jsonld"],
        "type": "PresentationQueryMessage",
        "scope": ["presentation1", "presentation2"]
    }"#;
    let value: serde_json::Value = serde_json::from_str(json).unwrap();
    let msg = PresentationQueryMessage {
        context: strings(&value["@context"]),
        message_type: field(&value, "type"),
        scope: strings(&value["scope"]),
        presentation_definition: value.get("presentationDefinition").map(json_value),
    };
    assert_eq!(msg.message_type, "PresentationQueryMessage");
    assert_eq!(msg.scope, vec!["presentation1", "presentation2"]);
    assert!(msg.presentation_definition.is_none());
    assert_eq!(msg.context, dcp_context());
}

#[test]
fn presentation_response_message_serializes_the_spec_shape() {
    let msg = PresentationResponseMessage::new(vec!["vp-jwt".to_string()]);
    assert_eq!(msg.context, vec![DCP_CONTEXT.to_string()]);
    assert_eq!(msg.message_type, "PresentationResponseMessage");
    assert_eq!(msg.presentation, vec!["vp-jwt".to_string()]);
    assert!(msg.presentation_submission.is_none());
}

#[test]
fn credential_message_deserializes_the_spec_example() {
    let json = r#"{
        "@context": ["https://w3id.org/dspace-dcp/v1.0/dcp.jsonld"],
        "type": "CredentialMessage",
        "credentials": [
            {"credentialType": "MembershipCredential", "payload": "<JWT-STRING>", "format": "jwt"}
        ],
        "issuerPid": "issuerPid",
        "holderPid": "holderPid",
        "status": "ISSUED"
    }"#;
    let value: serde_json::Value = serde_json::from_str(json).unwrap();
    let credentials = value["credentials"]
        .as_array()
        .unwrap()
        .iter()
        .map(|c| CredentialContainer {
            credential_type: field(c, "credentialType"),
            payload: json_value(&c["payload"]),
            format: field(c, "format"),
        })
        .collect();
    let msg = CredentialMessage {
        context: strings(&value["@context"]),
        message_type: field(&value, "type"),
        issuer_pid: field(&value, "issuerPid"),
        holder_pid: field(&value, "holderPid"),
        status: field(&value, "status"),
        credentials,
        rejection_reason: None,
    };
    assert_eq!(msg.issuer_pid, "issuerPid");
    assert_eq!(msg.holder_pid, "holderPid");
    assert_eq!(msg.status, "ISSUED");
    assert_eq!(msg.credentials[0].credential_type, "MembershipCredential");
    assert_eq!(msg.credentials[0].payload, JsonValue::Text(text("<JWT-STRING>")));
    assert_eq!(msg.message_type, credential_message_type());
}

#[test]
fn credential_request_message_deserializes_the_spec_example() {
    let json = r#"{
        "@context": ["https://w3id.org/dspace-dcp/v1.0/dcp.jsonld"],
        "type": "CredentialRequestMessage",
        "holderPid": "holderPid",
        "credentials": [{"id": "d5c77b0e-7f4e-4fd5-8c5f-28b5fc3f96d1"}]
    }"#;
    let value: serde_json::Value = serde_json::from_str(json).unwrap();
    let msg = CredentialRequestMessage {
        context: strings(&value["@context"]),
        message_type: field(&value, "type"),
        holder_pid: field(&value, "holderPid"),
        credentials: value["credentials"]
            .as_array()
            .unwrap()
            .iter()
            .map(|c| CredentialRef { id: field(c, "id") })
            .collect(),
    };
    assert_eq!(msg.holder_pid, "holderPid");
    assert_eq!(msg.credentials[0].id, "d5c77b0e-7f4e-4fd5-8c5f-28b5fc3f96d1");
    assert_eq!(msg.message_type, credential_request_message_type());
}

#[test]
fn messages_carry_their_types() {
    let status = CredentialStatus::new(text("i"), text("h"), "RECEIVED");
    assert_eq!(status.message_type, credential_status_type());
    assert_eq!(status.context, dcp_context());
    assert_eq!(
        (status.issuer_pid.as_str(), status.holder_pid.as_str(), status.status.as_str()),
        ("i", "h", "RECEIVED")
    );
    assert_eq!(credential_object_type(), "CredentialObject");
    assert_eq!(credential_offer_message_type(), "CredentialOfferMessage");
    let metadata = IssuerMetadata::new(text("did:web:i"), Vec::new());
    assert_eq!(metadata.message_type, "IssuerMetadata");
    assert_eq!(metadata.issuer, "did:web:i");
    assert_eq!(metadata.context, dcp_context());
    assert_eq!(metadata.credentials_supported.unwrap().len(), 0);
}

fn container(credential_type: &str) -> CredentialContainer {
    CredentialContainer {
        credential_type: credential_type.to_string(),
        payload: JsonValue::Text(text("fake-jws")),
        format: text("jwt"),
    }
}

#[test]
fn stores_and_filters_issued_credentials_by_type() {
    let mut store = InMemoryCredentialStore::new().expect("store opens");
    store
        .store(&StoredCredentialBatch {
            issuer_pid: text("issuer-1"),
            holder_pid: Some(text("holder-1")),
            status: text("ISSUED"),
            rejection_reason: None,
            credentials: vec![container("MembershipCredential")],
        })
        .expect("store");
    store
        .store(&StoredCredentialBatch {
            issuer_pid: text("issuer-2"),
            holder_pid: None,
            status: text("REJECTED"),
            rejection_reason: Some(text("nope")),
            credentials: vec![container("SensitiveDataCredential")],
        })
        .expect("store");

    let found = store.credentials_of_types(&list(&["MembershipCredential"])).unwrap();
    assert_eq!(found.len(), 1);
    assert_eq!(found[0].credential_type, "MembershipCredential");

    let none = store.credentials_of_types(&list(&["SensitiveDataCredential"])).unwrap();
    assert!(none.is_empty());

    let all = store.all().unwrap();
    assert_eq!(all.len(), 2);
    assert_eq!(all[1].rejection_reason.as_deref(), Some("nope"));
    assert_eq!(all[1].holder_pid, None);
    assert_eq!(store.graph().batches().unwrap().len(), 2);
}
