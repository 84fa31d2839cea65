//! Configuration, state, the outbound policy, and load-test messages.

use identity_hub::config::{CommonArgs, Config, Mode};
use identity_hub::identity::PublicKey;
use identity_hub::json::JsonValue;
use identity_hub::load::{
    keep_waiting, mint_outer_envelope, seed_claims, seed_message, sts_form, worker_shares,
};
use identity_hub::outbound::{OutboundError, OutboundPolicy, UrlParts};
use identity_hub::reply::is_success;
use identity_hub::state::{host_of, own_did, sts_did, AppState, StartError};
use identity_hub::text::{blank, contains_run, decimal_text, same_text};

fn text(s: &str) -> String {
    s.to_string()
}

fn list(items: &[&str]) -> Vec<String> {
    items.iter().map(|s| s.to_string()).collect()
}

fn key(id: &str) -> PublicKey {
    PublicKey { key_id: text(id), x: text("x"), y: text("y") }
}

fn args(did_host: Option<&str>, insecure_http: bool) -> CommonArgs {
    CommonArgs {
        bind_port: 8080,
        did_host: did_host.map(|h| h.to_string()),
        sts_client_id: text("tck-client"),
        sts_client_secret: text("tck-secret"),
        scope_pattern: text("(?P<type>.+)"),
        insecure_http,
        trusted_issuer_dids: list(&["did:web:a"]),
        known_holder_pids: list(&["p"]),
        allow_resolve_host: list(&["Extra.Example"]),
    }
}

#[test]
fn turning_insecure_http_off_selects_https_did_web_resolution() {
    let config = args(None, false).into_config(Mode::CredentialService);
    assert!(!config.insecure_http);
    assert_eq!(config.scheme(), "https");
    assert!(config.base_url().starts_with("https://"));
}

#[test]
fn the_scheme_is_http_where_insecure_http_is_on() {
    let config = args(None, true).into_config(Mode::IssuerService);
    assert_eq!(config.scheme(), "http");
    assert_eq!(config.base_url(), "http://localhost:8080");
}

#[test]
fn options_become_a_configuration() {
    let config = args(Some("hub.example:9000"), true).into_config(Mode::IssuerService);
    assert_eq!(config.mode, Mode::IssuerService);
    assert_eq!(config.did_host, "hub.example:9000");
    assert_eq!(config.bind_port, 8080);
    assert_eq!(config.sts_client_id, "tck-client");
    assert_eq!(config.sts_client_secret, "tck-secret");
    assert_eq!(config.scope_pattern, "(?P<type>.+)");
    assert_eq!(config.trusted_issuer_dids, list(&["did:web:a"]));
    assert_eq!(config.known_holder_pids, list(&["p"]));
    assert_eq!(config.allowed_outbound_hosts, list(&["Extra.Example"]));
    assert_eq!(Mode::CredentialService.did_path_segment(), "credential-service");
    assert_eq!(Mode::IssuerService.did_path_segment(), "issuer-service");
}

#[test]
fn a_state_starts_empty_and_calls_its_own_hosts_only() {
    let config = args(Some("hub.example:9000"), true).into_config(Mode::CredentialService);
    assert_eq!(own_did(&config), "did:web:hub.example%3A9000:credential-service");
    assert_eq!(sts_did(&config), "did:web:127.0.0.1%3A8080:sts-party");
    let state = match AppState::new(config, key("own"), key("sts")) {
        Ok(state) => state,
        Err(error) => panic!("{error:?}"),
    };
    assert_eq!(state.mode(), Mode::CredentialService);
    assert_eq!(state.base_url(), "http://hub.example:9000");
    assert_eq!(state.identity.own_did(), "did:web:hub.example%3A9000:credential-service");
    assert_eq!(state.sts_party.own_did(), "did:web:127.0.0.1%3A8080:sts-party");
    assert!(state.store.all().unwrap().is_empty());
    assert_eq!(state.requests.len(), 0);
    assert_eq!(state.seen_jti.len(), 0);
    assert_eq!(state.scope_matcher.credential_type("abc"), Some(text("abc")));
    for allowed in [
        "http://hub.example/x",
        "https://HUB.example:1/x",
        "http://127.0.0.1:7000",
        "http://host.docker.internal/",
        "http://extra.example/did.json",
    ] {
        assert!(state.outbound.check_url(allowed).is_ok(), "{allowed}");
    }
    assert!(state.outbound.check_url("http://sub.hub.example/").is_err());
}

#[test]
fn the_test_configuration_starts_empty() {
    let config = Config::for_test(Mode::CredentialService, 8080, text("localhost:8080"));
    let state = match AppState::new(config, key("own"), key("sts")) {
        Ok(state) => state,
        Err(error) => panic!("{error:?}"),
    };
    assert_eq!(state.identity.own_did(), "did:web:localhost%3A8080:credential-service");
    assert_eq!(state.sts_party.own_did(), "did:web:127.0.0.1%3A8080:sts-party");
    assert!(state.store.all().unwrap().is_empty());
    assert!(state.store.graph().offers().unwrap().is_empty());
    assert_eq!(state.requests.len(), 0);
    assert_eq!(state.seen_jti.len(), 0);
    for allowed in ["http://localhost:9/", "http://127.0.0.1:9/", "http://host.docker.internal/"] {
        assert!(state.outbound.check_url(allowed).is_ok(), "{allowed}");
    }
    match state.outbound.check_url("http://127.0.0.2:8080/").unwrap_err() {
        OutboundError::HostNotAllowed(host) => assert_eq!(host, "127.0.0.2"),
        other => panic!("{other:?}"),
    }
}

#[test]
fn hosts_may_be_given_in_any_order_case_and_number() {
    let one = OutboundPolicy::new(list(&["a.example", "B.example"]));
    let other = OutboundPolicy::new(list(&["b.EXAMPLE", "A.example", "b.example", "a.example"]));
    for url in ["http://A.example/", "https://b.example:1/", "http://c.example/"] {
        assert_eq!(one.check_url(url).is_ok(), other.check_url(url).is_ok(), "{url}");
    }
    assert!(other.check_url("http://a.example/").is_ok());
}

#[test]
fn only_a_status_in_the_two_hundreds_is_a_success() {
    assert!(!is_success(199));
    assert!(is_success(200));
    assert!(is_success(299));
    assert!(!is_success(300));
}

#[test]
fn waiting_for_a_server_ends() {
    assert!(keep_waiting(0));
    assert!(keep_waiting(49));
    assert!(!keep_waiting(50));
}

#[test]
fn a_pattern_that_does_not_compile_stops_the_start() {
    let mut config = Config::for_test(Mode::CredentialService, 1, text("h"));
    config.scope_pattern = text("(");
    match AppState::new(config, key("own"), key("sts")) {
        Ok(_) => panic!("started"),
        Err(error) => assert!(matches!(error, StartError::ScopePattern(_))),
    }
}

#[test]
fn the_host_part_ends_at_the_first_colon() {
    assert_eq!(host_of("localhost:8080"), "localhost");
    assert_eq!(host_of("localhost"), "localhost");
    assert_eq!(host_of(":1"), "");
    assert_eq!(host_of("a:b:c"), "a");
}

#[test]
fn the_outbound_policy_matches_hosts_exactly() {
    let policy = OutboundPolicy::new(list(&["Localhost", "127.0.0.1", "localhost"]));
    assert!(policy.check_url("http://LOCALHOST:9/a?b#c").is_ok());
    assert!(policy.check_url("https://user@127.0.0.1/").is_ok());
    match policy.check_url("http://Example.ORG/").unwrap_err() {
        OutboundError::HostNotAllowed(host) => assert_eq!(host, "example.org"),
        other => panic!("{other:?}"),
    }
    match policy.check_url("file:///etc/passwd").unwrap_err() {
        OutboundError::UnsupportedScheme(scheme) => assert_eq!(scheme, "file"),
        other => panic!("{other:?}"),
    }
    assert!(matches!(
        policy.check_url("not a url").unwrap_err(),
        OutboundError::Malformed(_)
    ));
    assert_eq!(
        policy.check_url("http://x.localhost/").unwrap_err().message(),
        "outbound host 'x.localhost' is not on this service's allow-list"
    );
    let empty = OutboundPolicy::new(Vec::new());
    assert!(empty.check_url("http://localhost/").is_err());
}

#[test]
fn the_outbound_policy_decides_on_given_parts() {
    let policy = OutboundPolicy::new(list(&["h"]));
    let parts = |scheme: &str, host: Option<&str>| {
        Ok(UrlParts { scheme: text(scheme), host: host.map(|h| h.to_string()) })
    };
    assert!(policy.check_parts("u", parts("http", Some("H"))).is_ok());
    assert!(policy.check_parts("u", parts("https", Some("h"))).is_ok());
    assert_eq!(
        policy.check_parts("u", parts("http", None)).unwrap_err().message(),
        "outbound destination is not a usable URL: 'u' has no host component"
    );
    assert_eq!(
        policy.check_parts("u", parts("HTTP", Some("h"))).unwrap_err().message(),
        "outbound URL scheme 'HTTP' is not supported (only http/https)"
    );
    assert_eq!(
        policy.check_parts("u", Err(text("bad"))).unwrap_err().message(),
        "outbound destination is not a usable URL: bad"
    );
    assert!(policy.check_did(&Ok(text("http://h/did.json"))).is_ok());
    assert_eq!(
        policy.check_did(&Err(text("no did:web"))).unwrap_err().message(),
        "outbound destination is not a usable URL: no did:web"
    );
}

#[test]
fn tokens_are_shared_out_evenly() {
    assert_eq!(worker_shares(10, 4), vec![3, 3, 2, 2]);
    assert_eq!(worker_shares(3, 8), vec![1, 1, 1]);
    assert_eq!(worker_shares(0, 8), vec![0]);
    assert_eq!(worker_shares(8, 8), vec![1; 8]);
    assert_eq!(worker_shares(5, 1), vec![5]);
}

#[test]
fn load_test_tokens_and_messages_are_well_formed() {
    let envelope = mint_outer_envelope("did:v", "did:t", "nested", 1_000);
    assert_eq!((envelope.iss.as_str(), envelope.sub.as_str()), ("did:v", "did:v"));
    assert_eq!(envelope.aud, "did:t");
    assert_eq!((envelope.iat, envelope.nbf, envelope.exp), (1_000, 1_000, 1_250));
    assert_eq!(envelope.token.as_deref(), Some("nested"));
    assert_ne!(envelope.jti, mint_outer_envelope("did:v", "did:t", "nested", 1_000).jti);
    let claims = seed_claims("did:i", "T", "pid", 1_000);
    assert_eq!(claims.sub, "did:example:pid");
    assert_eq!(claims.subject_id, "did:example:pid");
    assert_eq!(claims.iss, "did:i");
    assert_eq!(claims.types, list(&["VerifiableCredential", "T"]));
    assert_eq!((claims.iat, claims.nbf, claims.exp), (1_000, 1_000, 31_537_000));
    let message = seed_message(text("jws"), "T", "pid", "ipid");
    assert_eq!(message.status, "ISSUED");
    assert_eq!(message.issuer_pid, "ipid");
    assert_eq!(message.holder_pid, "pid");
    assert_eq!(message.credentials[0].payload, JsonValue::Text(text("jws")));
    assert_eq!(message.credentials[0].format, "jwt");
    let form = sts_form("c", "s", "a", Some("scope"));
    assert_eq!(form.len(), 5);
    assert_eq!(form[0], (text("grant_type"), text("client_credentials")));
    assert_eq!(form[4], (text("bearer_access_scope"), text("scope")));
    assert_eq!(sts_form("c", "s", "a", None).len(), 4);
}

#[test]
fn texts_are_read_by_character() {
    assert!(same_text("\u{e9}", "\u{e9}"));
    assert!(!same_text("a", "A"));
    assert!(blank(" \t\u{2003}\n"));
    assert!(blank(""));
    assert!(!blank(" x "));
    assert!(contains_run("vc1_0_jwt", "jwt"));
    assert!(contains_run("x", ""));
    assert!(!contains_run("jw", "jwt"));
    assert!(!contains_run("jwjw", "jwt"));
    assert_eq!(decimal_text(0), "0");
    assert_eq!(decimal_text(65_535), "65535");
    assert_eq!(decimal_text(18_446_744_073_709_551_615), "18446744073709551615");
}

#[test]
fn white_space_is_what_the_standard_library_says() {
    for code in 0..0x1_1000u32 {
        if let Some(c) = char::from_u32(code) {
            assert_eq!(identity_hub::text::white(c), c.is_whitespace(), "{code:x}");
        }
    }
}
