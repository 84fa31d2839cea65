//! The state of a process, in either role.

use vstd::prelude::*;

use crate::config::{scheme_of, segment_of, Config, Mode};
use crate::identity::{did_web, service_did, PublicKey, ServiceIdentity};
use crate::layout::MAX_ORDER;
use crate::messages::{credential_object_type, CredentialObject};
use crate::outbound::{host_set, OutboundPolicy};
use crate::rdf::CredentialGraphError;
use crate::replay::ReplayGuard;
use crate::requests::RequestTable;
use crate::scope::{
    colon_from, compiles, law_the_first_colon_ends_a_part, ScopeMatcher, DEFAULT_SCOPE_PATTERN,
};
use crate::store::InMemoryCredentialStore;
use crate::sts::StsConfig;
use crate::text::{chars_of, copy_texts, decimal, decimal_text, lowercased, optional_text, texts};

verus! {

/// The host that a container calls its host machine by; it always resolves to
/// loopback for the process's own requests.
pub const HOST_DOCKER_INTERNAL: &'static str = "host.docker.internal";

/// The host that the STS party's identity is hosted at.
pub const LOOPBACK_HOST: &'static str = "127.0.0.1";

/// The path segment of the STS party's DID.
pub const STS_PARTY_SEGMENT: &'static str = "sts-party";

/// How long an outbound request may take to connect, in seconds.
pub const OUTBOUND_CONNECT_TIMEOUT_SECS: u64 = 2;

/// How long an outbound request may take in all, in seconds.
pub const OUTBOUND_REQUEST_TIMEOUT_SECS: u64 = 5;

/// Why a process cannot start.
#[derive(Debug)]
pub enum StartError {
    /// The configured scope pattern is not a regular expression.
    ScopePattern(regex::Error),
    /// The credential graph could not be opened.
    Graph(CredentialGraphError),
}

/// The state of a process.
pub struct AppState {
    pub config: Config,
    /// The process's own identity.
    pub identity: ServiceIdentity,
    /// The identity that signs the tokens of the embedded STS.
    pub sts_party: ServiceIdentity,
    pub sts_config: StsConfig,
    pub scope_matcher: ScopeMatcher,
    pub store: InMemoryCredentialStore,
    /// The credential requests that are tracked.
    pub requests: RequestTable,
    /// The one credential that the Issuer Service supports.
    pub supported_credential: CredentialObject,
    /// Where outbound requests may go.
    pub outbound: OutboundPolicy,
    /// The `jti` values of accepted tokens.
    pub seen_jti: ReplayGuard,
}

/// The host part of a `host[:port]`.
pub open spec fn host_part(did_host: Seq<char>) -> Seq<char> {
    did_host.take(colon_from(did_host, 0))
}

/// The hosts that a process may call.
pub open spec fn outbound_hosts(config: Config) -> Seq<Seq<char>> {
    seq![host_part(config.did_host@), LOOPBACK_HOST@, HOST_DOCKER_INTERNAL@] + texts(
        config.allowed_outbound_hosts@,
    )
}

/// The `host:port` that the STS party's identity is hosted at.
pub open spec fn sts_party_host(config: Config) -> Seq<char> {
    LOOPBACK_HOST@ + ":"@ + decimal(config.bind_port as nat)
}

/// The host part of a `host[:port]`.
pub fn host_of(did_host: &str) -> (res: String)
    ensures
        res@ == host_part(did_host@),
{
    let chars = chars_of(did_host);
    let mut host = String::new();
    let mut i: usize = 0;
    proof {
        assert(host@ =~= did_host@.take(0));
    }
    while i < chars.len() && chars[i] != ':'
        invariant
            i <= chars.len(),
            chars@ == did_host@,
            host@ == did_host@.take(i as int),
            colon_from(did_host@, 0) == colon_from(did_host@, i as int),
        decreases chars.len() - i,
    {
        host.push(chars[i]);
        proof {
            assert(host@ =~= did_host@.take(i + 1));
        }
        i = i + 1;
    }
    host
}

/// The `host:port` that the STS party's identity is hosted at.
pub fn sts_host(config: &Config) -> (res: String)
    ensures
        res@ == sts_party_host(*config),
{
    String::from_str(LOOPBACK_HOST).concat(":").concat(decimal_text(config.bind_port as u64).as_str())
}

/// The DID of the process's own identity.
pub fn own_did(config: &Config) -> (res: String)
    ensures
        res@ == did_web(config.did_host@, segment_of(config.mode)),
{
    service_did(config.did_host.as_str(), config.mode.did_path_segment())
}

/// The DID of the STS party.
pub fn sts_did(config: &Config) -> (res: String)
    ensures
        res@ == did_web(sts_party_host(*config), STS_PARTY_SEGMENT@),
{
    service_did(sts_host(config).as_str(), STS_PARTY_SEGMENT)
}

/// The policy that confines a process's outbound requests.
pub fn outbound_policy(config: &Config) -> (res: OutboundPolicy)
    ensures
        res@ == host_set(outbound_hosts(*config)),
{
    let mut hosts: Vec<String> = Vec::new();
    hosts.push(host_of(config.did_host.as_str()));
    hosts.push(String::from_str(LOOPBACK_HOST));
    hosts.push(String::from_str(HOST_DOCKER_INTERNAL));
    let mut extra = copy_texts(&config.allowed_outbound_hosts);
    let ghost first = hosts@;
    let ghost rest = extra@;
    hosts.append(&mut extra);
    proof {
        assert(hosts@ =~= first + rest);
        assert(texts(hosts@) =~= texts(first) + texts(rest));
        assert(texts(first) =~= seq![
            host_part(config.did_host@),
            LOOPBACK_HOST@,
            HOST_DOCKER_INTERNAL@,
        ]);
        assert(texts(hosts@) == outbound_hosts(*config));
    }
    OutboundPolicy::new(hosts)
}

/// Whether a credential is the one that the Issuer Service supports.
pub open spec fn is_membership_credential(c: CredentialObject) -> bool {
    &&& c.context is None
    &&& c.id@ == "membership-credential"@
    &&& c.object_type@ == "CredentialObject"@
    &&& optional_text(c.credential_type) == Some("MembershipCredential"@)
    &&& c.binding_methods matches Some(methods) && texts(methods@) == seq!["did:web"@]
    &&& c.credential_schema is None
    &&& optional_text(c.profile) == Some("vc10-sl2021/jwt"@)
    &&& c.issuance_policy is None
    &&& c.offer_reason is None
}

/// The one credential that the Issuer Service supports.
pub fn membership_credential() -> (res: CredentialObject)
    ensures
        is_membership_credential(res),
{
    let mut methods: Vec<String> = Vec::new();
    methods.push(String::from_str("did:web"));
    proof {
        assert(texts(methods@) =~= seq!["did:web"@]);
    }
    CredentialObject {
        context: None,
        id: String::from_str("membership-credential"),
        object_type: credential_object_type(),
        credential_type: Some(String::from_str("MembershipCredential")),
        binding_methods: Some(methods),
        credential_schema: None,
        profile: Some(String::from_str("vc10-sl2021/jwt")),
        issuance_policy: None,
        offer_reason: None,
    }
}

impl AppState {
    /// The state's invariant.
    pub open spec fn wf(&self) -> bool {
        &&& self.store.wf()
        &&& self.requests.wf()
        &&& self.seen_jti.wf()
    }

    /// The state that a process starts with. `own_key` and `sts_key` are the
    /// keys of its two identities.
    pub fn new(config: Config, own_key: PublicKey, sts_key: PublicKey) -> (res: Result<
        Self,
        StartError,
    >)
        ensures
            res matches Ok(state) ==> {
                &&& state.wf()
                &&& state.config == config
                &&& state.identity.did() == did_web(config.did_host@, segment_of(config.mode))
                &&& state.identity.did_path_segment@ == segment_of(config.mode)
                &&& state.identity.key == own_key
                &&& state.sts_party.did() == did_web(sts_party_host(config), STS_PARTY_SEGMENT@)
                &&& state.sts_party.did_path_segment@ == STS_PARTY_SEGMENT@
                &&& state.sts_party.key == sts_key
                &&& state.sts_config.client_id@ == config.sts_client_id@
                &&& state.sts_config.client_secret@ == config.sts_client_secret@
                &&& state.scope_matcher.pattern() == config.scope_pattern@
                &&& state.store.graph@.batches.len() == 0
                &&& state.store.graph@.offers.len() == 0
                &&& state.store.graph.room() == MAX_ORDER
                &&& state.requests@.len() == 0
                &&& is_membership_credential(state.supported_credential)
                &&& state.outbound@ == host_set(outbound_hosts(config))
                &&& state.seen_jti@.len() == 0
            },
            res is Ok == compiles(config.scope_pattern@),
            config.scope_pattern@ == DEFAULT_SCOPE_PATTERN@ ==> res is Ok,
            res matches Err(error) ==> error is ScopePattern,
    {
        let scope_matcher = match ScopeMatcher::new(config.scope_pattern.as_str()) {
            Ok(matcher) => matcher,
            Err(error) => {
                return Err(StartError::ScopePattern(error));
            },
        };
        let store = match InMemoryCredentialStore::new() {
            Ok(store) => store,
            Err(error) => {
                return Err(StartError::Graph(error));
            },
        };
        let identity = ServiceIdentity::new(
            config.did_host.as_str(),
            config.mode.did_path_segment(),
            own_key,
        );
        let sts_party = ServiceIdentity::new(sts_host(&config).as_str(), STS_PARTY_SEGMENT, sts_key);
        let sts_config = StsConfig::new(
            config.sts_client_id.clone(),
            config.sts_client_secret.clone(),
        );
        let outbound = outbound_policy(&config);
        Ok(
            AppState {
                config,
                identity,
                sts_party,
                sts_config,
                scope_matcher,
                store,
                requests: RequestTable::new(),
                supported_credential: membership_credential(),
                outbound,
                seen_jti: ReplayGuard::new(),
            },
        )
    }

    pub fn mode(&self) -> (res: Mode)
        ensures
            res == self.config.mode,
    {
        self.config.mode
    }

    pub fn base_url(&self) -> (res: String)
        ensures
            res@ == scheme_of(self.config.insecure_http) + "://"@ + self.config.did_host@,
    {
        self.config.base_url()
    }
}

/// A process may always call itself, its STS party and the container host.
pub proof fn law_own_hosts_are_allowed(config: Config, host: Seq<char>)
    requires
        host == host_part(config.did_host@) || host == LOOPBACK_HOST@ || host
            == HOST_DOCKER_INTERNAL@ || texts(config.allowed_outbound_hosts@).contains(host),
    ensures
        host_set(outbound_hosts(config)).contains(lowercased(host)),
{
    let hosts = outbound_hosts(config);
    if host == host_part(config.did_host@) {
        assert(hosts[0] == host);
    } else if host == LOOPBACK_HOST@ {
        assert(hosts[1] == host);
    } else if host == HOST_DOCKER_INTERNAL@ {
        assert(hosts[2] == host);
    } else {
        let extra = texts(config.allowed_outbound_hosts@);
        let k = choose|k: int| 0 <= k < extra.len() && extra[k] == host;
        assert(hosts[k + 3] == host);
    }
}

/// A process may call exactly its own host, the loopback address that its STS
/// party is hosted at, the container host, and the hosts that it was configured
/// with, in whatever case.
pub proof fn law_allowed_hosts_are_exactly_these(config: Config, host: Seq<char>)
    ensures
        host_set(outbound_hosts(config)).contains(host) <==> {
            ||| host == lowercased(config.did_host@.take(colon_from(config.did_host@, 0)))
            ||| host == lowercased("127.0.0.1"@)
            ||| host == lowercased("host.docker.internal"@)
            ||| exists|i: int|
                0 <= i < config.allowed_outbound_hosts@.len() && host == lowercased(
                    (#[trigger] config.allowed_outbound_hosts@[i])@,
                )
        },
{
    let hosts = outbound_hosts(config);
    let extra = config.allowed_outbound_hosts@;
    assert(hosts[0] == host_part(config.did_host@));
    assert(hosts[1] == "127.0.0.1"@);
    assert(hosts[2] == "host.docker.internal"@);
    assert(hosts.len() == extra.len() + 3);
    if host_set(hosts).contains(host) {
        let i = choose|i: int| 0 <= i < hosts.len() && host == lowercased(#[trigger] hosts[i]);
        if i >= 3 {
            assert(hosts[i] == extra[i - 3]@);
        }
    }
    if exists|i: int| 0 <= i < extra.len() && host == lowercased((#[trigger] extra[i])@) {
        let i = choose|i: int| 0 <= i < extra.len() && host == lowercased((#[trigger] extra[i])@);
        assert(hosts[i + 3] == extra[i]@);
    }
}

/// The host of a process is what stands before the port, and its STS party is
/// hosted at the loopback address and the port that the process listens on.
pub proof fn law_hosts_of_a_process(config: Config, host: Seq<char>, port: Seq<char>)
    requires
        forall|k: int| 0 <= k < host.len() ==> #[trigger] host[k] != ':',
    ensures
        host_part(host) == host,
        host_part(host + seq![':'] + port) == host,
        sts_party_host(config) == "127.0.0.1"@ + ":"@ + decimal(config.bind_port as nat),
        STS_PARTY_SEGMENT@ == "sts-party"@,
{
    law_the_first_colon_ends_a_part(host, port);
}

/// What the one credential that the Issuer Service supports is.
pub proof fn law_supported_credential(c: CredentialObject)
    requires
        is_membership_credential(c),
    ensures
        c.id@ == "membership-credential"@,
        c.object_type@ == "CredentialObject"@,
        c.credential_type matches Some(t) && t@ == "MembershipCredential"@,
        c.binding_methods matches Some(methods) && texts(methods@) == seq!["did:web"@],
        c.profile matches Some(profile) && profile@ == "vc10-sl2021/jwt"@,
        c.context is None,
        c.credential_schema is None,
        c.issuance_policy is None,
        c.offer_reason is None,
{
}

/// An outbound request has two seconds to connect and five in all.
pub proof fn law_outbound_requests_end()
    ensures
        OUTBOUND_CONNECT_TIMEOUT_SECS == 2,
        OUTBOUND_REQUEST_TIMEOUT_SECS == 5,
{
}

} // verus!
