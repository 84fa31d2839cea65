//! How a process is configured.

use vstd::prelude::*;

use crate::scope::DEFAULT_SCOPE_PATTERN;
use crate::text::{concat3, decimal, decimal_text};

verus! {

/// Which of the two roles a process has.
#[derive(Debug, Clone, Copy, PartialEq, Eq, Structural)]
pub enum Mode {
    CredentialService,
    IssuerService,
}

/// The path segment of a role's DID.
pub open spec fn segment_of(mode: Mode) -> Seq<char> {
    match mode {
        Mode::CredentialService => "credential-service"@,
        Mode::IssuerService => "issuer-service"@,
    }
}

impl Mode {
    pub fn did_path_segment(self) -> (res: &'static str)
        ensures
            res@ == segment_of(self),
    {
        match self {
            Mode::CredentialService => "credential-service",
            Mode::IssuerService => "issuer-service",
        }
    }
}

/// A process's configuration.
#[derive(Debug)]
pub struct Config {
    pub mode: Mode,
    /// The port that the process listens on.
    pub bind_port: u16,
    /// The `host[:port]` that the process is reachable at.
    pub did_host: String,
    pub sts_client_id: String,
    pub sts_client_secret: String,
    /// The pattern that takes a credential type out of a scope.
    pub scope_pattern: String,
    /// Whether DIDs are resolved, and endpoints advertised, over plain HTTP.
    pub insecure_http: bool,
    /// The DIDs that may deliver credentials and offers; empty means none.
    pub trusted_issuer_dids: Vec<String>,
    /// The `holderPid` values that are expected; empty means any.
    pub known_holder_pids: Vec<String>,
    /// Hosts that may be called besides those that follow from the rest.
    pub allowed_outbound_hosts: Vec<String>,
}

/// The scheme of a configuration.
pub open spec fn scheme_of(insecure_http: bool) -> Seq<char> {
    if insecure_http {
        "http"@
    } else {
        "https"@
    }
}

impl Config {
    pub fn scheme(&self) -> (res: &'static str)
        ensures
            res@ == scheme_of(self.insecure_http),
    {
        if self.insecure_http {
            "http"
        } else {
            "https"
        }
    }

    /// The base URL that the process is reachable at.
    pub fn base_url(&self) -> (res: String)
        ensures
            res@ == scheme_of(self.insecure_http) + "://"@ + self.did_host@,
    {
        concat3(self.scheme(), "://", self.did_host.as_str())
    }

    pub fn for_test(mode: Mode, bind_port: u16, did_host: String) -> (res: Self)
        ensures
            res.mode == mode,
            res.bind_port == bind_port,
            res.did_host == did_host,
            res.sts_client_id@ == "tck-client"@,
            res.sts_client_secret@ == "tck-secret"@,
            res.scope_pattern@ == DEFAULT_SCOPE_PATTERN@,
            res.insecure_http,
            res.trusted_issuer_dids@.len() == 0,
            res.known_holder_pids@.len() == 0,
            res.allowed_outbound_hosts@.len() == 0,
    {
        Config {
            mode,
            bind_port,
            did_host,
            sts_client_id: String::from_str("tck-client"),
            sts_client_secret: String::from_str("tck-secret"),
            scope_pattern: String::from_str(DEFAULT_SCOPE_PATTERN),
            insecure_http: true,
            trusted_issuer_dids: Vec::new(),
            known_holder_pids: Vec::new(),
            allowed_outbound_hosts: Vec::new(),
        }
    }

    pub fn with_trusted_issuer_dids(self, trusted_issuer_dids: Vec<String>) -> (res: Self)
        ensures
            res == (Config { trusted_issuer_dids, ..self }),
    {
        let mut config = self;
        config.trusted_issuer_dids = trusted_issuer_dids;
        config
    }

    pub fn with_known_holder_pids(self, known_holder_pids: Vec<String>) -> (res: Self)
        ensures
            res == (Config { known_holder_pids, ..self }),
    {
        let mut config = self;
        config.known_holder_pids = known_holder_pids;
        config
    }
}

/// The options that both roles share on the command line.
#[derive(Debug)]
pub struct CommonArgs {
    pub bind_port: u16,
    pub did_host: Option<String>,
    pub sts_client_id: String,
    pub sts_client_secret: String,
    pub scope_pattern: String,
    pub insecure_http: bool,
    pub trusted_issuer_dids: Vec<String>,
    pub known_holder_pids: Vec<String>,
    pub allow_resolve_host: Vec<String>,
}

impl CommonArgs {
    /// The configuration that the options ask for. Without a host the process is
    /// reachable at `localhost` and the port it listens on.
    pub fn into_config(self, mode: Mode) -> (res: Config)
        ensures
            res.mode == mode,
            res.bind_port == self.bind_port,
            res.did_host@ == (match self.did_host {
                Some(host) => host@,
                None => "localhost:"@ + decimal(self.bind_port as nat),
            }),
            res.sts_client_id == self.sts_client_id,
            res.sts_client_secret == self.sts_client_secret,
            res.scope_pattern == self.scope_pattern,
            res.insecure_http == self.insecure_http,
            res.trusted_issuer_dids == self.trusted_issuer_dids,
            res.known_holder_pids == self.known_holder_pids,
            res.allowed_outbound_hosts == self.allow_resolve_host,
    {
        let did_host = match self.did_host {
            Some(host) => host,
            None => String::from_str("localhost:").concat(
                decimal_text(self.bind_port as u64).as_str(),
            ),
        };
        Config {
            mode,
            bind_port: self.bind_port,
            did_host,
            sts_client_id: self.sts_client_id,
            sts_client_secret: self.sts_client_secret,
            scope_pattern: self.scope_pattern,
            insecure_http: self.insecure_http,
            trusted_issuer_dids: self.trusted_issuer_dids,
            known_holder_pids: self.known_holder_pids,
            allowed_outbound_hosts: self.allow_resolve_host,
        }
    }
}

/// The two roles have DIDs under paths of their own, and plain HTTP is used where
/// it is asked for and only there.
pub proof fn law_roles_and_schemes()
    ensures
        segment_of(Mode::CredentialService) == "credential-service"@,
        segment_of(Mode::IssuerService) == "issuer-service"@,
        scheme_of(true) == "http"@,
        scheme_of(false) == "https"@,
{
}

} // verus!
