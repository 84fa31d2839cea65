//! Confines every outbound HTTP request to an explicit, deny-by-default host
//! allow-list.
//!
//! The rule: a case-insensitive exact match on the URL's host; the port is
//! ignored; no wildcard, suffix or CIDR matching.

use vstd::prelude::*;
use vstd::utf8::is_ascii_chars;

use crate::text::{
    ascii_lowered, concat3, contains_text, lowercased, optional_text, same_text, texts, to_lowercase,
};

verus! {

/// Why an outbound destination is refused.
#[derive(Debug)]
pub enum OutboundError {
    /// The host is not on the allow-list.
    HostNotAllowed(String),
    /// The scheme is neither `http` nor `https`.
    UnsupportedScheme(String),
    /// The destination is not a usable URL.
    Malformed(String),
}

/// What an [`OutboundError`] holds.
pub enum OutboundErrorView {
    HostNotAllowed(Seq<char>),
    UnsupportedScheme(Seq<char>),
    Malformed(Seq<char>),
}

impl View for OutboundError {
    type V = OutboundErrorView;

    open spec fn view(&self) -> OutboundErrorView {
        match self {
            OutboundError::HostNotAllowed(host) => OutboundErrorView::HostNotAllowed(host@),
            OutboundError::UnsupportedScheme(scheme) => OutboundErrorView::UnsupportedScheme(
                scheme@,
            ),
            OutboundError::Malformed(detail) => OutboundErrorView::Malformed(detail@),
        }
    }
}

/// The text of an [`OutboundError`].
pub open spec fn outbound_message(error: OutboundErrorView) -> Seq<char> {
    match error {
        OutboundErrorView::HostNotAllowed(host) => "outbound host '"@ + host
            + "' is not on this service's allow-list"@,
        OutboundErrorView::UnsupportedScheme(scheme) => "outbound URL scheme '"@ + scheme
            + "' is not supported (only http/https)"@,
        OutboundErrorView::Malformed(detail) => "outbound destination is not a usable URL: "@
            + detail,
    }
}

impl OutboundError {
    /// The error in words.
    pub fn message(&self) -> (res: String)
        ensures
            res@ == outbound_message(self@),
    {
        match self {
            OutboundError::HostNotAllowed(host) => concat3(
                "outbound host '",
                host.as_str(),
                "' is not on this service's allow-list",
            ),
            OutboundError::UnsupportedScheme(scheme) => concat3(
                "outbound URL scheme '",
                scheme.as_str(),
                "' is not supported (only http/https)",
            ),
            OutboundError::Malformed(detail) => String::from_str(
                "outbound destination is not a usable URL: ",
            ).concat(detail.as_str()),
        }
    }
}

/// What the policy reads of a URL.
#[derive(Debug)]
pub struct UrlParts {
    pub scheme: String,
    pub host: Option<String>,
}

/// What a [`UrlParts`] holds.
pub struct UrlView {
    pub scheme: Seq<char>,
    pub host: Option<Seq<char>>,
}

impl View for UrlParts {
    type V = UrlView;

    open spec fn view(&self) -> UrlView {
        UrlView { scheme: self.scheme@, host: optional_text(self.host) }
    }
}

/// The view of a URL that was parsed, or of the parser's message.
pub open spec fn parse_view(parts: Result<UrlParts, String>) -> Result<UrlView, Seq<char>> {
    match parts {
        Ok(parts) => Ok(parts@),
        Err(message) => Err(message@),
    }
}

/// What `reqwest::Url::parse` makes of a text: the URL's scheme and host, or the
/// parser's message.
pub uninterp spec fn url_parts(url: Seq<char>) -> Result<UrlView, Seq<char>>;

/// Calls `reqwest::Url::parse`, and `scheme` and `host_str` on the URL it gives.
#[verifier::external_body]
fn parse_url(url: &str) -> (res: Result<UrlParts, String>)
    ensures
        parse_view(res) == url_parts(url@),
{
    match reqwest::Url::parse(url) {
        Ok(parsed) => Ok(
            UrlParts {
                scheme: parsed.scheme().to_string(),
                host: parsed.host_str().map(|host| host.to_string()),
            },
        ),
        Err(error) => Err(error.to_string()),
    }
}

/// What the policy says of a parsed URL: refused with an error, or `None`.
pub open spec fn url_refusal(
    allowed: Set<Seq<char>>,
    url: Seq<char>,
    parts: Result<UrlView, Seq<char>>,
) -> Option<OutboundErrorView> {
    match parts {
        Err(message) => Some(OutboundErrorView::Malformed(message)),
        Ok(parts) => if parts.scheme != "http"@ && parts.scheme != "https"@ {
            Some(OutboundErrorView::UnsupportedScheme(parts.scheme))
        } else {
            match parts.host {
                None => Some(OutboundErrorView::Malformed("'"@ + url + "' has no host component"@)),
                Some(host) => if allowed.contains(lowercased(host)) {
                    None
                } else {
                    Some(OutboundErrorView::HostNotAllowed(lowercased(host)))
                },
            }
        },
    }
}

/// What the policy says of a DID whose resolution URL is `location`, or which
/// has none.
pub open spec fn did_refusal(
    allowed: Set<Seq<char>>,
    location: Result<Seq<char>, Seq<char>>,
) -> Option<OutboundErrorView> {
    match location {
        Err(message) => Some(OutboundErrorView::Malformed(message)),
        Ok(url) => url_refusal(allowed, url, url_parts(url)),
    }
}

/// The view of a check's outcome: the error, or `None`.
pub open spec fn refusal_view(res: Result<(), OutboundError>) -> Option<OutboundErrorView> {
    match res {
        Ok(_) => None,
        Err(error) => Some(error@),
    }
}

/// The view of where a DID resolves, or of why it does not.
pub open spec fn location_view(location: Result<String, String>) -> Result<Seq<char>, Seq<char>> {
    match location {
        Ok(url) => Ok(url@),
        Err(message) => Err(message@),
    }
}

/// A deny-by-default host allow-list.
pub struct OutboundPolicy {
    allowed_hosts: Vec<String>,
}

impl View for OutboundPolicy {
    type V = Set<Seq<char>>;

    open spec fn view(&self) -> Set<Seq<char>> {
        self.hosts().to_set()
    }
}

/// The hosts of a list, lower-cased.
pub open spec fn host_set(hosts: Seq<Seq<char>>) -> Set<Seq<char>> {
    Set::new(|h: Seq<char>| exists|i: int| 0 <= i < hosts.len() && h == lowercased(#[trigger] hosts[i]))
}

impl OutboundPolicy {
    /// The hosts as the policy keeps them.
    pub closed spec fn hosts(&self) -> Seq<Seq<char>> {
        texts(self.allowed_hosts@)
    }

    /// Builds the policy from a list of hosts (host only, no port), lower-cased
    /// and without duplicates.
    pub fn new(hosts: Vec<String>) -> (res: Self)
        ensures
            res@ == host_set(texts(hosts@)),
            res.hosts().no_duplicates(),
    {
        let mut allowed_hosts: Vec<String> = Vec::new();
        let mut i: usize = 0;
        while i < hosts.len()
            invariant
                i <= hosts.len(),
                texts(allowed_hosts@).no_duplicates(),
                forall|h: Seq<char>| #[trigger]
                    texts(allowed_hosts@).contains(h) <==> exists|k: int|
                        0 <= k < i && h == lowercased(#[trigger] texts(hosts@)[k]),
            decreases hosts.len() - i,
        {
            let host = to_lowercase(hosts[i].as_str());
            let ghost before = texts(allowed_hosts@);
            let known = contains_text(&allowed_hosts, host.as_str());
            let ghost name = host@;
            if !known {
                allowed_hosts.push(host);
            }
            proof {
                let now = texts(allowed_hosts@);
                assert(name == lowercased(texts(hosts@)[i as int]));
                if !known {
                    assert(now =~= before.push(name));
                    assert(now[before.len() as int] == name);
                }
                assert forall|h: Seq<char>| #[trigger] now.contains(h) <==> exists|k: int|
                    0 <= k < i + 1 && h == lowercased(#[trigger] texts(hosts@)[k]) by {
                    if now.contains(h) {
                        if before.contains(h) {
                            let k = choose|k: int|
                                0 <= k < i && h == lowercased(#[trigger] texts(hosts@)[k]);
                            assert(0 <= k < i + 1 && h == lowercased(texts(hosts@)[k]));
                        } else {
                            assert(h == lowercased(texts(hosts@)[i as int]));
                        }
                    }
                    if exists|k: int| 0 <= k < i + 1 && h == lowercased(#[trigger] texts(hosts@)[k]) {
                        let k = choose|k: int|
                            0 <= k < i + 1 && h == lowercased(#[trigger] texts(hosts@)[k]);
                        if k < i {
                            assert(before.contains(h));
                            let m = choose|m: int| 0 <= m < before.len() && before[m] == h;
                            assert(now[m] == h);
                        }
                    }
                }
            }
            i = i + 1;
        }
        let policy = OutboundPolicy { allowed_hosts };
        proof {
            assert(policy@ =~= host_set(texts(hosts@)));
        }
        policy
    }

    /// Decides on a URL whose parts are known: the scheme must be `http` or
    /// `https`, and the host must be on the allow-list.
    pub fn check_parts(&self, url: &str, parts: Result<UrlParts, String>) -> (res: Result<
        (),
        OutboundError,
    >)
        ensures
            refusal_view(res) == url_refusal(self@, url@, parse_view(parts)),
    {
        let parsed = match parts {
            Ok(parsed) => parsed,
            Err(message) => {
                return Err(OutboundError::Malformed(message));
            },
        };
        if !same_text(parsed.scheme.as_str(), "http") && !same_text(
            parsed.scheme.as_str(),
            "https",
        ) {
            return Err(OutboundError::UnsupportedScheme(parsed.scheme));
        }
        match parsed.host {
            None => Err(OutboundError::Malformed(concat3("'", url, "' has no host component"))),
            Some(host) => {
                let host = to_lowercase(host.as_str());
                if contains_text(&self.allowed_hosts, host.as_str()) {
                    Ok(())
                } else {
                    Err(OutboundError::HostNotAllowed(host))
                }
            },
        }
    }

    /// Checks a fully-formed destination URL.
    pub fn check_url(&self, url: &str) -> (res: Result<(), OutboundError>)
        ensures
            refusal_view(res) == url_refusal(self@, url@, url_parts(url@)),
    {
        self.check_parts(url, parse_url(url))
    }

    /// Checks a DID by the URL that it resolves at, without resolving it.
    /// `location` is that URL, or why the DID has none.
    pub fn check_did(&self, location: &Result<String, String>) -> (res: Result<(), OutboundError>)
        ensures
            refusal_view(res) == did_refusal(self@, location_view(*location)),
    {
        match location {
            Ok(url) => self.check_url(url.as_str()),
            Err(message) => Err(OutboundError::Malformed(message.clone())),
        }
    }
}

/// Neither the order of the hosts, nor how often one is given, nor its letter
/// case matters to the policy.
pub proof fn law_order_repetition_and_case_do_not_matter(
    a: Seq<Seq<char>>,
    b: Seq<Seq<char>>,
    url: Seq<char>,
    parts: Result<UrlView, Seq<char>>,
)
    requires
        a.map_values(|h: Seq<char>| lowercased(h)).to_set() == b.map_values(
            |h: Seq<char>| lowercased(h),
        ).to_set(),
    ensures
        host_set(a) == host_set(b),
        url_refusal(host_set(a), url, parts) == url_refusal(host_set(b), url, parts),
{
    let lower_a = a.map_values(|h: Seq<char>| lowercased(h));
    let lower_b = b.map_values(|h: Seq<char>| lowercased(h));
    assert forall|h: Seq<char>| host_set(a).contains(h) <==> host_set(b).contains(h) by {
        if host_set(a).contains(h) {
            let i = choose|i: int| 0 <= i < a.len() && h == lowercased(#[trigger] a[i]);
            assert(lower_a[i] == h);
            assert(lower_b.to_set().contains(h));
            let j = choose|j: int| 0 <= j < lower_b.len() && lower_b[j] == h;
            assert(h == lowercased(b[j]));
        }
        if host_set(b).contains(h) {
            let i = choose|i: int| 0 <= i < b.len() && h == lowercased(#[trigger] b[i]);
            assert(lower_b[i] == h);
            assert(lower_a.to_set().contains(h));
            let j = choose|j: int| 0 <= j < lower_a.len() && lower_a[j] == h;
            assert(h == lowercased(a[j]));
        }
    }
    assert(host_set(a) =~= host_set(b));
}

/// A host on the allow-list passes in whatever case its ASCII letters are given,
/// here or there.
pub proof fn law_ascii_hosts_pass_in_any_case(
    hosts: Seq<Seq<char>>,
    i: int,
    url: Seq<char>,
    parts: UrlView,
    host: Seq<char>,
)
    requires
        0 <= i < hosts.len(),
        is_ascii_chars(hosts[i]),
        is_ascii_chars(host),
        ascii_lowered(host) == ascii_lowered(hosts[i]),
        parts.scheme == "http"@ || parts.scheme == "https"@,
        parts.host == Some(host),
    ensures
        url_refusal(host_set(hosts), url, Ok(parts)) is None,
{
    assert(lowercased(host) == lowercased(hosts[i]));
}

/// An empty allow-list refuses every destination.
pub proof fn law_empty_policy_refuses_everything(url: Seq<char>, parts: Result<UrlView, Seq<char>>)
    ensures
        url_refusal(host_set(Seq::empty()), url, parts) is Some,
{
}

/// Only an `http` or `https` URL with a listed host passes, and it passes
/// whatever else the URL holds.
pub proof fn law_only_the_host_decides(
    hosts: Seq<Seq<char>>,
    url: Seq<char>,
    parts: Result<UrlView, Seq<char>>,
)
    ensures
        url_refusal(host_set(hosts), url, parts) is None <==> (parts matches Ok(p) && (p.scheme
            == "http"@ || p.scheme == "https"@) && (p.host matches Some(host) && exists|i: int|
            0 <= i < hosts.len() && lowercased(host) == lowercased(#[trigger] hosts[i]))),
{
}

/// Why a destination is refused: it is no URL; or its scheme is neither `http`
/// nor `https`; or it has no host; or its host, in lower case, is not listed.
pub proof fn law_each_refusal_has_its_reason(
    hosts: Seq<Seq<char>>,
    url: Seq<char>,
    message: Seq<char>,
    parts: UrlView,
    host: Seq<char>,
)
    ensures
        url_refusal(host_set(hosts), url, Err(message)) == Some(
            OutboundErrorView::Malformed(message),
        ),
        parts.scheme != "http"@ && parts.scheme != "https"@ ==> url_refusal(
            host_set(hosts),
            url,
            Ok(parts),
        ) == Some(OutboundErrorView::UnsupportedScheme(parts.scheme)),
        (parts.scheme == "http"@ || parts.scheme == "https"@) && parts.host is None
            ==> url_refusal(host_set(hosts), url, Ok(parts)) == Some(
            OutboundErrorView::Malformed("'"@ + url + "' has no host component"@),
        ),
        (parts.scheme == "http"@ || parts.scheme == "https"@) && parts.host == Some(host) && !(
        exists|i: int| 0 <= i < hosts.len() && lowercased(host) == lowercased(#[trigger] hosts[i]))
            ==> url_refusal(host_set(hosts), url, Ok(parts)) == Some(
            OutboundErrorView::HostNotAllowed(lowercased(host)),
        ),
{
}

/// A DID is checked by the URL that it resolves at; one without such a URL is
/// refused.
pub proof fn law_dids_are_checked_by_their_location(
    allowed: Set<Seq<char>>,
    location: Seq<char>,
    message: Seq<char>,
)
    ensures
        did_refusal(allowed, Ok(location)) == url_refusal(allowed, location, url_parts(location)),
        did_refusal(allowed, Err(message)) == Some(OutboundErrorView::Malformed(message)),
{
}

/// What a refusal says: the host, the scheme or the detail that it is about.
pub proof fn law_refusals_say_what_they_are_about(detail: Seq<char>)
    ensures
        outbound_message(OutboundErrorView::HostNotAllowed(detail)) == "outbound host '"@ + detail
            + "' is not on this service's allow-list"@,
        outbound_message(OutboundErrorView::UnsupportedScheme(detail)) == "outbound URL scheme '"@
            + detail + "' is not supported (only http/https)"@,
        outbound_message(OutboundErrorView::Malformed(detail))
            == "outbound destination is not a usable URL: "@ + detail,
{
}

/// A parsed URL, its parser's message and a DID's location read as they stand.
pub proof fn law_locations_read_as_they_stand(parts: UrlParts, text: String)
    ensures
        parse_view(Ok(parts)) matches Ok(view) && view.scheme == parts.scheme@ && view.host
            == optional_text(parts.host),
        parse_view(Err(text)) == Err::<UrlView, Seq<char>>(text@),
        location_view(Ok(text)) == Ok::<Seq<char>, Seq<char>>(text@),
        location_view(Err(text)) == Err::<Seq<char>, Seq<char>>(text@),
{
}

/// Errors read as they stand.
pub proof fn law_outbound_errors_read_as_they_stand(value: OutboundError)
    ensures
        value matches OutboundError::HostNotAllowed(x) ==> value@ == OutboundErrorView::HostNotAllowed(x@),
        value matches OutboundError::UnsupportedScheme(x) ==> value@ == OutboundErrorView::UnsupportedScheme(x@),
        value matches OutboundError::Malformed(x) ==> value@ == OutboundErrorView::Malformed(x@),
{
}

} // verus!
