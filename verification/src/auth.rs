//! Validates Self-Issued ID Tokens and the access tokens nested in them.

use vstd::prelude::*;

use crate::bounded::{law_any_number_of_items, newest};
use crate::evidence::{
    claim_or_empty, claim_text, Claims, ClaimsView, DecodedToken, Step, StepView, TokenEvidence,
};
use crate::outbound::{did_refusal, location_view, outbound_message, OutboundPolicy};
use crate::replay::{law_one_jti_joins, law_replay_is_caught, remembered, ReplayGuard, MAX_SEEN_JTI};
use crate::sts::{
    is_access_token, is_id_token, presenter, AccessTokenClaims, IdTokenClaims, StsTokenRequest,
    TOKEN_TTL_SECS,
};
use crate::text::{concat3, contains_text, optional_text, same_text, texts};

verus! {

/// How far into the future `nbf` and `iat` may lie, to tolerate clock skew.
pub const NBF_LEEWAY_SECS: u64 = 30;

/// Why a caller is refused.
#[derive(Debug)]
pub enum AuthError {
    MissingToken,
    DidResolution(String),
    InvalidSignature(String),
    WrongAudience,
    Expired,
    IssuerSubjectMismatch,
    NotYetValid,
    IssuedInFuture,
    KeyNotAuthorizedForInvocation(String),
    TokenReplayed,
    UntrustedIssuer(String),
    NoTrustedIssuerConfigured,
    InvalidNestedToken(String),
    NestedTokenExpired,
    NestedTokenNotBoundToCaller,
    NestedTokenIssuerNotAuthoritative(String),
    OutboundDestinationNotAllowed(String),
}

/// What an [`AuthError`] holds.
pub enum AuthErrorView {
    MissingToken,
    DidResolution(Seq<char>),
    InvalidSignature(Seq<char>),
    WrongAudience,
    Expired,
    IssuerSubjectMismatch,
    NotYetValid,
    IssuedInFuture,
    KeyNotAuthorizedForInvocation(Seq<char>),
    TokenReplayed,
    UntrustedIssuer(Seq<char>),
    NoTrustedIssuerConfigured,
    InvalidNestedToken(Seq<char>),
    NestedTokenExpired,
    NestedTokenNotBoundToCaller,
    NestedTokenIssuerNotAuthoritative(Seq<char>),
    OutboundDestinationNotAllowed(Seq<char>),
}

impl View for AuthError {
    type V = AuthErrorView;

    open spec fn view(&self) -> AuthErrorView {
        match self {
            AuthError::MissingToken => AuthErrorView::MissingToken,
            AuthError::DidResolution(m) => AuthErrorView::DidResolution(m@),
            AuthError::InvalidSignature(m) => AuthErrorView::InvalidSignature(m@),
            AuthError::WrongAudience => AuthErrorView::WrongAudience,
            AuthError::Expired => AuthErrorView::Expired,
            AuthError::IssuerSubjectMismatch => AuthErrorView::IssuerSubjectMismatch,
            AuthError::NotYetValid => AuthErrorView::NotYetValid,
            AuthError::IssuedInFuture => AuthErrorView::IssuedInFuture,
            AuthError::KeyNotAuthorizedForInvocation(kid) =>
                AuthErrorView::KeyNotAuthorizedForInvocation(kid@),
            AuthError::TokenReplayed => AuthErrorView::TokenReplayed,
            AuthError::UntrustedIssuer(iss) => AuthErrorView::UntrustedIssuer(iss@),
            AuthError::NoTrustedIssuerConfigured => AuthErrorView::NoTrustedIssuerConfigured,
            AuthError::InvalidNestedToken(m) => AuthErrorView::InvalidNestedToken(m@),
            AuthError::NestedTokenExpired => AuthErrorView::NestedTokenExpired,
            AuthError::NestedTokenNotBoundToCaller => AuthErrorView::NestedTokenNotBoundToCaller,
            AuthError::NestedTokenIssuerNotAuthoritative(iss) =>
                AuthErrorView::NestedTokenIssuerNotAuthoritative(iss@),
            AuthError::OutboundDestinationNotAllowed(m) =>
                AuthErrorView::OutboundDestinationNotAllowed(m@),
        }
    }
}

/// The text of an [`AuthError`].
pub open spec fn auth_message(error: AuthErrorView) -> Seq<char> {
    match error {
        AuthErrorView::MissingToken => "missing or malformed Authorization: Bearer header"@,
        AuthErrorView::DidResolution(m) => "could not resolve caller DID: "@ + m,
        AuthErrorView::InvalidSignature(m) => "signature verification failed: "@ + m,
        AuthErrorView::WrongAudience => "token audience does not match this service's DID"@,
        AuthErrorView::Expired => "token has expired"@,
        AuthErrorView::IssuerSubjectMismatch =>
            "token sub does not match iss - a Self-Issued ID Token must be about its own issuer"@,
        AuthErrorView::NotYetValid => "token is not yet valid (nbf is in the future)"@,
        AuthErrorView::IssuedInFuture => "token iat (issued-at) is in the future"@,
        AuthErrorView::KeyNotAuthorizedForInvocation(kid) => "signing key '"@ + kid
            + "' is not listed under the caller's own capabilityInvocation verification relationship"@,
        AuthErrorView::TokenReplayed => "token jti has already been used (replay)"@,
        AuthErrorView::UntrustedIssuer(iss) => "issuer '"@ + iss
            + "' is not on this service's trusted-issuer allow-list"@,
        AuthErrorView::NoTrustedIssuerConfigured =>
            "no trusted issuer is configured on this service"@,
        AuthErrorView::InvalidNestedToken(m) => "nested access token is not valid: "@ + m,
        AuthErrorView::NestedTokenExpired => "nested access token has expired"@,
        AuthErrorView::NestedTokenNotBoundToCaller =>
            "nested access token is not bound to the party presenting it (aud does not match the outer envelope's own caller)"@,
        AuthErrorView::NestedTokenIssuerNotAuthoritative(iss) => "nested access token issuer '"@
            + iss + "' is not authoritative for this service's credentials"@,
        AuthErrorView::OutboundDestinationNotAllowed(m) =>
            "outbound destination is not allowed: "@ + m,
    }
}

impl AuthError {
    /// The error in words.
    pub fn message(&self) -> (res: String)
        ensures
            res@ == auth_message(self@),
    {
        match self {
            AuthError::MissingToken => String::from_str(
                "missing or malformed Authorization: Bearer header",
            ),
            AuthError::DidResolution(m) => String::from_str("could not resolve caller DID: ").concat(
                m.as_str(),
            ),
            AuthError::InvalidSignature(m) => String::from_str(
                "signature verification failed: ",
            ).concat(m.as_str()),
            AuthError::WrongAudience => String::from_str(
                "token audience does not match this service's DID",
            ),
            AuthError::Expired => String::from_str("token has expired"),
            AuthError::IssuerSubjectMismatch => String::from_str(
                "token sub does not match iss - a Self-Issued ID Token must be about its own issuer",
            ),
            AuthError::NotYetValid => String::from_str(
                "token is not yet valid (nbf is in the future)",
            ),
            AuthError::IssuedInFuture => String::from_str("token iat (issued-at) is in the future"),
            AuthError::KeyNotAuthorizedForInvocation(kid) => concat3(
                "signing key '",
                kid.as_str(),
                "' is not listed under the caller's own capabilityInvocation verification relationship",
            ),
            AuthError::TokenReplayed => String::from_str("token jti has already been used (replay)"),
            AuthError::UntrustedIssuer(iss) => concat3(
                "issuer '",
                iss.as_str(),
                "' is not on this service's trusted-issuer allow-list",
            ),
            AuthError::NoTrustedIssuerConfigured => String::from_str(
                "no trusted issuer is configured on this service",
            ),
            AuthError::InvalidNestedToken(m) => String::from_str(
                "nested access token is not valid: ",
            ).concat(m.as_str()),
            AuthError::NestedTokenExpired => String::from_str("nested access token has expired"),
            AuthError::NestedTokenNotBoundToCaller => String::from_str(
                "nested access token is not bound to the party presenting it (aud does not match the outer envelope's own caller)",
            ),
            AuthError::NestedTokenIssuerNotAuthoritative(iss) => concat3(
                "nested access token issuer '",
                iss.as_str(),
                "' is not authoritative for this service's credentials",
            ),
            AuthError::OutboundDestinationNotAllowed(m) => String::from_str(
                "outbound destination is not allowed: ",
            ).concat(m.as_str()),
        }
    }
}

/// What is decided of a token: what to find out next, or the outcome.
#[derive(Debug)]
pub enum TokenVerdict {
    Need(Step),
    Accept(Claims),
    Reject(AuthError),
}

/// What a [`TokenVerdict`] holds.
pub enum VerdictView {
    Need(StepView),
    Accept(ClaimsView),
    Reject(AuthErrorView),
}

impl View for TokenVerdict {
    type V = VerdictView;

    open spec fn view(&self) -> VerdictView {
        match self {
            TokenVerdict::Need(step) => VerdictView::Need(step@),
            TokenVerdict::Accept(claims) => VerdictView::Accept(claims@),
            TokenVerdict::Reject(error) => VerdictView::Reject(error@),
        }
    }
}

/// The token in an `Authorization` header: what follows `Bearer ` at its start.
pub open spec fn bearer_of(header: Option<Seq<char>>) -> Option<Seq<char>> {
    match header {
        Some(text) => if text.len() >= "Bearer "@.len() && text.take("Bearer "@.len() as int)
            == "Bearer "@ {
            Some(text.skip("Bearer "@.len() as int))
        } else {
            None
        },
        None => None,
    }
}

/// The token in an `Authorization` header.
pub fn bearer_token(header: &Option<String>) -> (res: Option<String>)
    ensures
        optional_text(res) == bearer_of(optional_text(*header)),
{
    match header {
        Some(text) => {
            proof {
                reveal_strlit("Bearer ");
            }
            let n: usize = text.as_str().unicode_len();
            if n < 7 {
                return None;
            }
            if same_text(text.as_str().substring_char(0, 7), "Bearer ") {
                let rest = text.as_str().substring_char(7, n);
                proof {
                    assert(rest@ =~= text@.skip(7));
                    assert(text@.take(7) =~= text@.subrange(0, 7));
                }
                Some(String::from_str(rest))
            } else {
                proof {
                    assert(text@.take(7) =~= text@.subrange(0, 7));
                }
                None
            }
        },
        None => None,
    }
}

/// Why the claims of an authentic token are refused, `None` where they are
/// accepted. `seen` are the `jti` values used before.
pub open spec fn claims_refusal(
    claims: ClaimsView,
    caller: Seq<char>,
    kid: Seq<char>,
    invocation: Seq<Seq<char>>,
    audience: Seq<char>,
    now: u64,
    seen: Seq<Seq<char>>,
) -> Option<AuthErrorView> {
    if !invocation.contains(kid) {
        Some(AuthErrorView::KeyNotAuthorizedForInvocation(kid))
    } else if claim_text(claims.sub) != caller {
        Some(AuthErrorView::IssuerSubjectMismatch)
    } else if claim_text(claims.aud) != audience {
        Some(AuthErrorView::WrongAudience)
    } else if (match claims.exp {
        Some(exp) => exp,
        None => 0,
    }) <= now {
        Some(AuthErrorView::Expired)
    } else if claims.nbf matches Some(nbf) && nbf > now + NBF_LEEWAY_SECS {
        Some(AuthErrorView::NotYetValid)
    } else if claims.iat matches Some(iat) && iat > now + NBF_LEEWAY_SECS {
        Some(AuthErrorView::IssuedInFuture)
    } else if claims.jti matches Some(jti) && seen.contains(jti) {
        Some(AuthErrorView::TokenReplayed)
    } else {
        None
    }
}

/// What is remembered once claims were accepted.
pub open spec fn seen_after(seen: Seq<Seq<char>>, claims: ClaimsView) -> Seq<Seq<char>> {
    match claims.jti {
        Some(jti) => remembered(seen, jti),
        None => seen,
    }
}

/// What is decided of a caller's token.
pub open spec fn bearer_verdict(
    header: Option<Seq<char>>,
    evidence: TokenEvidence,
    audience: Seq<char>,
    allowed: Set<Seq<char>>,
    now: u64,
    seen: Seq<Seq<char>>,
) -> VerdictView {
    match bearer_of(header) {
        None => VerdictView::Reject(AuthErrorView::MissingToken),
        Some(token) => match evidence.decoded {
            None => VerdictView::Need(StepView::Decode(token)),
            Some(Err(m)) => VerdictView::Reject(AuthErrorView::InvalidSignature(m@)),
            Some(Ok(decoded)) => match (decoded.claims@.iss, optional_text(decoded.kid)) {
                (None, _) => VerdictView::Reject(
                    AuthErrorView::InvalidSignature("token has no iss claim"@),
                ),
                (Some(_), None) => VerdictView::Reject(
                    AuthErrorView::InvalidSignature("token has no kid header"@),
                ),
                (Some(caller), Some(kid)) => match evidence.location {
                    None => VerdictView::Need(StepView::Locate(caller)),
                    Some(location) => match did_refusal(allowed, location_view(location)) {
                        Some(error) => VerdictView::Reject(
                            AuthErrorView::OutboundDestinationNotAllowed(outbound_message(error)),
                        ),
                        None => match (evidence.document, evidence.key, evidence.signature) {
                            (None, _, _) => VerdictView::Need(StepView::Resolve(caller)),
                            (Some(Err(m)), _, _) => VerdictView::Reject(
                                AuthErrorView::DidResolution(m@),
                            ),
                            (Some(Ok(_)), None, _) => VerdictView::Need(StepView::FindKey(kid)),
                            (Some(Ok(_)), Some(Err(m)), _) => VerdictView::Reject(
                                AuthErrorView::InvalidSignature(m@),
                            ),
                            (Some(Ok(_)), Some(Ok(_)), None) => VerdictView::Need(
                                StepView::CheckSignature,
                            ),
                            (Some(Ok(_)), Some(Ok(_)), Some(Err(m))) => VerdictView::Reject(
                                AuthErrorView::InvalidSignature(m@),
                            ),
                            (Some(Ok(keys)), Some(Ok(_)), Some(Ok(_))) => match claims_refusal(
                                decoded.claims@,
                                caller,
                                kid,
                                texts(keys.capability_invocation@),
                                audience,
                                now,
                                seen,
                            ) {
                                Some(error) => VerdictView::Reject(error),
                                None => VerdictView::Accept(decoded.claims@),
                            },
                        },
                    },
                },
            },
        },
    }
}

/// Decides on the claims of an authentic token, and remembers its `jti` where
/// they are accepted.
pub fn check_claims(
    claims: &Claims,
    caller: &str,
    kid: &str,
    invocation: &Vec<String>,
    audience: &str,
    now: u64,
    seen: &mut ReplayGuard,
) -> (res: Result<(), AuthError>)
    requires
        old(seen).wf(),
    ensures
        final(seen).wf(),
        res is Ok == claims_refusal(
            claims@,
            caller@,
            kid@,
            texts(invocation@),
            audience@,
            now,
            old(seen)@,
        ) is None,
        res matches Err(error) ==> claims_refusal(
            claims@,
            caller@,
            kid@,
            texts(invocation@),
            audience@,
            now,
            old(seen)@,
        ) == Some(error@),
        res is Ok ==> final(seen)@ == seen_after(old(seen)@, claims@),
        res is Err ==> *final(seen) == *old(seen),
{
    if !contains_text(invocation, kid) {
        return Err(AuthError::KeyNotAuthorizedForInvocation(String::from_str(kid)));
    }
    if !same_text(claim_or_empty(&claims.sub).as_str(), caller) {
        return Err(AuthError::IssuerSubjectMismatch);
    }
    if !same_text(claim_or_empty(&claims.aud).as_str(), audience) {
        return Err(AuthError::WrongAudience);
    }
    let exp: u64 = match claims.exp {
        Some(exp) => exp,
        None => 0,
    };
    if exp <= now {
        return Err(AuthError::Expired);
    }
    if let Some(nbf) = claims.nbf {
        if nbf > now && nbf - now > NBF_LEEWAY_SECS {
            return Err(AuthError::NotYetValid);
        }
    }
    if let Some(iat) = claims.iat {
        if iat > now && iat - now > NBF_LEEWAY_SECS {
            return Err(AuthError::IssuedInFuture);
        }
    }
    if let Some(jti) = &claims.jti {
        if !seen.record(jti.as_str()) {
            return Err(AuthError::TokenReplayed);
        }
    }
    Ok(())
}

/// Validates a caller's Self-Issued ID Token: who it is from, that it may be
/// looked up, that its signature and signing key hold, and that its claims are
/// in order. Its `jti` is remembered once it is accepted.
pub fn verify_bearer_token(
    header: &Option<String>,
    evidence: &TokenEvidence,
    expected_audience: &str,
    outbound: &OutboundPolicy,
    now: u64,
    seen_jti: &mut ReplayGuard,
) -> (res: TokenVerdict)
    requires
        old(seen_jti).wf(),
    ensures
        final(seen_jti).wf(),
        res@ == bearer_verdict(
            optional_text(*header),
            *evidence,
            expected_audience@,
            outbound@,
            now,
            old(seen_jti)@,
        ),
        res matches TokenVerdict::Accept(claims) ==> final(seen_jti)@ == seen_after(
            old(seen_jti)@,
            claims@,
        ),
        !(res is Accept) ==> *final(seen_jti) == *old(seen_jti),
{
    let token = match bearer_token(header) {
        Some(token) => token,
        None => {
            return TokenVerdict::Reject(AuthError::MissingToken);
        },
    };
    let decoded = match &evidence.decoded {
        None => {
            return TokenVerdict::Need(Step::Decode(token));
        },
        Some(Err(m)) => {
            return TokenVerdict::Reject(AuthError::InvalidSignature(m.clone()));
        },
        Some(Ok(decoded)) => decoded,
    };
    let caller = match &decoded.claims.iss {
        Some(caller) => caller,
        None => {
            return TokenVerdict::Reject(
                AuthError::InvalidSignature(String::from_str("token has no iss claim")),
            );
        },
    };
    let kid = match &decoded.kid {
        Some(kid) => kid,
        None => {
            return TokenVerdict::Reject(
                AuthError::InvalidSignature(String::from_str("token has no kid header")),
            );
        },
    };
    let location = match &evidence.location {
        Some(location) => location,
        None => {
            return TokenVerdict::Need(Step::Locate(caller.clone()));
        },
    };
    if let Err(error) = outbound.check_did(location) {
        return TokenVerdict::Reject(AuthError::OutboundDestinationNotAllowed(error.message()));
    }
    let keys = match &evidence.document {
        None => {
            return TokenVerdict::Need(Step::Resolve(caller.clone()));
        },
        Some(Err(m)) => {
            return TokenVerdict::Reject(AuthError::DidResolution(m.clone()));
        },
        Some(Ok(keys)) => keys,
    };
    match &evidence.key {
        None => {
            return TokenVerdict::Need(Step::FindKey(kid.clone()));
        },
        Some(Err(m)) => {
            return TokenVerdict::Reject(AuthError::InvalidSignature(m.clone()));
        },
        Some(Ok(_)) => {},
    }
    match &evidence.signature {
        None => {
            return TokenVerdict::Need(Step::CheckSignature);
        },
        Some(Err(m)) => {
            return TokenVerdict::Reject(AuthError::InvalidSignature(m.clone()));
        },
        Some(Ok(_)) => {},
    }
    match check_claims(
        &decoded.claims,
        caller.as_str(),
        kid.as_str(),
        &keys.capability_invocation,
        expected_audience,
        now,
        seen_jti,
    ) {
        Ok(()) => TokenVerdict::Accept(decoded.claims.clone()),
        Err(error) => TokenVerdict::Reject(error),
    }
}

/// Why an issuer is not trusted, `None` where it is.
pub open spec fn trust_refusal(claims: ClaimsView, trusted: Seq<Seq<char>>) -> Option<
    AuthErrorView,
> {
    if trusted.len() == 0 {
        Some(AuthErrorView::NoTrustedIssuerConfigured)
    } else if trusted.contains(claim_text(claims.iss)) {
        None
    } else {
        Some(AuthErrorView::UntrustedIssuer(claim_text(claims.iss)))
    }
}

/// Whether the service has reason to trust the issuer of valid claims: its DID
/// must be on the allow-list. An empty allow-list trusts nobody.
pub fn check_trusted_issuer(claims: &Claims, trusted_issuer_dids: &Vec<String>) -> (res: Result<
    (),
    AuthError,
>)
    ensures
        res is Ok == trust_refusal(claims@, texts(trusted_issuer_dids@)) is None,
        res matches Err(error) ==> trust_refusal(claims@, texts(trusted_issuer_dids@)) == Some(
            error@,
        ),
{
    if trusted_issuer_dids.len() == 0 {
        return Err(AuthError::NoTrustedIssuerConfigured);
    }
    let iss = claim_or_empty(&claims.iss);
    if contains_text(trusted_issuer_dids, iss.as_str()) {
        Ok(())
    } else {
        Err(AuthError::UntrustedIssuer(iss))
    }
}

/// What is decided of a nested access token. `presenter` is the caller that
/// presents it, `authority` the only issuer that may grant access.
pub open spec fn nested_verdict(
    token: Seq<char>,
    evidence: TokenEvidence,
    presenter: Seq<char>,
    authority: Seq<char>,
    allowed: Set<Seq<char>>,
    now: u64,
) -> VerdictView {
    match evidence.decoded {
        None => VerdictView::Need(StepView::Decode(token)),
        Some(Err(m)) => VerdictView::Reject(AuthErrorView::InvalidNestedToken(m@)),
        Some(Ok(decoded)) => match (decoded.claims@.iss, optional_text(decoded.kid)) {
            (None, _) => VerdictView::Reject(
                AuthErrorView::InvalidNestedToken("nested token has no iss claim"@),
            ),
            (Some(_), None) => VerdictView::Reject(
                AuthErrorView::InvalidNestedToken("nested token has no kid header"@),
            ),
            (Some(issuer), Some(kid)) => if issuer != authority {
                VerdictView::Reject(AuthErrorView::NestedTokenIssuerNotAuthoritative(issuer))
            } else {
                match evidence.location {
                    None => VerdictView::Need(StepView::Locate(issuer)),
                    Some(location) => match did_refusal(allowed, location_view(location)) {
                        Some(error) => VerdictView::Reject(
                            AuthErrorView::OutboundDestinationNotAllowed(outbound_message(error)),
                        ),
                        None => match (evidence.document, evidence.key, evidence.signature) {
                            (None, _, _) => VerdictView::Need(StepView::Resolve(issuer)),
                            (Some(Err(m)), _, _) => VerdictView::Reject(
                                AuthErrorView::DidResolution(m@),
                            ),
                            (Some(Ok(_)), None, _) => VerdictView::Need(StepView::FindKey(kid)),
                            (Some(Ok(_)), Some(Err(m)), _) => VerdictView::Reject(
                                AuthErrorView::InvalidNestedToken(m@),
                            ),
                            (Some(Ok(_)), Some(Ok(_)), None) => VerdictView::Need(
                                StepView::CheckSignature,
                            ),
                            (Some(Ok(_)), Some(Ok(_)), Some(Err(m))) => VerdictView::Reject(
                                AuthErrorView::InvalidNestedToken(m@),
                            ),
                            (Some(Ok(_)), Some(Ok(_)), Some(Ok(_))) => if (
                            match decoded.claims@.exp {
                                Some(exp) => exp,
                                None => 0,
                            }) <= now {
                                VerdictView::Reject(AuthErrorView::NestedTokenExpired)
                            } else if claim_text(decoded.claims@.aud) != presenter {
                                VerdictView::Reject(AuthErrorView::NestedTokenNotBoundToCaller)
                            } else {
                                VerdictView::Accept(decoded.claims@)
                            },
                        },
                    },
                }
            },
        },
    }
}

/// Validates the access token nested in a caller's token: it must be issued by
/// the one party that may grant access to this service's credentials, be
/// authentic and unexpired, and be bound to the caller that presents it.
pub fn verify_nested_access_token(
    nested_token: &str,
    evidence: &TokenEvidence,
    outer_sub: &str,
    authoritative_issuer: &str,
    outbound: &OutboundPolicy,
    now: u64,
) -> (res: TokenVerdict)
    ensures
        res@ == nested_verdict(
            nested_token@,
            *evidence,
            outer_sub@,
            authoritative_issuer@,
            outbound@,
            now,
        ),
{
    let decoded = match &evidence.decoded {
        None => {
            return TokenVerdict::Need(Step::Decode(String::from_str(nested_token)));
        },
        Some(Err(m)) => {
            return TokenVerdict::Reject(AuthError::InvalidNestedToken(m.clone()));
        },
        Some(Ok(decoded)) => decoded,
    };
    let issuer = match &decoded.claims.iss {
        Some(issuer) => issuer,
        None => {
            return TokenVerdict::Reject(
                AuthError::InvalidNestedToken(String::from_str("nested token has no iss claim")),
            );
        },
    };
    let kid = match &decoded.kid {
        Some(kid) => kid,
        None => {
            return TokenVerdict::Reject(
                AuthError::InvalidNestedToken(String::from_str("nested token has no kid header")),
            );
        },
    };
    if !same_text(issuer.as_str(), authoritative_issuer) {
        return TokenVerdict::Reject(AuthError::NestedTokenIssuerNotAuthoritative(issuer.clone()));
    }
    let location = match &evidence.location {
        Some(location) => location,
        None => {
            return TokenVerdict::Need(Step::Locate(issuer.clone()));
        },
    };
    if let Err(error) = outbound.check_did(location) {
        return TokenVerdict::Reject(AuthError::OutboundDestinationNotAllowed(error.message()));
    }
    match &evidence.document {
        None => {
            return TokenVerdict::Need(Step::Resolve(issuer.clone()));
        },
        Some(Err(m)) => {
            return TokenVerdict::Reject(AuthError::DidResolution(m.clone()));
        },
        Some(Ok(_)) => {},
    }
    match &evidence.key {
        None => {
            return TokenVerdict::Need(Step::FindKey(kid.clone()));
        },
        Some(Err(m)) => {
            return TokenVerdict::Reject(AuthError::InvalidNestedToken(m.clone()));
        },
        Some(Ok(_)) => {},
    }
    match &evidence.signature {
        None => {
            return TokenVerdict::Need(Step::CheckSignature);
        },
        Some(Err(m)) => {
            return TokenVerdict::Reject(AuthError::InvalidNestedToken(m.clone()));
        },
        Some(Ok(_)) => {},
    }
    let exp: u64 = match decoded.claims.exp {
        Some(exp) => exp,
        None => 0,
    };
    if exp <= now {
        return TokenVerdict::Reject(AuthError::NestedTokenExpired);
    }
    if !same_text(claim_or_empty(&decoded.claims.aud).as_str(), outer_sub) {
        return TokenVerdict::Reject(AuthError::NestedTokenNotBoundToCaller);
    }
    TokenVerdict::Accept(decoded.claims.clone())
}

/// A caller's DID is never looked up before the outbound policy has passed the
/// place where it resolves.
pub proof fn law_no_lookup_without_permission(
    header: Option<Seq<char>>,
    evidence: TokenEvidence,
    audience: Seq<char>,
    allowed: Set<Seq<char>>,
    now: u64,
    seen: Seq<Seq<char>>,
)
    ensures
        bearer_verdict(header, evidence, audience, allowed, now, seen) matches VerdictView::Need(
            StepView::Resolve(did),
        ) ==> {
            &&& evidence.location matches Some(location) && did_refusal(
                allowed,
                location_view(location),
            ) is None
            &&& evidence.decoded matches Some(Ok(decoded)) && decoded.claims@.iss == Some(did)
        },
{
}

/// An accepted token is authentic, was signed with a key that its issuer lists
/// for invocation, is about its own issuer, is addressed to this service, is
/// within its validity, and was not used before.
pub proof fn law_accepted_token_is_in_order(
    header: Option<Seq<char>>,
    evidence: TokenEvidence,
    audience: Seq<char>,
    allowed: Set<Seq<char>>,
    now: u64,
    seen: Seq<Seq<char>>,
)
    ensures
        bearer_verdict(header, evidence, audience, allowed, now, seen) matches VerdictView::Accept(
            claims,
        ) ==> {
            &&& bearer_of(header) is Some
            &&& evidence.signature matches Some(Ok(_))
            &&& evidence.key matches Some(Ok(_))
            &&& evidence.decoded matches Some(Ok(decoded)) && evidence.document matches Some(
                Ok(keys),
            ) && (optional_text(decoded.kid) matches Some(kid) && texts(
                keys.capability_invocation@,
            ).contains(kid))
            &&& claims.iss == Some(claim_text(claims.sub))
            &&& claim_text(claims.aud) == audience
            &&& claims.exp matches Some(exp) && exp > now
            &&& claims.nbf matches Some(nbf) ==> nbf <= now + NBF_LEEWAY_SECS
            &&& claims.iat matches Some(iat) ==> iat <= now + NBF_LEEWAY_SECS
            &&& claims.jti matches Some(jti) ==> !seen.contains(jti)
        },
{
}

/// A token that carries a `jti` is accepted at most once while it is remembered:
/// presented again before it expires, it is refused as a replay.
pub proof fn law_accepted_token_is_refused_again(
    header: Option<Seq<char>>,
    evidence: TokenEvidence,
    audience: Seq<char>,
    allowed: Set<Seq<char>>,
    now: u64,
    seen: Seq<Seq<char>>,
    claims: ClaimsView,
    later: u64,
)
    requires
        bearer_verdict(header, evidence, audience, allowed, now, seen) == VerdictView::Accept(
            claims,
        ),
        claims.jti is Some,
        now <= later,
        claims.exp matches Some(exp) && later < exp,
    ensures
        seen_after(seen, claims).contains(claims.jti->0),
        bearer_verdict(header, evidence, audience, allowed, later, seen_after(seen, claims))
            == VerdictView::Reject(AuthErrorView::TokenReplayed),
{
    law_replay_is_caught(seen, claims.jti->0);
}

/// However many tokens with a `jti` are accepted, one after the other, the newest
/// of their `jti` values are remembered, each once, and never more than the
/// guard's capacity; and the token accepted last is refused as a replay when it is
/// presented again before it expires. `seen` is what was remembered before the
/// first token and after each.
pub proof fn law_any_number_of_tokens(
    headers: Seq<Option<Seq<char>>>,
    evidence: Seq<TokenEvidence>,
    audience: Seq<char>,
    allowed: Set<Seq<char>>,
    times: Seq<u64>,
    claims: Seq<ClaimsView>,
    seen: Seq<Seq<Seq<char>>>,
    later: u64,
)
    requires
        claims.len() > 0,
        headers.len() == claims.len(),
        evidence.len() == claims.len(),
        times.len() == claims.len(),
        seen.len() == claims.len() + 1,
        seen[0].len() <= MAX_SEEN_JTI,
        forall|k: int|
            0 <= k < claims.len() ==> {
                &&& bearer_verdict(headers[k], evidence[k], audience, allowed, times[k], seen[k])
                    == VerdictView::Accept(#[trigger] claims[k])
                &&& claims[k].jti is Some
                &&& seen[k + 1] == seen_after(seen[k], claims[k])
            },
        times.last() <= later,
        claims.last().exp matches Some(exp) && later < exp,
    ensures
        seen.last() == newest(
            seen[0] + claims.map_values(|c: ClaimsView| c.jti->0),
            MAX_SEEN_JTI as nat,
        ),
        seen.last().len() <= MAX_SEEN_JTI,
        seen[0].len() + claims.len() <= MAX_SEEN_JTI ==> seen.last().len() == seen[0].len()
            + claims.len(),
        bearer_verdict(headers.last(), evidence.last(), audience, allowed, later, seen.last())
            == VerdictView::Reject(AuthErrorView::TokenReplayed),
{
    let jtis = claims.map_values(|c: ClaimsView| c.jti->0);
    assert forall|k: int| 0 <= k < jtis.len() implies seen[k + 1] == newest(
        seen[k].push(#[trigger] jtis[k]),
        MAX_SEEN_JTI as nat,
    ) by {
        assert(jtis[k] == claims[k].jti->0);
        law_accepted_token_is_in_order(
            headers[k],
            evidence[k],
            audience,
            allowed,
            times[k],
            seen[k],
        );
    }
    law_any_number_of_items(seen, jtis, MAX_SEEN_JTI as nat);
    let n = claims.len() - 1;
    assert(claims[n] == claims.last());
    law_accepted_token_is_refused_again(
        headers[n],
        evidence[n],
        audience,
        allowed,
        times[n],
        seen[n],
        claims[n],
        later,
    );
}

/// A nested token of an issuer without authority is refused once it is decoded,
/// whatever else is known: its issuer's DID is not even looked up.
pub proof fn law_foreign_grant_is_refused_unseen(
    token: Seq<char>,
    evidence: TokenEvidence,
    presenter: Seq<char>,
    authority: Seq<char>,
    allowed: Set<Seq<char>>,
    now: u64,
)
    requires
        evidence.decoded matches Some(Ok(decoded)) && decoded.claims@.iss != Some(authority),
    ensures
        nested_verdict(token, evidence, presenter, authority, allowed, now) is Reject,
{
}

/// A nested token is accepted only from the caller it is bound to.
pub proof fn law_forwarded_grant_is_refused(
    token: Seq<char>,
    evidence: TokenEvidence,
    presenter: Seq<char>,
    authority: Seq<char>,
    allowed: Set<Seq<char>>,
    now: u64,
)
    ensures
        nested_verdict(
            token,
            evidence,
            presenter,
            authority,
            allowed,
            now,
        ) matches VerdictView::Accept(claims) ==> claim_text(claims.aud) == presenter && claims.iss
            == Some(authority) && (claims.exp matches Some(exp) && exp > now),
{
}

/// With an empty allow-list no issuer is trusted; otherwise exactly the listed
/// ones are.
pub proof fn law_only_listed_issuers_are_trusted(claims: ClaimsView, trusted: Seq<Seq<char>>)
    ensures
        trust_refusal(claims, trusted) is None <==> trusted.contains(claim_text(claims.iss)),
{
}

/// Whether a token was proven authentic: its issuer's DID may be looked up, its
/// document was found, and the signature holds under a key in it.
pub open spec fn is_authentic(evidence: TokenEvidence, allowed: Set<Seq<char>>) -> bool {
    &&& evidence.location matches Some(location) && did_refusal(
        allowed,
        location_view(location),
    ) is None
    &&& evidence.document matches Some(Ok(_))
    &&& evidence.key matches Some(Ok(_))
    &&& evidence.signature matches Some(Ok(_))
}

/// The claims that a Self-Issued ID Token carries.
pub open spec fn id_claims(id: IdTokenClaims) -> ClaimsView {
    ClaimsView {
        iss: Some(id.iss@),
        sub: Some(id.sub@),
        aud: Some(id.aud@),
        exp: Some(id.exp),
        nbf: Some(id.nbf),
        iat: Some(id.iat),
        jti: Some(id.jti@),
        token: optional_text(id.token),
        scope: None,
    }
}

/// What decoding an ID token yields, signed with a key that its issuer lists for
/// invocation.
pub open spec fn decodes_to_id(evidence: TokenEvidence, id: IdTokenClaims) -> bool {
    &&& evidence.decoded matches Some(Ok(decoded))
    &&& decoded.claims@ == id_claims(id)
    &&& evidence.document matches Some(Ok(keys))
    &&& optional_text(decoded.kid) matches Some(kid)
    &&& texts(keys.capability_invocation@).contains(kid)
}

/// What decoding the access token that answers a token request yields.
pub open spec fn decodes_to_grant(evidence: TokenEvidence, grant: AccessTokenClaims) -> bool {
    evidence.decoded matches Some(Ok(decoded)) && decoded.kid is Some && decoded.claims@.iss == Some(
        grant.iss@,
    ) && decoded.claims@.aud == Some(grant.aud@) && decoded.claims@.exp == Some(grant.exp)
        && decoded.claims@.scope == Some(grant.scope@)
}

/// The service's own STS identifies its party to whoever a request is addressed
/// to: the ID token that answers it is accepted there once, until it expires.
pub proof fn law_own_id_token_is_accepted(
    header: Option<Seq<char>>,
    id: IdTokenClaims,
    signer: Seq<char>,
    req: StsTokenRequest,
    issued: u64,
    evidence: TokenEvidence,
    allowed: Set<Seq<char>>,
    now: u64,
    seen: Seq<Seq<char>>,
)
    requires
        bearer_of(header) is Some,
        is_id_token(id, signer, req, issued),
        decodes_to_id(evidence, id),
        is_authentic(evidence, allowed),
        issued <= now + NBF_LEEWAY_SECS,
        now < issued + TOKEN_TTL_SECS,
        !seen.contains(id.jti@),
    ensures
        bearer_verdict(header, evidence, req.audience@, allowed, now, seen) == VerdictView::Accept(
            id_claims(id),
        ),
{
}

/// The service's own STS grants what the service's own check accepts: an access
/// token that answers a request passes, until it expires, when the party it is
/// for presents it. That is the STS party where the request is addressed to the
/// service itself, and else the party it is addressed to.
pub proof fn law_own_grant_is_accepted(
    token: Seq<char>,
    grant: AccessTokenClaims,
    signer: Seq<char>,
    req: StsTokenRequest,
    issued: u64,
    evidence: TokenEvidence,
    allowed: Set<Seq<char>>,
    now: u64,
)
    requires
        is_access_token(grant, signer, req, issued),
        decodes_to_grant(evidence, grant),
        is_authentic(evidence, allowed),
        now < issued + TOKEN_TTL_SECS,
    ensures
        nested_verdict(token, evidence, presenter(signer, req), signer, allowed, now) is Accept,
{
}

/// A token is presented as `Bearer `, with one space, and the token, and in no
/// other way.
pub proof fn law_tokens_follow_the_word_bearer(token: Seq<char>, header: Seq<char>)
    ensures
        bearer_of(None) is None,
        bearer_of(Some("Bearer "@ + token)) == Some(token),
        bearer_of(Some(header)) matches Some(t) ==> header == "Bearer "@ + t,
{
    let n = "Bearer "@.len() as int;
    assert(("Bearer "@ + token).take(n) =~= "Bearer "@);
    assert(("Bearer "@ + token).skip(n) =~= token);
    if bearer_of(Some(header)) is Some {
        assert(header =~= header.take(n) + header.skip(n));
    }
}

/// The claims of an authentic token are accepted exactly where its key is listed
/// for invocation, it is about its own issuer, it is addressed to this service, it
/// has an end that is still to come, it neither begins nor was issued more than
/// thirty seconds from now, if it says when, and its `jti`, if it has one, was not
/// used before. Each failure has its reason, and the first that holds is given.
pub proof fn law_claims_are_accepted_exactly(
    claims: ClaimsView,
    caller: Seq<char>,
    kid: Seq<char>,
    invocation: Seq<Seq<char>>,
    audience: Seq<char>,
    now: u64,
    seen: Seq<Seq<char>>,
)
    ensures
        ({
            let refusal = claims_refusal(claims, caller, kid, invocation, audience, now, seen);
            let listed = invocation.contains(kid);
            let about = claims.sub == Some(caller) || (claims.sub is None && caller.len() == 0);
            let addressed = claims.aud == Some(audience) || (claims.aud is None && audience.len()
                == 0);
            let live = claims.exp is Some && claims.exp->0 > now;
            let begun = claims.nbf is None || claims.nbf->0 <= now + 30;
            let issued = claims.iat is None || claims.iat->0 <= now + 30;
            let unused = claims.jti is None || !seen.contains(claims.jti->0);
            &&& refusal is None <==> listed && about && addressed && live && begun && issued
                && unused
            &&& !listed ==> refusal == Some(AuthErrorView::KeyNotAuthorizedForInvocation(kid))
            &&& listed && !about ==> refusal == Some(AuthErrorView::IssuerSubjectMismatch)
            &&& listed && about && !addressed ==> refusal == Some(AuthErrorView::WrongAudience)
            &&& listed && about && addressed && !live ==> refusal == Some(AuthErrorView::Expired)
            &&& listed && about && addressed && live && !begun ==> refusal == Some(
                AuthErrorView::NotYetValid,
            )
            &&& listed && about && addressed && live && begun && !issued ==> refusal == Some(
                AuthErrorView::IssuedInFuture,
            )
            &&& listed && about && addressed && live && begun && issued && !unused ==> refusal
                == Some(AuthErrorView::TokenReplayed)
        }),
{
    assert(claim_text(claims.sub) == caller <==> (claims.sub == Some(caller) || (claims.sub is None
        && caller.len() == 0))) by {
        if claims.sub is None && caller.len() == 0 {
            assert(claim_text(claims.sub) =~= caller);
        }
    }
    assert(claim_text(claims.aud) == audience <==> (claims.aud == Some(audience) || (
    claims.aud is None && audience.len() == 0))) by {
        if claims.aud is None && audience.len() == 0 {
            assert(claim_text(claims.aud) =~= audience);
        }
    }
}

/// What is decided of a token that was decoded to claims with an issuer and a key
/// id: each thing is found out in its turn, and only once the outbound policy
/// passed the issuer's location; what fails refuses the token; and once all holds
/// the claims decide, whatever else they say.
pub proof fn law_decoded_token_is_decided_in_order(
    header: Option<Seq<char>>,
    evidence: TokenEvidence,
    audience: Seq<char>,
    allowed: Set<Seq<char>>,
    now: u64,
    seen: Seq<Seq<char>>,
    decoded: DecodedToken,
    caller: Seq<char>,
    kid: Seq<char>,
    location: Result<String, String>,
)
    requires
        bearer_of(header) is Some,
        evidence.decoded == Some(Ok::<DecodedToken, String>(decoded)),
        decoded.claims@.iss == Some(caller),
        optional_text(decoded.kid) == Some(kid),
    ensures
        ({
            let verdict = bearer_verdict(header, evidence, audience, allowed, now, seen);
            let located = evidence.location == Some(location);
            let refused = did_refusal(allowed, location_view(location));
            let passed = located && refused is None;
            &&& evidence.location is None ==> verdict == VerdictView::Need(StepView::Locate(caller))
            &&& located && refused is Some ==> verdict == VerdictView::Reject(
                AuthErrorView::OutboundDestinationNotAllowed(outbound_message(refused->0)),
            )
            &&& passed && evidence.document is None ==> verdict == VerdictView::Need(
                StepView::Resolve(caller),
            )
            &&& passed ==> (evidence.document matches Some(Err(m)) ==> verdict
                == VerdictView::Reject(AuthErrorView::DidResolution(m@)))
            &&& passed ==> (evidence.document matches Some(Ok(_)) ==> {
                &&& evidence.key is None ==> verdict == VerdictView::Need(StepView::FindKey(kid))
                &&& evidence.key matches Some(Err(m)) ==> verdict == VerdictView::Reject(
                    AuthErrorView::InvalidSignature(m@),
                )
            })
            &&& passed ==> (evidence.document matches Some(Ok(keys)) ==> (
            evidence.key matches Some(Ok(_)) ==> {
                &&& evidence.signature is None ==> verdict == VerdictView::Need(
                    StepView::CheckSignature,
                )
                &&& evidence.signature matches Some(Err(m)) ==> verdict == VerdictView::Reject(
                    AuthErrorView::InvalidSignature(m@),
                )
                &&& evidence.signature matches Some(Ok(_)) ==> {
                    let refusal = claims_refusal(
                        decoded.claims@,
                        caller,
                        kid,
                        texts(keys.capability_invocation@),
                        audience,
                        now,
                        seen,
                    );
                    &&& refusal is None ==> verdict == VerdictView::Accept(decoded.claims@)
                    &&& refusal matches Some(error) ==> verdict == VerdictView::Reject(error)
                }
            }))
        }),
{
}

/// What is decided before a token is decoded to claims with an issuer and a key
/// id: without a token, or with one that is not such, the caller is refused, and a
/// token is decoded first of all.
pub proof fn law_undecoded_token_is_decoded_first(
    header: Option<Seq<char>>,
    evidence: TokenEvidence,
    audience: Seq<char>,
    allowed: Set<Seq<char>>,
    now: u64,
    seen: Seq<Seq<char>>,
    token: Seq<char>,
)
    ensures
        ({
            let verdict = bearer_verdict(header, evidence, audience, allowed, now, seen);
            let presented = header == Some("Bearer "@ + token);
            &&& bearer_of(header) is None ==> verdict == VerdictView::Reject(
                AuthErrorView::MissingToken,
            )
            &&& presented && evidence.decoded is None ==> verdict == VerdictView::Need(
                StepView::Decode(token),
            )
            &&& presented ==> (evidence.decoded matches Some(Err(m)) ==> verdict
                == VerdictView::Reject(AuthErrorView::InvalidSignature(m@)))
            &&& presented ==> (evidence.decoded matches Some(Ok(decoded)) ==> {
                &&& decoded.claims.iss is None ==> verdict == VerdictView::Reject(
                    AuthErrorView::InvalidSignature("token has no iss claim"@),
                )
                &&& decoded.claims.iss is Some && decoded.kid is None ==> verdict
                    == VerdictView::Reject(
                    AuthErrorView::InvalidSignature("token has no kid header"@),
                )
            })
        }),
{
    law_tokens_follow_the_word_bearer(token, token);
}

/// What is decided of an access token that was decoded to claims with an issuer
/// and a key id: one of another issuer than the authority is refused at once; then
/// each thing is found out in its turn; and once all holds it is accepted exactly
/// where it has an end that is still to come and is bound to whoever presents it,
/// whatever else it says.
pub proof fn law_decoded_grant_is_decided_in_order(
    token: Seq<char>,
    evidence: TokenEvidence,
    presenter: Seq<char>,
    authority: Seq<char>,
    allowed: Set<Seq<char>>,
    now: u64,
    decoded: DecodedToken,
    issuer: Seq<char>,
    kid: Seq<char>,
    location: Result<String, String>,
)
    requires
        evidence.decoded == Some(Ok::<DecodedToken, String>(decoded)),
        decoded.claims@.iss == Some(issuer),
        optional_text(decoded.kid) == Some(kid),
    ensures
        ({
            let verdict = nested_verdict(token, evidence, presenter, authority, allowed, now);
            let own = issuer == authority;
            let located = own && evidence.location == Some(location);
            let refused = did_refusal(allowed, location_view(location));
            let passed = located && refused is None;
            let resolved = passed && (evidence.document matches Some(Ok(_)));
            let found = resolved && (evidence.key matches Some(Ok(_)));
            let signed = found && (evidence.signature matches Some(Ok(_)));
            let live = decoded.claims@.exp is Some && decoded.claims@.exp->0 > now;
            let bound = decoded.claims@.aud == Some(presenter) || (decoded.claims@.aud is None
                && presenter.len() == 0);
            &&& !own ==> verdict == VerdictView::Reject(
                AuthErrorView::NestedTokenIssuerNotAuthoritative(issuer),
            )
            &&& own && evidence.location is None ==> verdict == VerdictView::Need(
                StepView::Locate(issuer),
            )
            &&& located && refused is Some ==> verdict == VerdictView::Reject(
                AuthErrorView::OutboundDestinationNotAllowed(outbound_message(refused->0)),
            )
            &&& passed && evidence.document is None ==> verdict == VerdictView::Need(
                StepView::Resolve(issuer),
            )
            &&& passed ==> (evidence.document matches Some(Err(m)) ==> verdict
                == VerdictView::Reject(AuthErrorView::DidResolution(m@)))
            &&& resolved && evidence.key is None ==> verdict == VerdictView::Need(
                StepView::FindKey(kid),
            )
            &&& resolved ==> (evidence.key matches Some(Err(m)) ==> verdict == VerdictView::Reject(
                AuthErrorView::InvalidNestedToken(m@),
            ))
            &&& found && evidence.signature is None ==> verdict == VerdictView::Need(
                StepView::CheckSignature,
            )
            &&& found ==> (evidence.signature matches Some(Err(m)) ==> verdict
                == VerdictView::Reject(AuthErrorView::InvalidNestedToken(m@)))
            &&& signed && !live ==> verdict == VerdictView::Reject(
                AuthErrorView::NestedTokenExpired,
            )
            &&& signed && live && !bound ==> verdict == VerdictView::Reject(
                AuthErrorView::NestedTokenNotBoundToCaller,
            )
            &&& signed && live && bound ==> verdict == VerdictView::Accept(decoded.claims@)
            &&& verdict is Accept && evidence.location == Some(location) ==> signed && live && bound
            &&& verdict is Accept ==> own && evidence.location is Some
        }),
{
    if decoded.claims@.aud is None && presenter.len() == 0 {
        assert(claim_text(decoded.claims@.aud) =~= presenter);
    }
}

/// What is decided before an access token is decoded to claims with an issuer and
/// a key id.
pub proof fn law_undecoded_grant_is_decoded_first(
    token: Seq<char>,
    evidence: TokenEvidence,
    presenter: Seq<char>,
    authority: Seq<char>,
    allowed: Set<Seq<char>>,
    now: u64,
)
    ensures
        ({
            let verdict = nested_verdict(token, evidence, presenter, authority, allowed, now);
            &&& evidence.decoded is None ==> verdict == VerdictView::Need(StepView::Decode(token))
            &&& evidence.decoded matches Some(Err(m)) ==> verdict == VerdictView::Reject(
                AuthErrorView::InvalidNestedToken(m@),
            )
            &&& evidence.decoded matches Some(Ok(decoded)) ==> {
                &&& decoded.claims.iss is None ==> verdict == VerdictView::Reject(
                    AuthErrorView::InvalidNestedToken("nested token has no iss claim"@),
                )
                &&& decoded.claims.iss is Some && decoded.kid is None ==> verdict
                    == VerdictView::Reject(
                    AuthErrorView::InvalidNestedToken("nested token has no kid header"@),
                )
            }
        }),
{
}

/// Why an issuer is not trusted: nobody is, where none is configured; else it is
/// not one of those that are.
pub proof fn law_distrust_has_its_reason(claims: ClaimsView, trusted: Seq<Seq<char>>)
    ensures
        trusted.len() == 0 ==> trust_refusal(claims, trusted) == Some(
            AuthErrorView::NoTrustedIssuerConfigured,
        ),
        claims.iss matches Some(iss) ==> {
            &&& trusted.contains(iss) ==> trust_refusal(claims, trusted) is None
            &&& trusted.len() > 0 && !trusted.contains(iss) ==> trust_refusal(claims, trusted)
                == Some(AuthErrorView::UntrustedIssuer(iss))
        },
        claims.iss is None && trusted.len() > 0 && !trusted.contains(Seq::empty())
            ==> trust_refusal(claims, trusted) == Some(
            AuthErrorView::UntrustedIssuer(Seq::empty()),
        ),
{
}

/// What is remembered of an accepted token: its `jti`, where it has one.
pub proof fn law_accepted_jti_is_remembered(seen: Seq<Seq<char>>, claims: ClaimsView)
    requires
        seen.len() <= 4096,
    ensures
        claims.jti is None ==> seen_after(seen, claims) == seen,
        claims.jti matches Some(jti) ==> {
            &&& seen.contains(jti) ==> seen_after(seen, claims) == seen
            &&& !seen.contains(jti) && seen.len() < 4096 ==> seen_after(seen, claims) == seen.push(
                jti,
            )
            &&& !seen.contains(jti) && seen.len() == 4096 ==> seen_after(seen, claims)
                == seen.drop_first().push(jti)
        },
{
    if let Some(jti) = claims.jti {
        law_one_jti_joins(seen, jti);
    }
}

/// What each refusal of a caller says, and what it is about where it is about
/// something.
pub proof fn law_auth_refusals_say_why(detail: Seq<char>)
    ensures
        auth_message(AuthErrorView::MissingToken)
            == "missing or malformed Authorization: Bearer header"@,
        auth_message(AuthErrorView::DidResolution(detail)) == "could not resolve caller DID: "@
            + detail,
        auth_message(AuthErrorView::InvalidSignature(detail)) == "signature verification failed: "@
            + detail,
        auth_message(AuthErrorView::WrongAudience)
            == "token audience does not match this service's DID"@,
        auth_message(AuthErrorView::Expired) == "token has expired"@,
        auth_message(AuthErrorView::IssuerSubjectMismatch)
            == "token sub does not match iss - a Self-Issued ID Token must be about its own issuer"@,
        auth_message(AuthErrorView::NotYetValid)
            == "token is not yet valid (nbf is in the future)"@,
        auth_message(AuthErrorView::IssuedInFuture) == "token iat (issued-at) is in the future"@,
        auth_message(AuthErrorView::KeyNotAuthorizedForInvocation(detail)) == "signing key '"@
            + detail
            + "' is not listed under the caller's own capabilityInvocation verification relationship"@,
        auth_message(AuthErrorView::TokenReplayed) == "token jti has already been used (replay)"@,
        auth_message(AuthErrorView::UntrustedIssuer(detail)) == "issuer '"@ + detail
            + "' is not on this service's trusted-issuer allow-list"@,
        auth_message(AuthErrorView::NoTrustedIssuerConfigured)
            == "no trusted issuer is configured on this service"@,
        auth_message(AuthErrorView::InvalidNestedToken(detail))
            == "nested access token is not valid: "@ + detail,
        auth_message(AuthErrorView::NestedTokenExpired) == "nested access token has expired"@,
        auth_message(AuthErrorView::NestedTokenNotBoundToCaller)
            == "nested access token is not bound to the party presenting it (aud does not match the outer envelope's own caller)"@,
        auth_message(AuthErrorView::NestedTokenIssuerNotAuthoritative(detail))
            == "nested access token issuer '"@ + detail
            + "' is not authoritative for this service's credentials"@,
        auth_message(AuthErrorView::OutboundDestinationNotAllowed(detail))
            == "outbound destination is not allowed: "@ + detail,
{
}

/// Errors read as they stand.
pub proof fn law_auth_errors_read_as_they_stand(value: AuthError)
    ensures
        value is MissingToken ==> value@ == AuthErrorView::MissingToken,
        value matches AuthError::DidResolution(x) ==> value@ == AuthErrorView::DidResolution(x@),
        value matches AuthError::InvalidSignature(x) ==> value@ == AuthErrorView::InvalidSignature(x@),
        value is WrongAudience ==> value@ == AuthErrorView::WrongAudience,
        value is Expired ==> value@ == AuthErrorView::Expired,
        value is IssuerSubjectMismatch ==> value@ == AuthErrorView::IssuerSubjectMismatch,
        value is NotYetValid ==> value@ == AuthErrorView::NotYetValid,
        value is IssuedInFuture ==> value@ == AuthErrorView::IssuedInFuture,
        value matches AuthError::KeyNotAuthorizedForInvocation(x) ==> value@ == AuthErrorView::KeyNotAuthorizedForInvocation(x@),
        value is TokenReplayed ==> value@ == AuthErrorView::TokenReplayed,
        value matches AuthError::UntrustedIssuer(x) ==> value@ == AuthErrorView::UntrustedIssuer(x@),
        value is NoTrustedIssuerConfigured ==> value@ == AuthErrorView::NoTrustedIssuerConfigured,
        value matches AuthError::InvalidNestedToken(x) ==> value@ == AuthErrorView::InvalidNestedToken(x@),
        value is NestedTokenExpired ==> value@ == AuthErrorView::NestedTokenExpired,
        value is NestedTokenNotBoundToCaller ==> value@ == AuthErrorView::NestedTokenNotBoundToCaller,
        value matches AuthError::NestedTokenIssuerNotAuthoritative(x) ==> value@ == AuthErrorView::NestedTokenIssuerNotAuthoritative(x@),
        value matches AuthError::OutboundDestinationNotAllowed(x) ==> value@ == AuthErrorView::OutboundDestinationNotAllowed(x@),
{
}

/// Verdicts read as they stand.
pub proof fn law_verdicts_read_as_they_stand(value: TokenVerdict)
    ensures
        value matches TokenVerdict::Need(x) ==> value@ == VerdictView::Need(x@),
        value matches TokenVerdict::Accept(x) ==> value@ == VerdictView::Accept(x@),
        value matches TokenVerdict::Reject(x) ==> value@ == VerdictView::Reject(x@),
{
}

/// A token is accepted, with its own claims, exactly where it is presented as a
/// bearer token, decodes to claims with an issuer and a key id, its issuer's
/// location passed the outbound policy, the issuer's document was resolved and
/// lists the key for invocation, the key was found and the signature holds; and the
/// claims are about their issuer, addressed to this service, still valid, neither
/// begin nor were issued more than thirty seconds from now, if they say when, and
/// carry no `jti` that was used before. Nothing else about it matters.
pub proof fn law_tokens_are_accepted_exactly(
    header: Option<Seq<char>>,
    evidence: TokenEvidence,
    audience: Seq<char>,
    allowed: Set<Seq<char>>,
    now: u64,
    seen: Seq<Seq<char>>,
    claims: ClaimsView,
)
    requires
        audience.len() > 0,
    ensures
        bearer_verdict(header, evidence, audience, allowed, now, seen) == VerdictView::Accept(
            claims,
        ) <==> {
            &&& header is Some && exists|token: Seq<char>|
                header->0 == #[trigger] ("Bearer "@ + token)
            &&& evidence.decoded matches Some(Ok(decoded))
            &&& decoded.claims@ == claims
            &&& claims.iss is Some
            &&& optional_text(decoded.kid) matches Some(kid)
            &&& evidence.location matches Some(location)
            &&& did_refusal(allowed, location_view(location)) is None
            &&& evidence.document matches Some(Ok(keys))
            &&& evidence.key matches Some(Ok(_))
            &&& evidence.signature matches Some(Ok(_))
            &&& texts(keys.capability_invocation@).contains(kid)
            &&& claims.sub == claims.iss || (claims.sub is None && claims.iss->0.len() == 0)
            &&& claims.aud == Some(audience)
            &&& claims.exp is Some && claims.exp->0 > now
            &&& claims.nbf is None || claims.nbf->0 <= now + 30
            &&& claims.iat is None || claims.iat->0 <= now + 30
            &&& claims.jti is None || !seen.contains(claims.jti->0)
        },
{
    if let Some(text) = header {
        if exists|token: Seq<char>| text == #[trigger] ("Bearer "@ + token) {
            let token = choose|token: Seq<char>| text == #[trigger] ("Bearer "@ + token);
            law_tokens_follow_the_word_bearer(token, text);
        } else {
            law_tokens_follow_the_word_bearer(text, text);
        }
    }
    if let Some(Ok(decoded)) = evidence.decoded {
        if let Some(kid) = optional_text(decoded.kid) {
            if let Some(Ok(keys)) = evidence.document {
                if claims.iss is Some {
                    law_claims_are_accepted_exactly(
                        claims,
                        claims.iss->0,
                        kid,
                        texts(keys.capability_invocation@),
                        audience,
                        now,
                        seen,
                    );
                }
            }
        }
    }
}

} // verus!
