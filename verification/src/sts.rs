//! A minimal Secure Token Service: one client, an OAuth2 client-credentials
//! request, and the claims of the Self-Issued ID Token it is answered with.
//!
//! The token is signed as the service's STS party, an identity apart from the
//! Credential or Issuer Service's own. Where a scope is asked for, the token
//! carries a second one, the access token, which is signed first.

use vstd::prelude::*;

use crate::identity::ServiceIdentity;
use crate::ids::{fresh_id, is_uuid};
use crate::text::{blank, is_blank, is_white, same_text};

verus! {

/// How long a minted token is valid.
pub const TOKEN_TTL_SECS: u64 = 300;

/// The client that the service answers.
#[derive(Debug)]
pub struct StsConfig {
    pub client_id: String,
    pub client_secret: String,
}

impl StsConfig {
    pub fn new(client_id: String, client_secret: String) -> (res: Self)
        ensures
            res.client_id == client_id,
            res.client_secret == client_secret,
    {
        StsConfig { client_id, client_secret }
    }
}

/// Why a token request is refused.
#[derive(Debug)]
pub enum StsError {
    UnsupportedGrantType,
    InvalidClient,
    InvalidRequest(String),
}

/// What an [`StsError`] holds.
pub enum StsErrorView {
    UnsupportedGrantType,
    InvalidClient,
    InvalidRequest(Seq<char>),
}

impl View for StsError {
    type V = StsErrorView;

    open spec fn view(&self) -> StsErrorView {
        match self {
            StsError::UnsupportedGrantType => StsErrorView::UnsupportedGrantType,
            StsError::InvalidClient => StsErrorView::InvalidClient,
            StsError::InvalidRequest(detail) => StsErrorView::InvalidRequest(detail@),
        }
    }
}

/// The text of an [`StsError`].
pub open spec fn sts_message(error: StsErrorView) -> Seq<char> {
    match error {
        StsErrorView::UnsupportedGrantType =>
            "unsupported_grant_type: only client_credentials is supported"@,
        StsErrorView::InvalidClient => "invalid_client: unknown client_id/client_secret"@,
        StsErrorView::InvalidRequest(detail) => "invalid_request: "@ + detail,
    }
}

impl StsError {
    /// The error in words.
    pub fn message(&self) -> (res: String)
        ensures
            res@ == sts_message(self@),
    {
        match self {
            StsError::UnsupportedGrantType => String::from_str(
                "unsupported_grant_type: only client_credentials is supported",
            ),
            StsError::InvalidClient => String::from_str(
                "invalid_client: unknown client_id/client_secret",
            ),
            StsError::InvalidRequest(detail) => String::from_str("invalid_request: ").concat(
                detail.as_str(),
            ),
        }
    }
}

/// A token request.
#[derive(Debug)]
pub struct StsTokenRequest {
    pub grant_type: String,
    pub client_id: String,
    pub client_secret: String,
    /// Who the token is addressed to.
    pub audience: String,
    /// The scope asked for; without one the token carries no access token.
    pub bearer_access_scope: Option<String>,
    /// The DID of the Credential or Issuer Service that hosts the STS.
    pub own_service_did: String,
}

/// The answer to a token request.
#[derive(Debug)]
pub struct StsTokenResponse {
    pub access_token: String,
    pub expires_in: u64,
    pub token_type: String,
}

/// The claims of an access token: a grant of `scope` to whoever `aud` names.
#[derive(Debug)]
pub struct AccessTokenClaims {
    pub iss: String,
    pub sub: String,
    pub aud: String,
    pub scope: String,
    pub iat: u64,
    pub exp: u64,
    pub jti: String,
}

/// The claims of a Self-Issued ID Token.
#[derive(Debug)]
pub struct IdTokenClaims {
    pub iss: String,
    pub sub: String,
    pub aud: String,
    pub iat: u64,
    pub nbf: u64,
    pub exp: u64,
    pub jti: String,
    pub token: Option<String>,
}

/// A granted token request: the access token's claims, where there is to be one,
/// and the ID token's, which wait for it.
#[derive(Debug)]
pub struct PendingToken {
    pub access: Option<AccessTokenClaims>,
    pub id: IdTokenClaims,
}

/// Why a request is refused, `None` where it is granted.
pub open spec fn sts_refusal(config: StsConfig, req: StsTokenRequest) -> Option<StsErrorView> {
    if req.grant_type@ != "client_credentials"@ {
        Some(StsErrorView::UnsupportedGrantType)
    } else if req.client_id@ != config.client_id@ || req.client_secret@ != config.client_secret@ {
        Some(StsErrorView::InvalidClient)
    } else if is_blank(req.audience@) {
        Some(StsErrorView::InvalidRequest("audience must not be empty"@))
    } else {
        None
    }
}

/// Who will present the access token: the STS party itself where the token is
/// addressed to the service that hosts the STS, else the party it is addressed
/// to.
pub open spec fn presenter(signer: Seq<char>, req: StsTokenRequest) -> Seq<char> {
    if req.audience@ == req.own_service_did@ {
        signer
    } else {
        req.audience@
    }
}

/// Whether these are the claims of the access token that answers a request.
pub open spec fn is_access_token(
    claims: AccessTokenClaims,
    signer: Seq<char>,
    req: StsTokenRequest,
    now: u64,
) -> bool {
    &&& claims.iss@ == signer
    &&& claims.sub@ == signer
    &&& claims.aud@ == presenter(signer, req)
    &&& req.bearer_access_scope matches Some(scope) && claims.scope@ == scope@
    &&& claims.iat == now
    &&& claims.exp == now + TOKEN_TTL_SECS
    &&& is_uuid(claims.jti@)
}

/// Whether these are the claims, but for `token`, of the ID token that answers a
/// request.
pub open spec fn is_id_token(
    claims: IdTokenClaims,
    signer: Seq<char>,
    req: StsTokenRequest,
    now: u64,
) -> bool {
    &&& claims.iss@ == signer
    &&& claims.sub@ == signer
    &&& claims.aud@ == req.audience@
    &&& claims.iat == now
    &&& claims.nbf == now
    &&& claims.exp == now + TOKEN_TTL_SECS
    &&& is_uuid(claims.jti@)
}

/// Validates a token request and, where it is granted, gives the claims to sign:
/// the access token's first, where the request names a scope. `now` is the time
/// in seconds; each token's `jti` is fresh.
pub fn issue_token(
    config: &StsConfig,
    signer: &ServiceIdentity,
    req: StsTokenRequest,
    now: u64,
) -> (res: Result<PendingToken, StsError>)
    requires
        now <= u64::MAX - TOKEN_TTL_SECS,
    ensures
        res is Err == sts_refusal(*config, req) is Some,
        res matches Err(error) ==> sts_refusal(*config, req) == Some(error@),
        res matches Ok(pending) ==> {
            &&& is_id_token(pending.id, signer.did(), req, now)
            &&& pending.id.token is None
            &&& pending.access is Some == req.bearer_access_scope is Some
            &&& pending.access matches Some(access) ==> is_access_token(
                access,
                signer.did(),
                req,
                now,
            )
        },
{
    if !same_text(req.grant_type.as_str(), "client_credentials") {
        return Err(StsError::UnsupportedGrantType);
    }
    if req.client_id != config.client_id || req.client_secret != config.client_secret {
        return Err(StsError::InvalidClient);
    }
    if blank(req.audience.as_str()) {
        return Err(StsError::InvalidRequest(String::from_str("audience must not be empty")));
    }
    let own = String::from_str(signer.own_did());
    let access = match &req.bearer_access_scope {
        Some(scope) => {
            let aud = if req.audience == req.own_service_did {
                own.clone()
            } else {
                req.audience.clone()
            };
            Some(
                AccessTokenClaims {
                    iss: own.clone(),
                    sub: own.clone(),
                    aud,
                    scope: scope.clone(),
                    iat: now,
                    exp: now + TOKEN_TTL_SECS,
                    jti: fresh_id(),
                },
            )
        },
        None => None,
    };
    let id = IdTokenClaims {
        iss: own.clone(),
        sub: own,
        aud: req.audience,
        iat: now,
        nbf: now,
        exp: now + TOKEN_TTL_SECS,
        jti: fresh_id(),
        token: None,
    };
    Ok(PendingToken { access, id })
}

impl PendingToken {
    /// The ID token's claims, once the access token is signed.
    pub fn id_token(self, access_token: Option<String>) -> (res: IdTokenClaims)
        ensures
            res == (IdTokenClaims { token: access_token, ..self.id }),
    {
        let id = self.id;
        IdTokenClaims {
            iss: id.iss,
            sub: id.sub,
            aud: id.aud,
            iat: id.iat,
            nbf: id.nbf,
            exp: id.exp,
            jti: id.jti,
            token: access_token,
        }
    }
}

impl StsTokenResponse {
    /// The answer that carries a signed ID token.
    pub fn bearer(id_token: String) -> (res: Self)
        ensures
            res.access_token == id_token,
            res.expires_in == TOKEN_TTL_SECS,
            res.token_type@ == "Bearer"@,
    {
        StsTokenResponse {
            access_token: id_token,
            expires_in: TOKEN_TTL_SECS,
            token_type: String::from_str("Bearer"),
        }
    }
}

/// Who is granted a token: a client with the configured id and secret that asks
/// by client credentials for an audience that is not blank. Each refusal has its
/// reason, and the first that holds is given.
pub proof fn law_tokens_are_granted_exactly(config: StsConfig, req: StsTokenRequest)
    ensures
        ({
            let by_credentials = req.grant_type@ == "client_credentials"@;
            let known = req.client_id@ == config.client_id@ && req.client_secret@
                == config.client_secret@;
            let addressed = exists|i: int|
                0 <= i < req.audience@.len() && !is_white(#[trigger] req.audience@[i]);
            &&& sts_refusal(config, req) is None <==> by_credentials && known && addressed
            &&& !by_credentials ==> sts_refusal(config, req) == Some(
                StsErrorView::UnsupportedGrantType,
            )
            &&& by_credentials && !known ==> sts_refusal(config, req) == Some(
                StsErrorView::InvalidClient,
            )
            &&& by_credentials && known && !addressed ==> sts_refusal(config, req) == Some(
                StsErrorView::InvalidRequest("audience must not be empty"@),
            )
        }),
{
}

/// What each refusal says.
pub proof fn law_sts_refusals_say_why(detail: Seq<char>)
    ensures
        sts_message(StsErrorView::UnsupportedGrantType)
            == "unsupported_grant_type: only client_credentials is supported"@,
        sts_message(StsErrorView::InvalidClient)
            == "invalid_client: unknown client_id/client_secret"@,
        sts_message(StsErrorView::InvalidRequest(detail)) == "invalid_request: "@ + detail,
{
}

/// An access token is the signer's own, grants the scope that was asked for, and
/// is valid for five minutes. It is bound to the signer where the request is
/// addressed to the service that hosts the STS, and else to whom it is addressed
/// to.
pub proof fn law_access_tokens_grant_what_was_asked_for(
    claims: AccessTokenClaims,
    signer: Seq<char>,
    req: StsTokenRequest,
    now: u64,
)
    requires
        is_access_token(claims, signer, req, now),
    ensures
        claims.iss@ == signer,
        claims.sub@ == signer,
        req.audience@ == req.own_service_did@ ==> claims.aud@ == signer,
        req.audience@ != req.own_service_did@ ==> claims.aud@ == req.audience@,
        req.bearer_access_scope matches Some(scope) && claims.scope@ == scope@,
        claims.iat == now,
        claims.exp == now + 300,
        claims.jti@.len() == 36,
{
}

/// An ID token is the signer's own, about the signer, addressed to whom the
/// request is addressed to, and valid from now on for five minutes.
pub proof fn law_id_tokens_are_about_their_signer(
    claims: IdTokenClaims,
    signer: Seq<char>,
    req: StsTokenRequest,
    now: u64,
)
    requires
        is_id_token(claims, signer, req, now),
    ensures
        claims.iss@ == signer,
        claims.sub@ == signer,
        claims.aud@ == req.audience@,
        claims.iat == now,
        claims.nbf == now,
        claims.exp == now + 300,
        claims.jti@.len() == 36,
{
}

/// Errors read as they stand.
pub proof fn law_sts_errors_read_as_they_stand(value: StsError)
    ensures
        value is UnsupportedGrantType ==> value@ == StsErrorView::UnsupportedGrantType,
        value is InvalidClient ==> value@ == StsErrorView::InvalidClient,
        value matches StsError::InvalidRequest(x) ==> value@ == StsErrorView::InvalidRequest(x@),
{
}

} // verus!
