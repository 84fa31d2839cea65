//! What is learned of a signed token step by step: its decoded content, where
//! its issuer's DID resolves, the issuer's DID document, the key that signed it
//! and whether the signature holds.
//!
//! A check reads the evidence there is and either decides or names the next
//! step. The step is carried out elsewhere and its result added to the evidence.

use vstd::prelude::*;

use crate::text::{copy_optional, optional_text};

verus! {

/// The claims of a token that are read; a claim that is absent or of another
/// type is `None`.
#[derive(Debug)]
pub struct Claims {
    pub iss: Option<String>,
    pub sub: Option<String>,
    pub aud: Option<String>,
    pub exp: Option<u64>,
    pub nbf: Option<u64>,
    pub iat: Option<u64>,
    pub jti: Option<String>,
    pub token: Option<String>,
    pub scope: Option<String>,
}

/// What [`Claims`] hold.
pub struct ClaimsView {
    pub iss: Option<Seq<char>>,
    pub sub: Option<Seq<char>>,
    pub aud: Option<Seq<char>>,
    pub exp: Option<u64>,
    pub nbf: Option<u64>,
    pub iat: Option<u64>,
    pub jti: Option<Seq<char>>,
    pub token: Option<Seq<char>>,
    pub scope: Option<Seq<char>>,
}

impl View for Claims {
    type V = ClaimsView;

    open spec fn view(&self) -> ClaimsView {
        ClaimsView {
            iss: optional_text(self.iss),
            sub: optional_text(self.sub),
            aud: optional_text(self.aud),
            exp: self.exp,
            nbf: self.nbf,
            iat: self.iat,
            jti: optional_text(self.jti),
            token: optional_text(self.token),
            scope: optional_text(self.scope),
        }
    }
}

impl Clone for Claims {
    fn clone(&self) -> (res: Self)
        ensures
            res@ == self@,
    {
        Claims {
            iss: copy_optional(&self.iss),
            sub: copy_optional(&self.sub),
            aud: copy_optional(&self.aud),
            exp: self.exp,
            nbf: self.nbf,
            iat: self.iat,
            jti: copy_optional(&self.jti),
            token: copy_optional(&self.token),
            scope: copy_optional(&self.scope),
        }
    }
}

impl Claims {
    /// No claims at all.
    pub fn empty() -> (res: Self)
        ensures
            res@ == (ClaimsView {
                iss: None,
                sub: None,
                aud: None,
                exp: None,
                nbf: None,
                iat: None,
                jti: None,
                token: None,
                scope: None,
            }),
    {
        Claims {
            iss: None,
            sub: None,
            aud: None,
            exp: None,
            nbf: None,
            iat: None,
            jti: None,
            token: None,
            scope: None,
        }
    }
}

/// A claim's text, empty where it is absent.
pub open spec fn claim_text(claim: Option<Seq<char>>) -> Seq<char> {
    match claim {
        Some(text) => text,
        None => Seq::empty(),
    }
}

/// A claim's text, empty where it is absent.
pub fn claim_or_empty(claim: &Option<String>) -> (res: String)
    ensures
        res@ == claim_text(optional_text(*claim)),
{
    match claim {
        Some(text) => text.clone(),
        None => String::new(),
    }
}

/// A token's decoded content: the header's `kid` and the claims.
#[derive(Debug)]
pub struct DecodedToken {
    pub kid: Option<String>,
    pub claims: Claims,
}

/// What is read of a DID document: the keys listed under
/// `capabilityInvocation`.
#[derive(Debug)]
pub struct DidKeys {
    pub capability_invocation: Vec<String>,
}

/// What is known of a token so far. Each field is `None` until its step was
/// carried out, and holds the step's result after.
#[derive(Debug)]
pub struct TokenEvidence {
    /// The decoded token, or why it could not be decoded.
    pub decoded: Option<Result<DecodedToken, String>>,
    /// The URL at which the issuer's DID resolves, or why there is none.
    pub location: Option<Result<String, String>>,
    /// The issuer's DID document, or why it could not be resolved.
    pub document: Option<Result<DidKeys, String>>,
    /// Whether the document holds the key, or why not.
    pub key: Option<Result<(), String>>,
    /// Whether the signature holds, or why not.
    pub signature: Option<Result<(), String>>,
}

impl TokenEvidence {
    /// Nothing is known yet.
    pub fn new() -> (res: Self)
        ensures
            res.decoded is None,
            res.location is None,
            res.document is None,
            res.key is None,
            res.signature is None,
    {
        TokenEvidence { decoded: None, location: None, document: None, key: None, signature: None }
    }
}

/// The next thing to find out about a token.
#[derive(Debug)]
pub enum Step {
    /// Decode this token.
    Decode(String),
    /// Find the URL at which this DID resolves, without resolving it.
    Locate(String),
    /// Resolve this DID.
    Resolve(String),
    /// Look up this key in the resolved document.
    FindKey(String),
    /// Check the token's signature with that key.
    CheckSignature,
}

/// What a [`Step`] holds.
pub enum StepView {
    Decode(Seq<char>),
    Locate(Seq<char>),
    Resolve(Seq<char>),
    FindKey(Seq<char>),
    CheckSignature,
}

impl View for Step {
    type V = StepView;

    open spec fn view(&self) -> StepView {
        match self {
            Step::Decode(token) => StepView::Decode(token@),
            Step::Locate(did) => StepView::Locate(did@),
            Step::Resolve(did) => StepView::Resolve(did@),
            Step::FindKey(kid) => StepView::FindKey(kid@),
            Step::CheckSignature => StepView::CheckSignature,
        }
    }
}

/// Claims read as they stand, each under its own name.
pub proof fn law_claims_read_as_they_stand(claims: Claims)
    ensures
        claims@.iss is Some == claims.iss is Some,
        claims.iss matches Some(text) ==> claims@.iss == Some(text@),
        claims@.sub is Some == claims.sub is Some,
        claims.sub matches Some(text) ==> claims@.sub == Some(text@),
        claims@.aud is Some == claims.aud is Some,
        claims.aud matches Some(text) ==> claims@.aud == Some(text@),
        claims@.exp == claims.exp,
        claims@.nbf == claims.nbf,
        claims@.iat == claims.iat,
        claims@.jti is Some == claims.jti is Some,
        claims.jti matches Some(text) ==> claims@.jti == Some(text@),
        claims@.token is Some == claims.token is Some,
        claims.token matches Some(text) ==> claims@.token == Some(text@),
        claims@.scope is Some == claims.scope is Some,
        claims.scope matches Some(text) ==> claims@.scope == Some(text@),
{
}

/// An absent claim reads as an empty text, and one that is there as its text.
pub proof fn law_absent_claims_are_empty(text: Seq<char>)
    ensures
        claim_text(Some(text)) == text,
        claim_text(None) == Seq::<char>::empty(),
{
}

/// Steps read as they stand.
pub proof fn law_steps_read_as_they_stand(value: Step)
    ensures
        value matches Step::Decode(x) ==> value@ == StepView::Decode(x@),
        value matches Step::Locate(x) ==> value@ == StepView::Locate(x@),
        value matches Step::Resolve(x) ==> value@ == StepView::Resolve(x@),
        value matches Step::FindKey(x) ==> value@ == StepView::FindKey(x@),
        value is CheckSignature ==> value@ == StepView::CheckSignature,
{
}

} // verus!
