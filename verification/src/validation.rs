//! Validates the content of the messages that the Storage API and the Credential
//! Offer API receive, once their sender is known and trusted.

use vstd::prelude::*;
use vstd::utf8::is_ascii_chars;

use crate::evidence::{DecodedToken, Step, StepView, TokenEvidence};
use crate::json::{JsonValue, JsonView};
use crate::messages::{CredentialContainer, CredentialObject, IssuerMetadata};
use crate::outbound::{
    did_refusal, location_view, outbound_message, url_parts, url_refusal, OutboundPolicy,
};
use crate::text::{
    ascii_lowered, concat3, contains_run, contains_text, holds_run, lowercased, optional_text,
    same_text, texts, to_lowercase,
};

verus! {

/// Why a message is refused.
#[derive(Debug)]
pub enum ValidationError {
    InvalidStatus(String),
    UnknownHolderPid(String),
    UnsupportedCredentialFormat(String),
    UnverifiableProof(String),
    EmptyCredentials,
    UnknownCredentialId(String),
    CatalogUnavailable(String),
}

/// What a [`ValidationError`] holds.
pub enum ValidationErrorView {
    InvalidStatus(Seq<char>),
    UnknownHolderPid(Seq<char>),
    UnsupportedCredentialFormat(Seq<char>),
    UnverifiableProof(Seq<char>),
    EmptyCredentials,
    UnknownCredentialId(Seq<char>),
    CatalogUnavailable(Seq<char>),
}

impl View for ValidationError {
    type V = ValidationErrorView;

    open spec fn view(&self) -> ValidationErrorView {
        match self {
            ValidationError::InvalidStatus(s) => ValidationErrorView::InvalidStatus(s@),
            ValidationError::UnknownHolderPid(p) => ValidationErrorView::UnknownHolderPid(p@),
            ValidationError::UnsupportedCredentialFormat(f) =>
                ValidationErrorView::UnsupportedCredentialFormat(f@),
            ValidationError::UnverifiableProof(m) => ValidationErrorView::UnverifiableProof(m@),
            ValidationError::EmptyCredentials => ValidationErrorView::EmptyCredentials,
            ValidationError::UnknownCredentialId(id) => ValidationErrorView::UnknownCredentialId(
                id@,
            ),
            ValidationError::CatalogUnavailable(m) => ValidationErrorView::CatalogUnavailable(m@),
        }
    }
}

/// The text of a [`ValidationError`].
pub open spec fn validation_message(error: ValidationErrorView) -> Seq<char> {
    match error {
        ValidationErrorView::InvalidStatus(s) => "credential message status '"@ + s
            + "' is not one of the recognized values (ISSUED, REJECTED)"@,
        ValidationErrorView::UnknownHolderPid(p) => "holderPid '"@ + p
            + "' does not match a request this service was configured to expect"@,
        ValidationErrorView::UnsupportedCredentialFormat(f) => "credential format '"@ + f
            + "' is not one this service can verify"@,
        ValidationErrorView::UnverifiableProof(m) =>
            "a credential's own embedded proof could not be verified: "@ + m,
        ValidationErrorView::EmptyCredentials =>
            "a CredentialOfferMessage must offer at least one credential"@,
        ValidationErrorView::UnknownCredentialId(id) => "offered credential id '"@ + id
            + "' does not match the issuer's own known catalog"@,
        ValidationErrorView::CatalogUnavailable(m) =>
            "could not resolve the offering issuer's own credential catalog: "@ + m,
    }
}

impl ValidationError {
    /// The error in words.
    pub fn message(&self) -> (res: String)
        ensures
            res@ == validation_message(self@),
    {
        match self {
            ValidationError::InvalidStatus(s) => concat3(
                "credential message status '",
                s.as_str(),
                "' is not one of the recognized values (ISSUED, REJECTED)",
            ),
            ValidationError::UnknownHolderPid(p) => concat3(
                "holderPid '",
                p.as_str(),
                "' does not match a request this service was configured to expect",
            ),
            ValidationError::UnsupportedCredentialFormat(f) => concat3(
                "credential format '",
                f.as_str(),
                "' is not one this service can verify",
            ),
            ValidationError::UnverifiableProof(m) => String::from_str(
                "a credential's own embedded proof could not be verified: ",
            ).concat(m.as_str()),
            ValidationError::EmptyCredentials => String::from_str(
                "a CredentialOfferMessage must offer at least one credential",
            ),
            ValidationError::UnknownCredentialId(id) => concat3(
                "offered credential id '",
                id.as_str(),
                "' does not match the issuer's own known catalog",
            ),
            ValidationError::CatalogUnavailable(m) => String::from_str(
                "could not resolve the offering issuer's own credential catalog: ",
            ).concat(m.as_str()),
        }
    }
}

/// Whether a `CredentialMessage` may carry a status.
pub open spec fn is_message_status(status: Seq<char>) -> bool {
    status == "ISSUED"@ || status == "REJECTED"@
}

/// The status of a `CredentialMessage` must be `ISSUED` or `REJECTED`.
pub fn validate_status(status: &str) -> (res: Result<(), ValidationError>)
    ensures
        res is Ok == is_message_status(status@),
        res matches Err(error) ==> error@ == ValidationErrorView::InvalidStatus(status@),
{
    if same_text(status, "ISSUED") || same_text(status, "REJECTED") {
        Ok(())
    } else {
        Err(ValidationError::InvalidStatus(String::from_str(status)))
    }
}

/// Whether a `holderPid` is expected: an empty list expects any.
pub open spec fn is_known_holder(holder_pid: Seq<char>, known: Seq<Seq<char>>) -> bool {
    known.len() == 0 || known.contains(holder_pid)
}

/// The `holderPid` must be one that the service was configured to expect. An
/// empty list means that no restriction is configured.
pub fn check_known_holder_pid(holder_pid: &str, known_holder_pids: &Vec<String>) -> (res: Result<
    (),
    ValidationError,
>)
    ensures
        res is Ok == is_known_holder(holder_pid@, texts(known_holder_pids@)),
        res matches Err(error) ==> error@ == ValidationErrorView::UnknownHolderPid(holder_pid@),
{
    if known_holder_pids.len() == 0 || contains_text(known_holder_pids, holder_pid) {
        Ok(())
    } else {
        Err(ValidationError::UnknownHolderPid(String::from_str(holder_pid)))
    }
}

/// Whether a credential's format is one whose proof can be verified.
pub open spec fn is_jwt_format(format: Seq<char>) -> bool {
    holds_run(lowercased(format), "jwt"@)
}

/// What is decided of one credential's proof.
#[derive(Debug)]
pub enum ProofVerdict {
    Need(Step),
    Verified,
    Reject(ValidationError),
}

/// What a [`ProofVerdict`] holds.
pub enum ProofView {
    Need(StepView),
    Verified,
    Reject(ValidationErrorView),
}

impl View for ProofVerdict {
    type V = ProofView;

    open spec fn view(&self) -> ProofView {
        match self {
            ProofVerdict::Need(step) => ProofView::Need(step@),
            ProofVerdict::Verified => ProofView::Verified,
            ProofVerdict::Reject(error) => ProofView::Reject(error@),
        }
    }
}

/// The refusal of a proof for the reason given.
pub open spec fn unverifiable(reason: Seq<char>) -> ProofView {
    ProofView::Reject(ValidationErrorView::UnverifiableProof(reason))
}

/// What is decided of one credential's proof.
pub open spec fn proof_verdict(
    format: Seq<char>,
    payload: JsonView,
    evidence: TokenEvidence,
    allowed: Set<Seq<char>>,
) -> ProofView {
    if !is_jwt_format(format) {
        ProofView::Reject(ValidationErrorView::UnsupportedCredentialFormat(format))
    } else {
        match payload {
            JsonView::Json(_) => unverifiable(
                "a jwt-format credential's payload must be a JWS string"@,
            ),
            JsonView::Text(jws) => match evidence.decoded {
                None => ProofView::Need(StepView::Decode(jws)),
                Some(Err(m)) => unverifiable(m@),
                Some(Ok(decoded)) => match (decoded.claims@.iss, optional_text(decoded.kid)) {
                    (None, _) => unverifiable("credential has no iss claim"@),
                    (Some(_), None) => unverifiable("credential JWS has no kid header"@),
                    (Some(issuer), Some(kid)) => match evidence.location {
                        None => ProofView::Need(StepView::Locate(issuer)),
                        Some(location) => match did_refusal(allowed, location_view(location)) {
                            Some(error) => unverifiable(outbound_message(error)),
                            None => match (evidence.document, evidence.key, evidence.signature) {
                                (None, _, _) => ProofView::Need(StepView::Resolve(issuer)),
                                (Some(Err(m)), _, _) => unverifiable(m@),
                                (Some(Ok(_)), None, _) => ProofView::Need(StepView::FindKey(kid)),
                                (Some(Ok(_)), Some(Err(m)), _) => unverifiable(m@),
                                (Some(Ok(_)), Some(Ok(_)), None) => ProofView::Need(
                                    StepView::CheckSignature,
                                ),
                                (Some(Ok(_)), Some(Ok(_)), Some(Err(m))) => unverifiable(m@),
                                (Some(Ok(_)), Some(Ok(_)), Some(Ok(_))) => ProofView::Verified,
                            },
                        },
                    },
                },
            },
        }
    }
}

/// Decides on one credential's proof: its format must be one that can be
/// verified, its payload a JWS, and the JWS signed by its own issuer. A format
/// that cannot be verified is refused before the payload is looked at.
pub fn verify_credential_proof(
    container: &CredentialContainer,
    evidence: &TokenEvidence,
    outbound: &OutboundPolicy,
) -> (res: ProofVerdict)
    ensures
        res@ == proof_verdict(container.format@, container.payload@, *evidence, outbound@),
{
    let format = to_lowercase(container.format.as_str());
    if !contains_run(format.as_str(), "jwt") {
        return ProofVerdict::Reject(
            ValidationError::UnsupportedCredentialFormat(container.format.clone()),
        );
    }
    let jws = match &container.payload {
        JsonValue::Text(jws) => jws,
        JsonValue::Json(_) => {
            return ProofVerdict::Reject(
                ValidationError::UnverifiableProof(
                    String::from_str("a jwt-format credential's payload must be a JWS string"),
                ),
            );
        },
    };
    let decoded = match &evidence.decoded {
        None => {
            return ProofVerdict::Need(Step::Decode(jws.clone()));
        },
        Some(Err(m)) => {
            return ProofVerdict::Reject(ValidationError::UnverifiableProof(m.clone()));
        },
        Some(Ok(decoded)) => decoded,
    };
    let issuer = match &decoded.claims.iss {
        Some(issuer) => issuer,
        None => {
            return ProofVerdict::Reject(
                ValidationError::UnverifiableProof(String::from_str("credential has no iss claim")),
            );
        },
    };
    let kid = match &decoded.kid {
        Some(kid) => kid,
        None => {
            return ProofVerdict::Reject(
                ValidationError::UnverifiableProof(
                    String::from_str("credential JWS has no kid header"),
                ),
            );
        },
    };
    let location = match &evidence.location {
        Some(location) => location,
        None => {
            return ProofVerdict::Need(Step::Locate(issuer.clone()));
        },
    };
    if let Err(error) = outbound.check_did(location) {
        return ProofVerdict::Reject(ValidationError::UnverifiableProof(error.message()));
    }
    match &evidence.document {
        None => {
            return ProofVerdict::Need(Step::Resolve(issuer.clone()));
        },
        Some(Err(m)) => {
            return ProofVerdict::Reject(ValidationError::UnverifiableProof(m.clone()));
        },
        Some(Ok(_)) => {},
    }
    match &evidence.key {
        None => {
            return ProofVerdict::Need(Step::FindKey(kid.clone()));
        },
        Some(Err(m)) => {
            return ProofVerdict::Reject(ValidationError::UnverifiableProof(m.clone()));
        },
        Some(Ok(_)) => {},
    }
    match &evidence.signature {
        None => ProofVerdict::Need(Step::CheckSignature),
        Some(Err(m)) => ProofVerdict::Reject(ValidationError::UnverifiableProof(m.clone())),
        Some(Ok(_)) => ProofVerdict::Verified,
    }
}

/// What is decided of the proofs of a message's credentials.
#[derive(Debug)]
pub enum ProofsVerdict {
    /// This step is needed for the credential at this position.
    Need(usize, Step),
    Verified,
    Reject(ValidationError),
}

/// What a [`ProofsVerdict`] holds.
pub enum ProofsView {
    Need(int, StepView),
    Verified,
    Reject(ValidationErrorView),
}

impl View for ProofsVerdict {
    type V = ProofsView;

    open spec fn view(&self) -> ProofsView {
        match self {
            ProofsVerdict::Need(i, step) => ProofsView::Need(*i as int, step@),
            ProofsVerdict::Verified => ProofsView::Verified,
            ProofsVerdict::Reject(error) => ProofsView::Reject(error@),
        }
    }
}

/// What is decided of the proofs from position `i` on: the first one that is not
/// verified decides.
pub open spec fn proofs_verdict(
    credentials: Seq<CredentialContainer>,
    evidence: Seq<TokenEvidence>,
    allowed: Set<Seq<char>>,
    i: int,
) -> ProofsView
    decreases credentials.len() - i,
{
    if i >= credentials.len() {
        ProofsView::Verified
    } else {
        match proof_verdict(credentials[i].format@, credentials[i].payload@, evidence[i], allowed) {
            ProofView::Verified => proofs_verdict(credentials, evidence, allowed, i + 1),
            ProofView::Need(step) => ProofsView::Need(i, step),
            ProofView::Reject(error) => ProofsView::Reject(error),
        }
    }
}

/// Decides on the proofs of all credentials of a message, one after the other.
/// The first one that fails refuses the whole message. `evidence` is what is
/// known of each credential's JWS.
pub fn verify_credential_proofs(
    credentials: &Vec<CredentialContainer>,
    evidence: &Vec<TokenEvidence>,
    outbound: &OutboundPolicy,
) -> (res: ProofsVerdict)
    requires
        evidence@.len() == credentials@.len(),
    ensures
        res@ == proofs_verdict(credentials@, evidence@, outbound@, 0),
{
    let mut i: usize = 0;
    while i < credentials.len()
        invariant
            i <= credentials@.len(),
            evidence@.len() == credentials@.len(),
            proofs_verdict(credentials@, evidence@, outbound@, 0) == proofs_verdict(
                credentials@,
                evidence@,
                outbound@,
                i as int,
            ),
        decreases credentials.len() - i,
    {
        match verify_credential_proof(&credentials[i], &evidence[i], outbound) {
            ProofVerdict::Verified => {},
            ProofVerdict::Need(step) => {
                return ProofsVerdict::Need(i, step);
            },
            ProofVerdict::Reject(error) => {
                return ProofsVerdict::Reject(error);
            },
        }
        i = i + 1;
    }
    ProofsVerdict::Verified
}

/// The reply of an issuer's metadata endpoint.
#[derive(Debug)]
pub enum CatalogReply {
    /// The request failed.
    Failed(String),
    /// The endpoint answered with this unsuccessful HTTP status.
    Status(String),
    /// The body could not be read as metadata.
    Unreadable(String),
    /// The issuer's metadata.
    Metadata(IssuerMetadata),
}

/// What is known so far of an offering issuer's catalog.
#[derive(Debug)]
pub struct CatalogEvidence {
    /// The URL at which the issuer's DID resolves, or why there is none.
    pub location: Option<Result<String, String>>,
    /// The endpoint of the issuer's `IssuerService` in its DID document, or why
    /// there is none.
    pub endpoint: Option<Result<String, String>>,
    /// The reply of the metadata endpoint.
    pub reply: Option<CatalogReply>,
}

impl CatalogEvidence {
    /// Nothing is known yet.
    pub fn new() -> (res: Self)
        ensures
            res.location is None,
            res.endpoint is None,
            res.reply is None,
    {
        CatalogEvidence { location: None, endpoint: None, reply: None }
    }
}

/// The next thing to find out about an issuer's catalog.
#[derive(Debug)]
pub enum CatalogStep {
    /// Find the URL at which this DID resolves, without resolving it.
    Locate(String),
    /// Resolve this DID and find its `IssuerService` endpoint.
    Resolve(String),
    /// Fetch the issuer's metadata from this URL.
    Fetch(String),
}

/// What a [`CatalogStep`] holds.
pub enum CatalogStepView {
    Locate(Seq<char>),
    Resolve(Seq<char>),
    Fetch(Seq<char>),
}

impl View for CatalogStep {
    type V = CatalogStepView;

    open spec fn view(&self) -> CatalogStepView {
        match self {
            CatalogStep::Locate(did) => CatalogStepView::Locate(did@),
            CatalogStep::Resolve(did) => CatalogStepView::Resolve(did@),
            CatalogStep::Fetch(url) => CatalogStepView::Fetch(url@),
        }
    }
}

/// What is decided of an offer.
#[derive(Debug)]
pub enum OfferVerdict {
    Need(CatalogStep),
    Accept,
    Reject(ValidationError),
}

/// What an [`OfferVerdict`] holds.
pub enum OfferVerdictView {
    Need(CatalogStepView),
    Accept,
    Reject(ValidationErrorView),
}

impl View for OfferVerdict {
    type V = OfferVerdictView;

    open spec fn view(&self) -> OfferVerdictView {
        match self {
            OfferVerdict::Need(step) => OfferVerdictView::Need(step@),
            OfferVerdict::Accept => OfferVerdictView::Accept,
            OfferVerdict::Reject(error) => OfferVerdictView::Reject(error@),
        }
    }
}

/// The ids of the credentials that an offer names by id alone, in order.
pub open spec fn sparse_ids(credentials: Seq<CredentialObject>) -> Seq<Seq<char>>
    decreases credentials.len(),
{
    if credentials.len() == 0 {
        Seq::empty()
    } else {
        let before = sparse_ids(credentials.drop_last());
        if credentials.last().credential_type is None {
            before.push(credentials.last().id@)
        } else {
            before
        }
    }
}

/// The ids in an issuer's catalog.
pub open spec fn catalog_ids(metadata: IssuerMetadata) -> Seq<Seq<char>> {
    match metadata.credentials_supported {
        Some(list) => list@.map_values(|c: CredentialObject| c.id@),
        None => Seq::empty(),
    }
}

/// The first of `ids` that is not in `known`.
pub open spec fn first_unknown(ids: Seq<Seq<char>>, known: Seq<Seq<char>>) -> Option<Seq<char>>
    decreases ids.len(),
{
    if ids.len() == 0 {
        None
    } else if !known.contains(ids[0]) {
        Some(ids[0])
    } else {
        first_unknown(ids.drop_first(), known)
    }
}

/// The refusal of an offer because its issuer's catalog cannot be had.
pub open spec fn no_catalog(reason: Seq<char>) -> OfferVerdictView {
    OfferVerdictView::Reject(ValidationErrorView::CatalogUnavailable(reason))
}

/// What is decided of an offer.
pub open spec fn offer_verdict(
    issuer: Seq<char>,
    credentials: Seq<CredentialObject>,
    evidence: CatalogEvidence,
    allowed: Set<Seq<char>>,
) -> OfferVerdictView {
    if credentials.len() == 0 {
        OfferVerdictView::Reject(ValidationErrorView::EmptyCredentials)
    } else if sparse_ids(credentials).len() == 0 {
        OfferVerdictView::Accept
    } else {
        match evidence.location {
            None => OfferVerdictView::Need(CatalogStepView::Locate(issuer)),
            Some(location) => match did_refusal(allowed, location_view(location)) {
                Some(error) => no_catalog(outbound_message(error)),
                None => match evidence.endpoint {
                    None => OfferVerdictView::Need(CatalogStepView::Resolve(issuer)),
                    Some(Err(m)) => no_catalog(m@),
                    Some(Ok(endpoint)) => {
                        let url = endpoint@ + "/metadata"@;
                        match url_refusal(allowed, url, url_parts(url)) {
                            Some(error) => no_catalog(outbound_message(error)),
                            None => match evidence.reply {
                                None => OfferVerdictView::Need(CatalogStepView::Fetch(url)),
                                Some(CatalogReply::Failed(m)) => no_catalog(m@),
                                Some(CatalogReply::Status(status)) => no_catalog(
                                    "issuer metadata endpoint returned HTTP "@ + status@,
                                ),
                                Some(CatalogReply::Unreadable(m)) => no_catalog(m@),
                                Some(CatalogReply::Metadata(metadata)) => match first_unknown(
                                    sparse_ids(credentials),
                                    catalog_ids(metadata),
                                ) {
                                    Some(id) => OfferVerdictView::Reject(
                                        ValidationErrorView::UnknownCredentialId(id),
                                    ),
                                    None => OfferVerdictView::Accept,
                                },
                            },
                        }
                    },
                },
            },
        }
    }
}

/// The ids of the credentials that an offer names by id alone.
fn collect_sparse(credentials: &Vec<CredentialObject>) -> (res: Vec<String>)
    ensures
        texts(res@) == sparse_ids(credentials@),
{
    let mut out: Vec<String> = Vec::new();
    let mut i: usize = 0;
    while i < credentials.len()
        invariant
            i <= credentials@.len(),
            texts(out@) == sparse_ids(credentials@.take(i as int)),
        decreases credentials.len() - i,
    {
        proof {
            assert(credentials@.take(i + 1).drop_last() =~= credentials@.take(i as int));
            assert(credentials@.take(i + 1).last() == credentials@[i as int]);
        }
        let credential = &credentials[i];
        if credential.credential_type.is_none() {
            let id = credential.id.clone();
            proof {
                assert(texts(out@.push(id)) =~= texts(out@).push(id@));
            }
            out.push(id);
        }
        i = i + 1;
    }
    proof {
        assert(credentials@.take(i as int) =~= credentials@);
    }
    out
}

/// The ids in an issuer's catalog.
fn collect_catalog(metadata: &IssuerMetadata) -> (res: Vec<String>)
    ensures
        texts(res@) == catalog_ids(*metadata),
{
    let mut out: Vec<String> = Vec::new();
    if let Some(list) = &metadata.credentials_supported {
        let mut i: usize = 0;
        while i < list.len()
            invariant
                i <= list@.len(),
                out@.len() == i,
                forall|k: int| 0 <= k < i ==> (#[trigger] out@[k])@ == list@[k].id@,
            decreases list.len() - i,
        {
            out.push(list[i].id.clone());
            i = i + 1;
        }
    }
    proof {
        assert(texts(out@) =~= catalog_ids(*metadata));
    }
    out
}

/// The first of `ids` that is not in `known`.
fn find_unknown(ids: &Vec<String>, known: &Vec<String>) -> (res: Option<String>)
    ensures
        optional_text(res) == first_unknown(texts(ids@), texts(known@)),
{
    let ghost all = texts(ids@);
    let mut i: usize = 0;
    proof {
        assert(all.skip(0) =~= all);
    }
    while i < ids.len()
        invariant
            i <= ids@.len(),
            all == texts(ids@),
            first_unknown(all, texts(known@)) == first_unknown(all.skip(i as int), texts(known@)),
        decreases ids.len() - i,
    {
        proof {
            assert(all.skip(i as int).drop_first() =~= all.skip(i + 1));
            assert(all.skip(i as int)[0] == ids@[i as int]@);
        }
        if !contains_text(known, ids[i].as_str()) {
            return Some(ids[i].clone());
        }
        i = i + 1;
    }
    None
}

/// Decides on the credentials of an offer: there must be one, and each that is
/// named by id alone must be in the offering issuer's own catalog. An entry that
/// carries its type describes itself and needs no catalog.
pub fn validate_offer_credentials(
    issuer_did: &str,
    credentials: &Vec<CredentialObject>,
    evidence: &CatalogEvidence,
    outbound: &OutboundPolicy,
) -> (res: OfferVerdict)
    ensures
        res@ == offer_verdict(issuer_did@, credentials@, *evidence, outbound@),
{
    if credentials.len() == 0 {
        return OfferVerdict::Reject(ValidationError::EmptyCredentials);
    }
    let sparse = collect_sparse(credentials);
    if sparse.len() == 0 {
        return OfferVerdict::Accept;
    }
    let location = match &evidence.location {
        Some(location) => location,
        None => {
            return OfferVerdict::Need(CatalogStep::Locate(String::from_str(issuer_did)));
        },
    };
    if let Err(error) = outbound.check_did(location) {
        return OfferVerdict::Reject(ValidationError::CatalogUnavailable(error.message()));
    }
    let endpoint = match &evidence.endpoint {
        None => {
            return OfferVerdict::Need(CatalogStep::Resolve(String::from_str(issuer_did)));
        },
        Some(Err(m)) => {
            return OfferVerdict::Reject(ValidationError::CatalogUnavailable(m.clone()));
        },
        Some(Ok(endpoint)) => endpoint,
    };
    let url = String::from_str(endpoint.as_str()).concat("/metadata");
    if let Err(error) = outbound.check_url(url.as_str()) {
        return OfferVerdict::Reject(ValidationError::CatalogUnavailable(error.message()));
    }
    let metadata = match &evidence.reply {
        None => {
            return OfferVerdict::Need(CatalogStep::Fetch(url));
        },
        Some(CatalogReply::Failed(m)) => {
            return OfferVerdict::Reject(ValidationError::CatalogUnavailable(m.clone()));
        },
        Some(CatalogReply::Status(status)) => {
            return OfferVerdict::Reject(
                ValidationError::CatalogUnavailable(
                    String::from_str("issuer metadata endpoint returned HTTP ").concat(
                        status.as_str(),
                    ),
                ),
            );
        },
        Some(CatalogReply::Unreadable(m)) => {
            return OfferVerdict::Reject(ValidationError::CatalogUnavailable(m.clone()));
        },
        Some(CatalogReply::Metadata(metadata)) => metadata,
    };
    let known = collect_catalog(metadata);
    match find_unknown(&sparse, &known) {
        Some(id) => OfferVerdict::Reject(ValidationError::UnknownCredentialId(id)),
        None => OfferVerdict::Accept,
    }
}

/// A message's credentials are verified only where each one's format can be
/// verified and each one's signature held.
pub proof fn law_every_proof_is_verified(
    credentials: Seq<CredentialContainer>,
    evidence: Seq<TokenEvidence>,
    allowed: Set<Seq<char>>,
    i: int,
    k: int,
)
    requires
        proofs_verdict(credentials, evidence, allowed, i) == ProofsView::Verified,
        0 <= i <= k < credentials.len(),
    ensures
        is_jwt_format(credentials[k].format@),
        credentials[k].payload is Text,
        evidence[k].signature matches Some(Ok(_)),
    decreases k - i,
{
    if i < k {
        law_every_proof_is_verified(credentials, evidence, allowed, i + 1, k);
    }
}

/// A credential whose format cannot be verified is refused with nothing else
/// known or asked.
pub proof fn law_unverifiable_format_is_refused_outright(
    format: Seq<char>,
    payload: JsonView,
    evidence: TokenEvidence,
    allowed: Set<Seq<char>>,
)
    requires
        !is_jwt_format(format),
    ensures
        proof_verdict(format, payload, evidence, allowed) == ProofView::Reject(
            ValidationErrorView::UnsupportedCredentialFormat(format),
        ),
{
}

/// Neither a credential issuer's DID nor an offering issuer's catalog is looked
/// up before the outbound policy has passed the place.
pub proof fn law_no_lookup_without_permission(
    format: Seq<char>,
    payload: JsonView,
    token: TokenEvidence,
    issuer: Seq<char>,
    credentials: Seq<CredentialObject>,
    catalog: CatalogEvidence,
    allowed: Set<Seq<char>>,
)
    ensures
        proof_verdict(format, payload, token, allowed) matches ProofView::Need(
            StepView::Resolve(_),
        ) ==> (token.location matches Some(location) && did_refusal(
            allowed,
            location_view(location),
        ) is None),
        offer_verdict(issuer, credentials, catalog, allowed) matches OfferVerdictView::Need(
            CatalogStepView::Resolve(_),
        ) ==> (catalog.location matches Some(location) && did_refusal(
            allowed,
            location_view(location),
        ) is None),
        offer_verdict(issuer, credentials, catalog, allowed) matches OfferVerdictView::Need(
            CatalogStepView::Fetch(url),
        ) ==> url_refusal(allowed, url, url_parts(url)) is None,
{
}

/// The ids named alone are those of the entries without a type.
proof fn lemma_sparse_ids(credentials: Seq<CredentialObject>)
    ensures
        forall|id: Seq<char>| #[trigger]
            sparse_ids(credentials).contains(id) <==> exists|i: int|
                0 <= i < credentials.len() && (#[trigger] credentials[i]).credential_type is None
                    && credentials[i].id@ == id,
    decreases credentials.len(),
{
    if credentials.len() > 0 {
        let rest = credentials.drop_last();
        lemma_sparse_ids(rest);
        let n = credentials.len() - 1;
        assert forall|id: Seq<char>| #[trigger]
            sparse_ids(credentials).contains(id) <==> exists|i: int|
                0 <= i < credentials.len() && (#[trigger] credentials[i]).credential_type is None
                    && credentials[i].id@ == id by {
            let before = sparse_ids(rest);
            if sparse_ids(credentials).contains(id) {
                if before.contains(id) {
                    let i = choose|i: int|
                        0 <= i < rest.len() && (#[trigger] rest[i]).credential_type is None
                            && rest[i].id@ == id;
                    assert(credentials[i].credential_type is None && credentials[i].id@ == id);
                } else {
                    assert(credentials[n].credential_type is None && credentials[n].id@ == id);
                }
            }
            if exists|i: int|
                0 <= i < credentials.len() && (#[trigger] credentials[i]).credential_type is None
                    && credentials[i].id@ == id {
                let i = choose|i: int|
                    0 <= i < credentials.len() && (#[trigger] credentials[i]).credential_type is None
                        && credentials[i].id@ == id;
                if i < n {
                    assert(rest[i].credential_type is None && rest[i].id@ == id);
                    assert(before.contains(id));
                    let m = choose|m: int| 0 <= m < before.len() && before[m] == id;
                    assert(sparse_ids(credentials)[m] == id);
                } else {
                    assert(sparse_ids(credentials)[before.len() as int] == id);
                }
            }
        }
    }
}

/// No id is unknown exactly where all are known.
proof fn lemma_first_unknown(ids: Seq<Seq<char>>, known: Seq<Seq<char>>)
    ensures
        first_unknown(ids, known) is None <==> forall|id: Seq<char>|
            ids.contains(id) ==> known.contains(id),
    decreases ids.len(),
{
    if ids.len() > 0 {
        let rest = ids.drop_first();
        lemma_first_unknown(rest, known);
        assert(ids.contains(ids[0]));
        assert forall|id: Seq<char>| ids.contains(id) <==> id == ids[0] || rest.contains(id) by {
            if ids.contains(id) {
                let k = choose|k: int| 0 <= k < ids.len() && ids[k] == id;
                if k > 0 {
                    assert(rest[k - 1] == id);
                }
            }
            if rest.contains(id) {
                let k = choose|k: int| 0 <= k < rest.len() && rest[k] == id;
                assert(ids[k + 1] == id);
            }
        }
    }
}

/// An offer whose entries all carry a type is accepted without a catalog, and an
/// empty one is never accepted.
pub proof fn law_full_offer_needs_no_catalog(
    issuer: Seq<char>,
    credentials: Seq<CredentialObject>,
    evidence: CatalogEvidence,
    allowed: Set<Seq<char>>,
)
    requires
        forall|i: int| 0 <= i < credentials.len() ==> (#[trigger] credentials[i]).credential_type is Some,
    ensures
        offer_verdict(issuer, credentials, evidence, allowed) == (if credentials.len() == 0 {
            OfferVerdictView::Reject(ValidationErrorView::EmptyCredentials)
        } else {
            OfferVerdictView::Accept
        }),
{
    lemma_sparse_ids(credentials);
    if sparse_ids(credentials).len() > 0 {
        assert(sparse_ids(credentials).contains(sparse_ids(credentials)[0]));
    }
}

/// Once the issuer's catalog is known, an offer is accepted exactly where the
/// catalog holds every id that the offer names alone.
pub proof fn law_sparse_offer_is_held_to_the_catalog(
    issuer: Seq<char>,
    credentials: Seq<CredentialObject>,
    evidence: CatalogEvidence,
    metadata: IssuerMetadata,
    allowed: Set<Seq<char>>,
)
    requires
        credentials.len() > 0,
        evidence.location matches Some(location) && did_refusal(
            allowed,
            location_view(location),
        ) is None,
        evidence.endpoint matches Some(Ok(endpoint)) && url_refusal(
            allowed,
            endpoint@ + "/metadata"@,
            url_parts(endpoint@ + "/metadata"@),
        ) is None,
        evidence.reply == Some(CatalogReply::Metadata(metadata)),
    ensures
        offer_verdict(issuer, credentials, evidence, allowed) == OfferVerdictView::Accept <==> (
        forall|i: int|
            0 <= i < credentials.len() && (#[trigger] credentials[i]).credential_type is None
                ==> catalog_ids(metadata).contains(credentials[i].id@)),
{
    lemma_sparse_ids(credentials);
    let ids = sparse_ids(credentials);
    let known = catalog_ids(metadata);
    lemma_first_unknown(ids, known);
    if forall|i: int|
        0 <= i < credentials.len() && (#[trigger] credentials[i]).credential_type is None
            ==> known.contains(credentials[i].id@) {
        assert forall|id: Seq<char>| ids.contains(id) implies known.contains(id) by {}
    }
    if offer_verdict(issuer, credentials, evidence, allowed) == OfferVerdictView::Accept {
        assert forall|i: int|
            0 <= i < credentials.len() && (
            #[trigger] credentials[i]).credential_type is None implies known.contains(
            credentials[i].id@,
        ) by {
            assert(ids.contains(credentials[i].id@));
        }
    }
}

/// An ASCII format label counts as a JWT's where it holds `jwt` in letters of any
/// case, and only there.
pub proof fn law_ascii_jwt_formats(format: Seq<char>)
    requires
        is_ascii_chars(format),
    ensures
        is_jwt_format(format) == holds_run(ascii_lowered(format), "jwt"@),
{
}

/// A message may be `ISSUED` or `REJECTED`, and a `holderPid` is expected where it
/// is listed or nothing is.
pub proof fn law_statuses_and_holders(
    status: Seq<char>,
    holder_pid: Seq<char>,
    known: Seq<Seq<char>>,
)
    ensures
        is_message_status(status) <==> (status == "ISSUED"@ || status == "REJECTED"@),
        known.len() == 0 ==> is_known_holder(holder_pid, known),
        known.len() > 0 ==> (is_known_holder(holder_pid, known) <==> exists|i: int|
            0 <= i < known.len() && #[trigger] known[i] == holder_pid),
{
}

/// A credential's proof is verified exactly where its format label, in lower case,
/// holds `jwt`, its payload is a text, which decodes to claims with an issuer and a
/// key id, the issuer's location passed the outbound policy, its document was
/// resolved, the key was found in it and the signature holds: whatever else the
/// claims say.
pub proof fn law_proofs_are_verified_exactly(
    format: Seq<char>,
    payload: JsonView,
    evidence: TokenEvidence,
    allowed: Set<Seq<char>>,
)
    ensures
        proof_verdict(format, payload, evidence, allowed) == ProofView::Verified <==> {
            &&& holds_run(lowercased(format), "jwt"@)
            &&& payload is Text
            &&& evidence.decoded matches Some(Ok(decoded)) && decoded.claims.iss is Some
                && decoded.kid is Some
            &&& evidence.location matches Some(location) && did_refusal(
                allowed,
                location_view(location),
            ) is None
            &&& evidence.document matches Some(Ok(_))
            &&& evidence.key matches Some(Ok(_))
            &&& evidence.signature matches Some(Ok(_))
        },
{
}

/// What is decided of a credential whose payload is a JWS that was decoded to
/// claims with an issuer and a key id: each thing is found out in its turn, and
/// only once the outbound policy passed the issuer's location; and what fails
/// refuses the credential.
pub proof fn law_decoded_proof_is_decided_in_order(
    format: Seq<char>,
    jws: Seq<char>,
    evidence: TokenEvidence,
    allowed: Set<Seq<char>>,
    decoded: DecodedToken,
    issuer: Seq<char>,
    kid: Seq<char>,
    location: Result<String, String>,
)
    requires
        holds_run(lowercased(format), "jwt"@),
        evidence.decoded == Some(Ok::<DecodedToken, String>(decoded)),
        decoded.claims@.iss == Some(issuer),
        optional_text(decoded.kid) == Some(kid),
    ensures
        ({
            let verdict = proof_verdict(format, JsonView::Text(jws), evidence, allowed);
            let located = evidence.location == Some(location);
            let refused = did_refusal(allowed, location_view(location));
            let passed = located && refused is None;
            let resolved = passed && (evidence.document matches Some(Ok(_)));
            let found = resolved && (evidence.key matches Some(Ok(_)));
            &&& evidence.location is None ==> verdict == ProofView::Need(StepView::Locate(issuer))
            &&& located && refused is Some ==> verdict == ProofView::Reject(
                ValidationErrorView::UnverifiableProof(outbound_message(refused->0)),
            )
            &&& passed && evidence.document is None ==> verdict == ProofView::Need(
                StepView::Resolve(issuer),
            )
            &&& passed ==> (evidence.document matches Some(Err(m)) ==> verdict
                == ProofView::Reject(ValidationErrorView::UnverifiableProof(m@)))
            &&& resolved && evidence.key is None ==> verdict == ProofView::Need(
                StepView::FindKey(kid),
            )
            &&& resolved ==> (evidence.key matches Some(Err(m)) ==> verdict == ProofView::Reject(
                ValidationErrorView::UnverifiableProof(m@),
            ))
            &&& found && evidence.signature is None ==> verdict == ProofView::Need(
                StepView::CheckSignature,
            )
            &&& found ==> (evidence.signature matches Some(Err(m)) ==> verdict
                == ProofView::Reject(ValidationErrorView::UnverifiableProof(m@)))
            &&& found ==> (evidence.signature matches Some(Ok(_)) ==> verdict
                == ProofView::Verified)
        }),
{
}

/// What is decided of a credential before its payload is decoded to claims with an
/// issuer and a key id.
pub proof fn law_undecoded_proof_is_decoded_first(
    format: Seq<char>,
    jws: Seq<char>,
    other: Seq<char>,
    evidence: TokenEvidence,
    allowed: Set<Seq<char>>,
)
    ensures
        ({
            let jwt = holds_run(lowercased(format), "jwt"@);
            let verdict = proof_verdict(format, JsonView::Text(jws), evidence, allowed);
            &&& !jwt ==> verdict == ProofView::Reject(
                ValidationErrorView::UnsupportedCredentialFormat(format),
            )
            &&& jwt ==> proof_verdict(format, JsonView::Json(other), evidence, allowed)
                == ProofView::Reject(
                ValidationErrorView::UnverifiableProof(
                    "a jwt-format credential's payload must be a JWS string"@,
                ),
            )
            &&& jwt && evidence.decoded is None ==> verdict == ProofView::Need(
                StepView::Decode(jws),
            )
            &&& jwt ==> (evidence.decoded matches Some(Err(m)) ==> verdict == ProofView::Reject(
                ValidationErrorView::UnverifiableProof(m@),
            ))
            &&& jwt ==> (evidence.decoded matches Some(Ok(decoded)) ==> {
                &&& decoded.claims.iss is None ==> verdict == ProofView::Reject(
                    ValidationErrorView::UnverifiableProof("credential has no iss claim"@),
                )
                &&& decoded.claims.iss is Some && decoded.kid is None ==> verdict
                    == ProofView::Reject(
                    ValidationErrorView::UnverifiableProof("credential JWS has no kid header"@),
                )
            })
        }),
{
}

proof fn lemma_proofs_verdict(
    credentials: Seq<CredentialContainer>,
    evidence: Seq<TokenEvidence>,
    allowed: Set<Seq<char>>,
    i: int,
    k: int,
)
    requires
        0 <= i <= k <= credentials.len(),
        forall|j: int|
            i <= j < k ==> proof_verdict(
                (#[trigger] credentials[j]).format@,
                credentials[j].payload@,
                evidence[j],
                allowed,
            ) == ProofView::Verified,
    ensures
        proofs_verdict(credentials, evidence, allowed, i) == proofs_verdict(
            credentials,
            evidence,
            allowed,
            k,
        ),
    decreases k - i,
{
    if i < k {
        assert(proof_verdict(credentials[i].format@, credentials[i].payload@, evidence[i], allowed)
            == ProofView::Verified);
        lemma_proofs_verdict(credentials, evidence, allowed, i + 1, k);
    }
}

/// The credentials of a message are verified where each of them is, however many
/// there are.
pub proof fn law_all_verified_proofs_are_enough(
    credentials: Seq<CredentialContainer>,
    evidence: Seq<TokenEvidence>,
    allowed: Set<Seq<char>>,
)
    requires
        forall|j: int|
            0 <= j < credentials.len() ==> proof_verdict(
                (#[trigger] credentials[j]).format@,
                credentials[j].payload@,
                evidence[j],
                allowed,
            ) == ProofView::Verified,
    ensures
        proofs_verdict(credentials, evidence, allowed, 0) == ProofsView::Verified,
{
    lemma_proofs_verdict(credentials, evidence, allowed, 0, credentials.len() as int);
}

/// The first credential of a message that is not verified decides on the whole
/// message.
pub proof fn law_first_unverified_proof_decides(
    credentials: Seq<CredentialContainer>,
    evidence: Seq<TokenEvidence>,
    allowed: Set<Seq<char>>,
    k: int,
)
    requires
        0 <= k < credentials.len(),
        forall|j: int|
            0 <= j < k ==> proof_verdict(
                (#[trigger] credentials[j]).format@,
                credentials[j].payload@,
                evidence[j],
                allowed,
            ) == ProofView::Verified,
    ensures
        ({
            let one = proof_verdict(
                credentials[k].format@,
                credentials[k].payload@,
                evidence[k],
                allowed,
            );
            let all = proofs_verdict(credentials, evidence, allowed, 0);
            &&& one matches ProofView::Need(step) ==> all == ProofsView::Need(k, step)
            &&& one matches ProofView::Reject(error) ==> all == ProofsView::Reject(error)
        }),
{
    lemma_proofs_verdict(credentials, evidence, allowed, 0, k);
}

/// An offer that names a credential by its id alone: the offering issuer's catalog
/// is found out step by step, and only where the outbound policy passed the place;
/// without the catalog the offer is refused.
pub proof fn law_catalog_is_found_out_in_order(
    issuer: Seq<char>,
    credentials: Seq<CredentialObject>,
    evidence: CatalogEvidence,
    allowed: Set<Seq<char>>,
    k: int,
    location: Result<String, String>,
    endpoint: String,
)
    requires
        0 <= k < credentials.len(),
        credentials[k].credential_type is None,
    ensures
        ({
            let verdict = offer_verdict(issuer, credentials, evidence, allowed);
            let located = evidence.location == Some(location);
            let refused = did_refusal(allowed, location_view(location));
            let passed = located && refused is None;
            let resolved = passed && evidence.endpoint == Some(Ok::<String, String>(endpoint));
            let url = endpoint@ + "/metadata"@;
            let barred = url_refusal(allowed, url, url_parts(url));
            let open = resolved && barred is None;
            let unavailable = |reason: Seq<char>|
                OfferVerdictView::Reject(ValidationErrorView::CatalogUnavailable(reason));
            &&& evidence.location is None ==> verdict == OfferVerdictView::Need(
                CatalogStepView::Locate(issuer),
            )
            &&& located && refused is Some ==> verdict == unavailable(outbound_message(refused->0))
            &&& passed && evidence.endpoint is None ==> verdict == OfferVerdictView::Need(
                CatalogStepView::Resolve(issuer),
            )
            &&& passed ==> (evidence.endpoint matches Some(Err(m)) ==> verdict == unavailable(m@))
            &&& resolved && barred is Some ==> verdict == unavailable(outbound_message(barred->0))
            &&& open && evidence.reply is None ==> verdict == OfferVerdictView::Need(
                CatalogStepView::Fetch(url),
            )
            &&& open ==> (evidence.reply matches Some(CatalogReply::Failed(m)) ==> verdict
                == unavailable(m@))
            &&& open ==> (evidence.reply matches Some(CatalogReply::Status(status)) ==> verdict
                == unavailable("issuer metadata endpoint returned HTTP "@ + status@))
            &&& open ==> (evidence.reply matches Some(CatalogReply::Unreadable(m)) ==> verdict
                == unavailable(m@))
        }),
{
    lemma_sparse_ids(credentials);
    assert(sparse_ids(credentials).contains(credentials[k].id@));
}

/// The first id named alone that the issuer's catalog does not hold is the one that
/// refuses the offer.
pub proof fn law_first_unknown_id_refuses_the_offer(
    issuer: Seq<char>,
    credentials: Seq<CredentialObject>,
    evidence: CatalogEvidence,
    supported: Seq<CredentialObject>,
    metadata: IssuerMetadata,
    allowed: Set<Seq<char>>,
    k: int,
)
    requires
        evidence.location matches Some(location) && did_refusal(
            allowed,
            location_view(location),
        ) is None,
        evidence.endpoint matches Some(Ok(endpoint)) && url_refusal(
            allowed,
            endpoint@ + "/metadata"@,
            url_parts(endpoint@ + "/metadata"@),
        ) is None,
        evidence.reply == Some(CatalogReply::Metadata(metadata)),
        metadata.credentials_supported matches Some(list) && list@ == supported,
        0 <= k < credentials.len(),
        credentials[k].credential_type is None,
        forall|i: int| 0 <= i < supported.len() ==> (#[trigger] supported[i]).id@ != credentials[k].id@,
        forall|j: int|
            0 <= j < k && (#[trigger] credentials[j]).credential_type is None ==> exists|i: int|
                0 <= i < supported.len() && (#[trigger] supported[i]).id@ == credentials[j].id@,
    ensures
        offer_verdict(issuer, credentials, evidence, allowed) == OfferVerdictView::Reject(
            ValidationErrorView::UnknownCredentialId(credentials[k].id@),
        ),
{
    let known = catalog_ids(metadata);
    assert(known.len() == supported.len());
    assert forall|i: int| 0 <= i < supported.len() implies #[trigger] known[i]
        == supported[i].id@ by {}
    let front = credentials.take(k);
    let ids = sparse_ids(credentials);
    lemma_sparse_prefix(credentials, k);
    lemma_sparse_ids(credentials);
    lemma_sparse_ids(front);
    assert(ids.contains(credentials[k].id@));
    assert(!known.contains(credentials[k].id@));
    let before = sparse_ids(front);
    assert forall|m: int| 0 <= m < before.len() implies known.contains(#[trigger] before[m]) by {
        assert(before.contains(before[m]));
        let j = choose|j: int|
            0 <= j < front.len() && (#[trigger] front[j]).credential_type is None && front[j].id@
                == before[m];
        assert(credentials[j] == front[j]);
        let i = choose|i: int|
            0 <= i < supported.len() && (#[trigger] supported[i]).id@ == credentials[j].id@;
        assert(known[i] == before[m]);
    }
    lemma_first_unknown_is(ids, known, before.len() as int);
}

/// The ids named alone start with those of the first entries, and go on with the
/// next entry's where it has no type.
proof fn lemma_sparse_prefix(credentials: Seq<CredentialObject>, k: int)
    requires
        0 <= k < credentials.len(),
        credentials[k].credential_type is None,
    ensures
        ({
            let before = sparse_ids(credentials.take(k));
            let ids = sparse_ids(credentials);
            &&& before.len() < ids.len()
            &&& ids.take(before.len() as int) == before
            &&& ids[before.len() as int] == credentials[k].id@
        }),
    decreases credentials.len(),
{
    let rest = credentials.drop_last();
    if k == credentials.len() - 1 {
        assert(credentials.take(k) =~= rest);
        let before = sparse_ids(rest);
        assert(sparse_ids(credentials).take(before.len() as int) =~= before);
    } else {
        lemma_sparse_prefix(rest, k);
        assert(rest.take(k) =~= credentials.take(k));
        let before = sparse_ids(credentials.take(k));
        assert(sparse_ids(credentials).take(before.len() as int) =~= sparse_ids(rest).take(
            before.len() as int,
        ));
    }
}

/// The first unknown id is the one behind known ids.
proof fn lemma_first_unknown_is(ids: Seq<Seq<char>>, known: Seq<Seq<char>>, k: int)
    requires
        0 <= k < ids.len(),
        !known.contains(ids[k]),
        forall|m: int| 0 <= m < k ==> known.contains(#[trigger] ids.take(k)[m]),
    ensures
        first_unknown(ids, known) == Some(ids[k]),
    decreases k,
{
    if k > 0 {
        assert(known.contains(ids.take(k)[0]));
        let rest = ids.drop_first();
        assert forall|m: int| 0 <= m < k - 1 implies known.contains(
            #[trigger] rest.take(k - 1)[m],
        ) by {
            assert(rest.take(k - 1)[m] == ids.take(k)[m + 1]);
        }
        lemma_first_unknown_is(rest, known, k - 1);
    }
}

/// The ids in a catalog are those of the credentials it lists.
pub proof fn law_catalog_ids_are_those_listed(metadata: IssuerMetadata, id: Seq<char>)
    ensures
        catalog_ids(metadata).contains(id) <==> (metadata.credentials_supported matches Some(list)
            && exists|i: int| 0 <= i < list@.len() && (#[trigger] list@[i]).id@ == id),
{
    if let Some(list) = metadata.credentials_supported {
        let ids = catalog_ids(metadata);
        assert forall|i: int| 0 <= i < list@.len() implies #[trigger] ids[i] == list@[i].id@ by {}
        if exists|i: int| 0 <= i < list@.len() && (#[trigger] list@[i]).id@ == id {
            let i = choose|i: int| 0 <= i < list@.len() && (#[trigger] list@[i]).id@ == id;
            assert(ids[i] == id);
        }
        if ids.contains(id) {
            let i = choose|i: int| 0 <= i < ids.len() && ids[i] == id;
            assert(list@[i].id@ == id);
        }
    }
}

/// What each refusal of a message says, and what it is about where it is about
/// something.
pub proof fn law_validation_refusals_say_why(detail: Seq<char>)
    ensures
        validation_message(ValidationErrorView::InvalidStatus(detail))
            == "credential message status '"@ + detail
            + "' is not one of the recognized values (ISSUED, REJECTED)"@,
        validation_message(ValidationErrorView::UnknownHolderPid(detail)) == "holderPid '"@ + detail
            + "' does not match a request this service was configured to expect"@,
        validation_message(ValidationErrorView::UnsupportedCredentialFormat(detail))
            == "credential format '"@ + detail + "' is not one this service can verify"@,
        validation_message(ValidationErrorView::UnverifiableProof(detail))
            == "a credential's own embedded proof could not be verified: "@ + detail,
        validation_message(ValidationErrorView::EmptyCredentials)
            == "a CredentialOfferMessage must offer at least one credential"@,
        validation_message(ValidationErrorView::UnknownCredentialId(detail))
            == "offered credential id '"@ + detail
            + "' does not match the issuer's own known catalog"@,
        validation_message(ValidationErrorView::CatalogUnavailable(detail))
            == "could not resolve the offering issuer's own credential catalog: "@ + detail,
{
}

/// Errors read as they stand.
pub proof fn law_validation_errors_read_as_they_stand(value: ValidationError)
    ensures
        value matches ValidationError::InvalidStatus(x) ==> value@ == ValidationErrorView::InvalidStatus(x@),
        value matches ValidationError::UnknownHolderPid(x) ==> value@ == ValidationErrorView::UnknownHolderPid(x@),
        value matches ValidationError::UnsupportedCredentialFormat(x) ==> value@ == ValidationErrorView::UnsupportedCredentialFormat(x@),
        value matches ValidationError::UnverifiableProof(x) ==> value@ == ValidationErrorView::UnverifiableProof(x@),
        value is EmptyCredentials ==> value@ == ValidationErrorView::EmptyCredentials,
        value matches ValidationError::UnknownCredentialId(x) ==> value@ == ValidationErrorView::UnknownCredentialId(x@),
        value matches ValidationError::CatalogUnavailable(x) ==> value@ == ValidationErrorView::CatalogUnavailable(x@),
{
}

/// What is decided of a proof reads as it stands.
pub proof fn law_proof_verdicts_read_as_they_stand(value: ProofVerdict)
    ensures
        value matches ProofVerdict::Need(x) ==> value@ == ProofView::Need(x@),
        value is Verified ==> value@ == ProofView::Verified,
        value matches ProofVerdict::Reject(x) ==> value@ == ProofView::Reject(x@),
{
}

/// What is decided of proofs reads as it stands.
pub proof fn law_proofs_verdicts_read_as_they_stand(value: ProofsVerdict)
    ensures
        value matches ProofsVerdict::Need(x, y) ==> value@ == ProofsView::Need(x as int, y@),
        value is Verified ==> value@ == ProofsView::Verified,
        value matches ProofsVerdict::Reject(x) ==> value@ == ProofsView::Reject(x@),
{
}

/// What is decided of an offer reads as it stands.
pub proof fn law_offer_verdicts_read_as_they_stand(value: OfferVerdict)
    ensures
        value matches OfferVerdict::Need(x) ==> value@ == OfferVerdictView::Need(x@),
        value is Accept ==> value@ == OfferVerdictView::Accept,
        value matches OfferVerdict::Reject(x) ==> value@ == OfferVerdictView::Reject(x@),
{
}

/// Steps read as they stand.
pub proof fn law_catalog_steps_read_as_they_stand(value: CatalogStep)
    ensures
        value matches CatalogStep::Locate(x) ==> value@ == CatalogStepView::Locate(x@),
        value matches CatalogStep::Resolve(x) ==> value@ == CatalogStepView::Resolve(x@),
        value matches CatalogStep::Fetch(x) ==> value@ == CatalogStepView::Fetch(x@),
{
}

} // verus!
