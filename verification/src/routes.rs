//! The routes that ask who calls. Each identifies its caller by the token in the
//! `Authorization` header first: a caller that is refused is answered 401 and
//! changes nothing, whatever else the request holds.

use vstd::prelude::*;

use crate::auth::{
    auth_message, bearer_of, bearer_verdict, decodes_to_grant, decodes_to_id, id_claims,
    is_authentic, law_own_grant_is_accepted, seen_after, verify_bearer_token, TokenVerdict,
    VerdictView, NBF_LEEWAY_SECS,
};
use crate::evidence::{Claims, ClaimsView, Step, TokenEvidence};
use crate::handlers::{
    credential_offer, is_offer_step, is_storage_step, storage_write, OfferStep, StorageStep,
};
use crate::issued::issued_of_types;
use crate::issuance::{credential_request, is_request_outcome, RequestOutcome};
use crate::layout::MAX_ORDER;
use crate::messages::{
    CredentialMessage, CredentialOfferMessage, CredentialRequestMessage, PresentationQueryMessage,
};
use crate::presentation::{
    is_query_step, json_views, law_default_scope_shows_its_type, law_own_token_shows_what_it_grants,
    law_query_shows_exactly_what_was_asked_for_and_granted, payloads, presentation_query,
    query_refusal, PresentationStep, PRESENTATION_TTL_SECS,
};
use crate::rdf::CredentialGraphError;
use crate::reply::{auth_error_response, Reply};
use crate::scope::{DEFAULT_SCOPE_PATTERN, DEFAULT_SCOPE_PREFIX};
use crate::state::AppState;
use crate::sts::{
    is_access_token, is_id_token, AccessTokenClaims, IdTokenClaims, StsTokenRequest, TOKEN_TTL_SECS,
};
use crate::text::{is_white, optional_text, texts};
use crate::validation::CatalogEvidence;

verus! {

/// A caller whose token was accepted. Only a request that accepted it gives one
/// out.
#[derive(Debug)]
pub struct Identified {
    claims: Claims,
}

impl View for Identified {
    type V = ClaimsView;

    closed spec fn view(&self) -> ClaimsView {
        self.claims@
    }
}

impl Identified {
    /// The claims of the caller's token.
    pub fn claims(&self) -> (res: &Claims)
        ensures
            res@ == self@,
    {
        &self.claims
    }
}

/// Who makes a request.
#[derive(Debug)]
pub enum Caller {
    /// Whoever the token in this `Authorization` header identifies; of the token,
    /// this much is known.
    Presents(Option<String>, TokenEvidence),
    /// A caller whose token was accepted in an earlier step of the same request.
    Known(Identified),
}

/// What a request comes to.
#[derive(Debug)]
pub enum Routed<S> {
    /// Find this out about the caller's token.
    Identify(Step),
    /// Refuse the caller with this reply.
    Refuse(Reply),
    /// The caller is known, and this is decided of the request.
    Decided(Identified, S),
}

/// What is decided of a caller.
pub open spec fn admission(caller: Caller, state: AppState, now: u64) -> VerdictView {
    match caller {
        Caller::Presents(header, evidence) => bearer_verdict(
            optional_text(header),
            evidence,
            state.identity.did(),
            state.outbound@,
            now,
            state.seen_jti@,
        ),
        Caller::Known(known) => VerdictView::Accept(known@),
    }
}

/// The `jti` values that are remembered once a caller was admitted.
pub open spec fn seen_then(caller: Caller, state: AppState, claims: ClaimsView) -> Seq<Seq<char>> {
    match caller {
        Caller::Presents(_, _) => seen_after(state.seen_jti@, claims),
        Caller::Known(_) => state.seen_jti@,
    }
}

/// Whether two states differ at most in what requests change: the store, the
/// tracked requests and the remembered `jti` values.
pub open spec fn same_settings(a: AppState, b: AppState) -> bool {
    &&& a.config == b.config
    &&& a.identity == b.identity
    &&& a.sts_party == b.sts_party
    &&& a.sts_config == b.sts_config
    &&& a.scope_matcher == b.scope_matcher
    &&& a.supported_credential == b.supported_credential
    &&& a.outbound == b.outbound
}

/// Whether a request is answered as its caller demands. One who is not identified
/// yet, or refused, leaves the state as it is: nothing is stored, recorded,
/// tracked or remembered. One who is refused is answered 401 with the reason.
pub open spec fn is_routed<S>(
    routed: Routed<S>,
    caller: Caller,
    before: AppState,
    after: AppState,
    now: u64,
) -> bool {
    match admission(caller, before, now) {
        VerdictView::Need(step) => {
            &&& routed matches Routed::Identify(next)
            &&& next@ == step
            &&& after == before
        },
        VerdictView::Reject(error) => {
            &&& routed matches Routed::Refuse(reply)
            &&& reply.status == 401
            &&& reply.body@ == auth_message(error)
            &&& after == before
        },
        VerdictView::Accept(claims) => {
            &&& routed matches Routed::Decided(known, _)
            &&& known@ == claims
            &&& same_settings(after, before)
            &&& after.seen_jti@ == seen_then(caller, before, claims)
        },
    }
}

/// Identifies a caller, and remembers the `jti` of a token that is accepted.
fn identify(state: &mut AppState, caller: &Caller, now: u64) -> (res: TokenVerdict)
    requires
        old(state).wf(),
    ensures
        final(state).wf(),
        res@ == admission(*caller, *old(state), now),
        !(res is Accept) ==> *final(state) == *old(state),
        res matches TokenVerdict::Accept(claims) ==> {
            &&& same_settings(*final(state), *old(state))
            &&& final(state).store == old(state).store
            &&& final(state).requests == old(state).requests
            &&& final(state).seen_jti@ == seen_then(*caller, *old(state), claims@)
        },
{
    match caller {
        Caller::Presents(header, evidence) => verify_bearer_token(
            header,
            evidence,
            state.identity.own_did(),
            &state.outbound,
            now,
            &mut state.seen_jti,
        ),
        Caller::Known(known) => TokenVerdict::Accept(known.claims.clone()),
    }
}

/// The Storage API: a caller that is admitted may store a `CredentialMessage`.
pub fn storage_request(
    state: &mut AppState,
    caller: &Caller,
    message: &CredentialMessage,
    evidence: &Vec<TokenEvidence>,
    now: u64,
) -> (res: Result<Routed<StorageStep>, CredentialGraphError>)
    requires
        old(state).wf(),
        old(state).store.graph.room() > 0,
        evidence@.len() == message.credentials@.len(),
        message.credentials@.len() <= MAX_ORDER,
    ensures
        final(state).wf(),
        final(state).requests == old(state).requests,
        res is Ok,
        res matches Ok(routed) ==> is_routed(routed, *caller, *old(state), *final(state), now),
        res matches Ok(Routed::Decided(known, step)) ==> is_storage_step(
            step,
            *old(state),
            *final(state),
            known@,
            *message,
            evidence@,
        ),
{
    match identify(state, caller, now) {
        TokenVerdict::Need(step) => Ok(Routed::Identify(step)),
        TokenVerdict::Reject(error) => Ok(Routed::Refuse(auth_error_response(&error))),
        TokenVerdict::Accept(claims) => match storage_write(state, &claims, message, evidence) {
            Ok(step) => Ok(Routed::Decided(Identified { claims }, step)),
            Err(error) => Err(error),
        },
    }
}

/// The Credential Offer API: a caller that is admitted may offer credentials.
pub fn offer_request(
    state: &mut AppState,
    caller: &Caller,
    message: &CredentialOfferMessage,
    evidence: &CatalogEvidence,
    now: u64,
) -> (res: Result<Routed<OfferStep>, CredentialGraphError>)
    requires
        old(state).wf(),
        old(state).store.graph.room() > 0,
        message.credentials@.len() <= MAX_ORDER,
    ensures
        final(state).wf(),
        final(state).requests == old(state).requests,
        res is Ok,
        res matches Ok(routed) ==> is_routed(routed, *caller, *old(state), *final(state), now),
        res matches Ok(Routed::Decided(known, step)) ==> is_offer_step(
            step,
            *old(state),
            *final(state),
            known@,
            *message,
            *evidence,
        ),
{
    match identify(state, caller, now) {
        TokenVerdict::Need(step) => Ok(Routed::Identify(step)),
        TokenVerdict::Reject(error) => Ok(Routed::Refuse(auth_error_response(&error))),
        TokenVerdict::Accept(claims) => match credential_offer(state, &claims, message, evidence) {
            Ok(step) => Ok(Routed::Decided(Identified { claims }, step)),
            Err(error) => Err(error),
        },
    }
}

/// The Presentation API: a caller that is admitted may ask for credentials.
/// `nested` is what is known of the access token in the caller's own.
pub fn presentation_request(
    state: &mut AppState,
    caller: &Caller,
    message: &PresentationQueryMessage,
    nested: &TokenEvidence,
    now: u64,
) -> (res: Result<Routed<PresentationStep>, CredentialGraphError>)
    requires
        old(state).wf(),
        now <= u64::MAX - PRESENTATION_TTL_SECS,
    ensures
        final(state).wf(),
        final(state).store == old(state).store,
        final(state).requests == old(state).requests,
        res is Ok,
        res matches Ok(routed) ==> is_routed(routed, *caller, *old(state), *final(state), now),
        res matches Ok(Routed::Decided(known, step)) ==> is_query_step(
            step,
            *old(state),
            known@,
            *message,
            *nested,
            now,
        ),
{
    match identify(state, caller, now) {
        TokenVerdict::Need(step) => Ok(Routed::Identify(step)),
        TokenVerdict::Reject(error) => Ok(Routed::Refuse(auth_error_response(&error))),
        TokenVerdict::Accept(claims) => match presentation_query(
            state,
            &claims,
            message,
            nested,
            now,
        ) {
            Ok(step) => Ok(Routed::Decided(Identified { claims }, step)),
            Err(error) => Err(error),
        },
    }
}

/// The Credential Request API: a caller that is admitted may ask for a credential
/// to be issued.
pub fn issuance_request(
    state: &mut AppState,
    caller: &Caller,
    message: &CredentialRequestMessage,
    now: u64,
) -> (res: Routed<RequestOutcome>)
    requires
        old(state).wf(),
    ensures
        final(state).wf(),
        final(state).store == old(state).store,
        is_routed(res, *caller, *old(state), *final(state), now),
        res matches Routed::Decided(known, outcome) ==> is_request_outcome(
            outcome,
            *old(state),
            *final(state),
            known@,
            *message,
        ),
{
    match identify(state, caller, now) {
        TokenVerdict::Need(step) => Routed::Identify(step),
        TokenVerdict::Reject(error) => Routed::Refuse(auth_error_response(&error)),
        TokenVerdict::Accept(claims) => {
            let outcome = credential_request(state, &claims, message);
            Routed::Decided(Identified { claims }, outcome)
        },
    }
}

/// What the service's own STS mints, its own Presentation API accepts: under the
/// default scope pattern, whoever presents, once and before it expires, the token
/// that answers a request addressed to the service for the scope of one type, and
/// asks for that scope, is identified as the STS party and shown the payloads of
/// all issued credentials of that type, each as often as it is stored, and of no
/// others.
pub proof fn law_own_token_shows_credentials_of_its_type(
    state: AppState,
    req: StsTokenRequest,
    id: IdTokenClaims,
    grant: AccessTokenClaims,
    issued: u64,
    header: Option<String>,
    evidence: TokenEvidence,
    nested: TokenEvidence,
    now: u64,
    message: PresentationQueryMessage,
    name: Seq<char>,
    step: PresentationStep,
)
    requires
        state.scope_matcher.pattern() == DEFAULT_SCOPE_PATTERN@,
        req.audience@ == state.identity.did(),
        req.own_service_did@ == state.identity.did(),
        is_id_token(id, state.sts_party.did(), req, issued),
        is_access_token(grant, state.sts_party.did(), req, issued),
        id.token is Some,
        bearer_of(optional_text(header)) is Some,
        decodes_to_id(evidence, id),
        is_authentic(evidence, state.outbound@),
        decodes_to_grant(nested, grant),
        is_authentic(nested, state.outbound@),
        issued <= now + NBF_LEEWAY_SECS,
        now < issued + TOKEN_TTL_SECS,
        !state.seen_jti@.contains(id.jti@),
        name.len() > 0,
        forall|k: int| 0 <= k < name.len() ==> #[trigger] name[k] != ':' && !is_white(name[k]),
        req.bearer_access_scope matches Some(scope) && scope@ == DEFAULT_SCOPE_PREFIX@ + name,
        texts(message.scope@) == seq![DEFAULT_SCOPE_PREFIX@ + name],
        message.presentation_definition is None,
        is_query_step(step, state, id_claims(id), message, nested, now),
    ensures
        admission(Caller::Presents(header, evidence), state, now) == VerdictView::Accept(
            id_claims(id),
        ),
        step matches PresentationStep::Present(shown) && shown.aud@ == state.sts_party.did()
            && json_views(shown.vp.verifiable_credential@).to_multiset() == payloads(
            issued_of_types(state.store.graph@.batches, seq![name]),
        ).to_multiset(),
{
    let pattern = state.scope_matcher.pattern();
    let signer = state.sts_party.did();
    let claims = id_claims(id);
    assert(texts(message.scope@).len() == 1);
    assert(query_refusal(message) is None);
    law_own_token_shows_what_it_grants(
        optional_text(header),
        id,
        grant,
        signer,
        req,
        issued,
        evidence,
        nested,
        state.outbound@,
        now,
        state.seen_jti@,
        message,
        pattern,
    );
    law_own_grant_is_accepted(
        id.token->0@,
        grant,
        signer,
        req,
        issued,
        nested,
        state.outbound@,
        now,
    );
    law_default_scope_shows_its_type(name);
    match step {
        PresentationStep::Present(shown) => {
            law_query_shows_exactly_what_was_asked_for_and_granted(
                message,
                claims,
                nested,
                pattern,
                signer,
                state.outbound@,
                now,
                state.store.graph@.batches,
                state.identity.did(),
                shown,
            );
        },
        _ => {},
    }
}

/// Whoever is refused is answered 401, with the reason, and changes nothing; of
/// whoever is not known yet, what is to be found out is asked, and nothing changes;
/// and whoever is accepted is known by the claims of their own token, whose `jti`
/// is remembered. A caller that is known already is not asked again.
pub proof fn law_callers_are_identified_first<S>(
    routed: Routed<S>,
    header: Option<String>,
    evidence: TokenEvidence,
    known: Identified,
    before: AppState,
    after: AppState,
    now: u64,
)
    ensures
        ({
            let presents = Caller::Presents(header, evidence);
            let verdict = bearer_verdict(
                optional_text(header),
                evidence,
                before.identity.did@,
                before.outbound@,
                now,
                before.seen_jti@,
            );
            &&& is_routed(routed, presents, before, after, now) ==> {
                &&& verdict matches VerdictView::Reject(error) ==> {
                    &&& routed matches Routed::Refuse(reply) && reply.status == 401 && reply.body@
                        == auth_message(error)
                    &&& after == before
                }
                &&& verdict matches VerdictView::Need(step) ==> {
                    &&& routed matches Routed::Identify(asked) && asked@ == step
                    &&& after == before
                }
                &&& verdict matches VerdictView::Accept(claims) ==> {
                    &&& routed matches Routed::Decided(caller, _) && caller@ == claims
                    &&& after.seen_jti@ == seen_after(before.seen_jti@, claims)
                }
            }
            &&& is_routed(routed, Caller::Known(known), before, after, now) ==> {
                &&& routed matches Routed::Decided(caller, _) && caller@ == known@
                &&& after.seen_jti@ == before.seen_jti@
            }
            &&& is_routed(routed, presents, before, after, now) || is_routed(
                routed,
                Caller::Known(known),
                before,
                after,
                now,
            ) ==> {
                &&& after.config == before.config
                &&& after.identity == before.identity
                &&& after.sts_party == before.sts_party
                &&& after.sts_config == before.sts_config
                &&& after.scope_matcher == before.scope_matcher
                &&& after.supported_credential == before.supported_credential
                &&& after.outbound == before.outbound
            }
        }),
{
}

} // verus!
