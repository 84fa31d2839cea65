//! The Presentation API: which credentials a caller is shown.

use vstd::prelude::*;

use crate::auth::{
    auth_message, bearer_of, bearer_verdict, decodes_to_grant, decodes_to_id, id_claims,
    is_authentic, law_own_grant_is_accepted, law_own_id_token_is_accepted, nested_verdict,
    verify_nested_access_token, TokenVerdict, VerdictView, NBF_LEEWAY_SECS,
};
use crate::evidence::{
    claim_or_empty, claim_text, Claims, ClaimsView, DecodedToken, Step, StepView, TokenEvidence,
};
use crate::identity::ServiceIdentity;
use crate::ids::{fresh_id, is_uuid};
use crate::issued::{
    issued_at, issued_of_types, law_found_by_type, stands_issued, stands_issued_at,
};
use crate::json::{is_nonempty_object, JsonValue, JsonView};
use crate::messages::{CredentialContainer, PresentationQueryMessage, VC_CONTEXT};
use crate::model::{BatchView, EntryView};
use crate::rdf::CredentialGraphError;
use crate::reply::Reply;
use crate::scope::{
    captured_type, default_type, default_types_of, distinct, law_default_scope_names_its_type,
    law_split_gives_back_spaced, law_types_are_those_captured, spaced, split_scope_string, types_of, words,
    DEFAULT_SCOPE_PATTERN, DEFAULT_SCOPE_PREFIX,
};
use crate::state::AppState;
use crate::store::containers_view;
use crate::sts::{
    is_access_token, is_id_token, AccessTokenClaims, IdTokenClaims, StsTokenRequest, TOKEN_TTL_SECS,
};
use crate::text::{contains_text, is_white, texts};

verus! {

/// How long a presentation is valid.
pub const PRESENTATION_TTL_SECS: u64 = 300;

/// A Verifiable Presentation.
#[derive(Debug)]
pub struct Presentation {
    pub context: Vec<String>,
    pub types: Vec<String>,
    pub holder: String,
    pub verifiable_credential: Vec<JsonValue>,
}

/// The claims of a signed presentation.
#[derive(Debug)]
pub struct PresentationClaims {
    pub iss: String,
    pub sub: String,
    pub aud: String,
    pub vp: Presentation,
    pub iat: u64,
    pub exp: u64,
    pub jti: String,
}

/// The payloads of credentials.
pub open spec fn payloads(list: Seq<EntryView>) -> Seq<JsonView> {
    list.map_values(|c: EntryView| c.payload)
}

/// What a list of JSON values holds.
pub open spec fn json_views(list: Seq<JsonValue>) -> Seq<JsonView> {
    list.map_values(|v: JsonValue| v@)
}

/// Whether these are the claims of a presentation of the given payloads, by
/// `holder` to `audience`.
pub open spec fn is_presentation(
    claims: PresentationClaims,
    holder: Seq<char>,
    audience: Seq<char>,
    shown: Seq<JsonView>,
    now: u64,
) -> bool {
    &&& claims.iss@ == holder
    &&& claims.sub@ == holder
    &&& claims.aud@ == audience
    &&& texts(claims.vp.context@) == seq![VC_CONTEXT@]
    &&& texts(claims.vp.types@) == seq!["VerifiablePresentation"@]
    &&& claims.vp.holder@ == holder
    &&& json_views(claims.vp.verifiable_credential@) == shown
    &&& claims.iat == now
    &&& claims.exp == now + PRESENTATION_TTL_SECS
    &&& is_uuid(claims.jti@)
}

/// The claims of a presentation that shows each credential's payload, as it was
/// stored and in the order given, to `audience`.
pub fn build_presentation(
    identity: &ServiceIdentity,
    audience: &str,
    credentials: &Vec<CredentialContainer>,
    now: u64,
) -> (res: PresentationClaims)
    requires
        now <= u64::MAX - PRESENTATION_TTL_SECS,
    ensures
        is_presentation(
            res,
            identity.did(),
            audience@,
            payloads(containers_view(credentials@)),
            now,
        ),
{
    let mut shown: Vec<JsonValue> = Vec::new();
    let mut i: usize = 0;
    while i < credentials.len()
        invariant
            i <= credentials@.len(),
            shown@.len() == i,
            forall|k: int| 0 <= k < i ==> (#[trigger] shown@[k])@ == credentials@[k].payload@,
        decreases credentials.len() - i,
    {
        shown.push(credentials[i].payload.clone());
        i = i + 1;
    }
    let mut context: Vec<String> = Vec::new();
    context.push(String::from_str(VC_CONTEXT));
    let mut types: Vec<String> = Vec::new();
    types.push(String::from_str("VerifiablePresentation"));
    proof {
        assert(json_views(shown@) =~= payloads(containers_view(credentials@)));
        assert(texts(context@) =~= seq![VC_CONTEXT@]);
        assert(texts(types@) =~= seq!["VerifiablePresentation"@]);
    }
    let own = String::from_str(identity.own_did());
    PresentationClaims {
        iss: own.clone(),
        sub: own.clone(),
        aud: String::from_str(audience),
        vp: Presentation { context, types, holder: own, verifiable_credential: shown },
        iat: now,
        exp: now + PRESENTATION_TTL_SECS,
        jti: fresh_id(),
    }
}

/// Why a query is refused as it stands, by HTTP status and body; `None` where it
/// can be answered.
pub open spec fn query_refusal(message: PresentationQueryMessage) -> Option<(u16, Seq<char>)> {
    let has_scope = message.scope@.len() > 0;
    let has_definition = message.presentation_definition matches Some(definition)
        && is_nonempty_object(definition@);
    if message.presentation_definition is Some && !has_definition {
        Some((400, "presentationDefinition must be a non-empty object"@))
    } else if has_scope && has_definition {
        Some(
            (
                400,
                "PresentationQueryMessage must not set both scope and presentationDefinition"@,
            ),
        )
    } else if has_definition {
        Some((501, Seq::empty()))
    } else if !has_scope {
        Some(
            (
                400,
                "PresentationQueryMessage must set a non-empty scope or a presentationDefinition"@,
            ),
        )
    } else {
        None
    }
}

/// Refuses a query that is malformed, ambiguous, empty, or made by a
/// presentation definition, which is not supported.
pub fn check_query(message: &PresentationQueryMessage) -> (res: Result<(), Reply>)
    ensures
        res is Ok == query_refusal(*message) is None,
        res matches Err(reply) ==> query_refusal(*message) == Some((reply.status, reply.body@)),
{
    let has_scope = message.scope.len() > 0;
    let has_definition = match &message.presentation_definition {
        Some(definition) => definition.nonempty_object(),
        None => false,
    };
    if message.presentation_definition.is_some() && !has_definition {
        return Err(Reply::new(400, "presentationDefinition must be a non-empty object"));
    }
    if has_scope && has_definition {
        return Err(
            Reply::new(
                400,
                "PresentationQueryMessage must not set both scope and presentationDefinition",
            ),
        );
    }
    if has_definition {
        return Err(Reply::empty(501));
    }
    if !has_scope {
        return Err(
            Reply::new(
                400,
                "PresentationQueryMessage must set a non-empty scope or a presentationDefinition",
            ),
        );
    }
    Ok(())
}

/// The types that an access token grants: those that the scopes in its `scope`
/// claim name.
pub open spec fn granted_by(pattern: Seq<char>, nested: ClaimsView) -> Seq<Seq<char>> {
    types_of(pattern, words(claim_text(nested.scope)))
}

/// The requested types that are granted.
pub open spec fn permitted(requested: Seq<Seq<char>>, granted: Seq<Seq<char>>) -> Seq<Seq<char>> {
    requested.filter(|t: Seq<char>| granted.contains(t))
}

/// The requested types that are granted.
pub fn effective_types(requested: &Vec<String>, granted: &Vec<String>) -> (res: Vec<String>)
    ensures
        texts(res@) == permitted(texts(requested@), texts(granted@)),
{
    let ghost all = texts(requested@);
    let mut out: Vec<String> = Vec::new();
    let mut i: usize = 0;
    proof {
        reveal(Seq::filter);
        assert(all.take(0) =~= Seq::empty());
    }
    while i < requested.len()
        invariant
            i <= requested@.len(),
            all == texts(requested@),
            texts(out@) == permitted(all.take(i as int), texts(granted@)),
        decreases requested.len() - i,
    {
        proof {
            reveal(Seq::filter);
            assert(all.take(i + 1).drop_last() =~= all.take(i as int));
            assert(all.take(i + 1).last() == requested@[i as int]@);
        }
        if contains_text(granted, requested[i].as_str()) {
            let copy = requested[i].clone();
            proof {
                assert(texts(out@.push(copy)) =~= texts(out@).push(copy@));
            }
            out.push(copy);
        }
        i = i + 1;
    }
    proof {
        assert(all.take(i as int) =~= all);
    }
    out
}

/// What a caller's access token grants, or what is to be done first.
#[derive(Debug)]
pub enum Grant {
    Need(Step),
    Types(Vec<String>),
    Refuse(Reply),
}

/// What a [`Grant`] holds.
pub enum GrantView {
    Need(StepView),
    Types(Seq<Seq<char>>),
    Refuse(u16, Seq<char>),
}

impl View for Grant {
    type V = GrantView;

    open spec fn view(&self) -> GrantView {
        match self {
            Grant::Need(step) => GrantView::Need(step@),
            Grant::Types(types) => GrantView::Types(texts(types@)),
            Grant::Refuse(reply) => GrantView::Refuse(reply.status, reply.body@),
        }
    }
}

/// What a caller's access token grants: nothing where there is none, and a
/// refusal of the whole request where there is one that does not hold.
pub open spec fn grant_of(
    claims: ClaimsView,
    evidence: TokenEvidence,
    pattern: Seq<char>,
    authority: Seq<char>,
    allowed: Set<Seq<char>>,
    now: u64,
) -> GrantView {
    match claims.token {
        None => GrantView::Types(Seq::empty()),
        Some(token) => match nested_verdict(
            token,
            evidence,
            claim_text(claims.iss),
            authority,
            allowed,
            now,
        ) {
            VerdictView::Need(step) => GrantView::Need(step),
            VerdictView::Reject(error) => GrantView::Refuse(401, auth_message(error)),
            VerdictView::Accept(nested) => GrantView::Types(granted_by(pattern, nested)),
        },
    }
}

/// The types that an access token which holds grants under the default scope
/// pattern: nothing where there is none.
pub open spec fn default_grant(claims: ClaimsView, evidence: TokenEvidence) -> Seq<Seq<char>> {
    match (claims.token, evidence.decoded) {
        (Some(_), Some(Ok(decoded))) => default_types_of(words(claim_text(decoded.claims@.scope))),
        _ => Seq::empty(),
    }
}

/// What a caller's access token grants. `claims` are the caller's own, already
/// accepted; `evidence` is what is known of the access token.
pub fn granted_credential_types(
    state: &AppState,
    claims: &Claims,
    evidence: &TokenEvidence,
    now: u64,
) -> (res: Grant)
    ensures
        res@ == grant_of(
            claims@,
            *evidence,
            state.scope_matcher.pattern(),
            state.sts_party.did(),
            state.outbound@,
            now,
        ),
        state.scope_matcher.pattern() == DEFAULT_SCOPE_PATTERN@ ==> (
        res@ matches GrantView::Types(types) ==> types == default_grant(claims@, *evidence)),
{
    let token = match &claims.token {
        None => {
            let none: Vec<String> = Vec::new();
            proof {
                assert(texts(none@) =~= Seq::empty());
            }
            return Grant::Types(none);
        },
        Some(token) => token,
    };
    let caller = claim_or_empty(&claims.iss);
    match verify_nested_access_token(
        token.as_str(),
        evidence,
        caller.as_str(),
        state.sts_party.own_did(),
        &state.outbound,
        now,
    ) {
        TokenVerdict::Need(step) => Grant::Need(step),
        TokenVerdict::Reject(error) => Grant::Refuse(Reply { status: 401, body: error.message() }),
        TokenVerdict::Accept(nested) => {
            let scope = claim_or_empty(&nested.scope);
            let scopes = split_scope_string(scope.as_str());
            Grant::Types(state.scope_matcher.credential_types(&scopes))
        },
    }
}

/// What is decided of a query.
#[derive(Debug)]
pub enum PresentationStep {
    /// Refuse the request with this reply.
    Refuse(Reply),
    /// Find this out about the nested access token.
    Need(Step),
    /// Sign these claims and answer with the result.
    Present(PresentationClaims),
}

/// What a query comes to: a refusal, something to find out, or the types of the
/// credentials to be shown.
pub enum QueryView {
    Refuse(u16, Seq<char>),
    Need(StepView),
    Show(Seq<Seq<char>>),
}

/// What a caller's query comes to.
pub open spec fn query_decision(
    message: PresentationQueryMessage,
    claims: ClaimsView,
    evidence: TokenEvidence,
    pattern: Seq<char>,
    authority: Seq<char>,
    allowed: Set<Seq<char>>,
    now: u64,
) -> QueryView {
    match query_refusal(message) {
        Some((status, body)) => QueryView::Refuse(status, body),
        None => match grant_of(claims, evidence, pattern, authority, allowed, now) {
            GrantView::Need(step) => QueryView::Need(step),
            GrantView::Refuse(status, body) => QueryView::Refuse(status, body),
            GrantView::Types(granted) => QueryView::Show(
                permitted(types_of(pattern, texts(message.scope@)), granted),
            ),
        },
    }
}

/// Whether a presentation shows the payloads of exactly these credentials, in
/// some order.
pub open spec fn shows_issued(
    shown: PresentationClaims,
    holder: Seq<char>,
    audience: Seq<char>,
    credentials: Seq<EntryView>,
    now: u64,
) -> bool {
    exists|found: Seq<EntryView>|
        found.to_multiset() == credentials.to_multiset() && #[trigger] is_presentation(
            shown,
            holder,
            audience,
            payloads(found),
            now,
        )
}

/// Whether a step is what a query comes to. Under the default scope pattern the
/// types that are shown are those that the scopes spell out.
pub open spec fn is_query_step(
    step: PresentationStep,
    state: AppState,
    claims: ClaimsView,
    message: PresentationQueryMessage,
    evidence: TokenEvidence,
    now: u64,
) -> bool {
    let pattern = state.scope_matcher.pattern();
    let decision = query_decision(
        message,
        claims,
        evidence,
        pattern,
        state.sts_party.did(),
        state.outbound@,
        now,
    );
    match step {
        PresentationStep::Refuse(reply) => decision == QueryView::Refuse(reply.status, reply.body@),
        PresentationStep::Need(step) => decision == QueryView::Need(step@),
        PresentationStep::Present(shown) => {
            &&& decision matches QueryView::Show(types) && shows_issued(
                shown,
                state.identity.did(),
                claim_text(claims.iss),
                issued_of_types(state.store.graph@.batches, types),
                now,
            )
            &&& pattern == DEFAULT_SCOPE_PATTERN@ ==> decision == QueryView::Show(
                permitted(
                    default_types_of(texts(message.scope@)),
                    default_grant(claims, evidence),
                ),
            )
        },
    }
}

/// Answers a `PresentationQueryMessage` of a caller whose own token was
/// accepted. What is shown is what the caller asked for and was granted, of the
/// credentials that were issued; asking for more is not an error.
pub fn presentation_query(
    state: &AppState,
    claims: &Claims,
    message: &PresentationQueryMessage,
    evidence: &TokenEvidence,
    now: u64,
) -> (res: Result<PresentationStep, CredentialGraphError>)
    requires
        state.wf(),
        now <= u64::MAX - PRESENTATION_TTL_SECS,
    ensures
        res is Ok,
        res matches Ok(step) ==> is_query_step(step, *state, claims@, *message, *evidence, now),
{
    if let Err(reply) = check_query(message) {
        return Ok(PresentationStep::Refuse(reply));
    }
    let requested = state.scope_matcher.credential_types(&message.scope);
    let granted = match granted_credential_types(state, claims, evidence, now) {
        Grant::Need(step) => {
            return Ok(PresentationStep::Need(step));
        },
        Grant::Refuse(reply) => {
            return Ok(PresentationStep::Refuse(reply));
        },
        Grant::Types(types) => types,
    };
    let types = effective_types(&requested, &granted);
    match state.store.credentials_of_types(&types) {
        Ok(matched) => {
            let caller = claim_or_empty(&claims.iss);
            let shown = build_presentation(&state.identity, caller.as_str(), &matched, now);
            proof {
                let found = containers_view(matched@);
                assert(found.to_multiset() == issued_of_types(
                    state.store.graph@.batches,
                    texts(types@),
                ).to_multiset());
                assert(is_presentation(
                    shown,
                    state.identity.did(),
                    claim_text(claims@.iss),
                    payloads(found),
                    now,
                ));
                assert(shows_issued(
                    shown,
                    state.identity.did(),
                    claim_text(claims@.iss),
                    issued_of_types(state.store.graph@.batches, texts(types@)),
                    now,
                ));
            }
            Ok(PresentationStep::Present(shown))
        },
        Err(error) => Err(error),
    }
}

/// What may be shown was both asked for and granted.
pub proof fn law_shown_types_are_requested_and_granted(
    requested: Seq<Seq<char>>,
    granted: Seq<Seq<char>>,
    t: Seq<char>,
)
    ensures
        permitted(requested, granted).contains(t) <==> requested.contains(t) && granted.contains(t),
{
    let want = |x: Seq<char>| granted.contains(x);
    let out = requested.filter(want);
    if out.contains(t) {
        let k = choose|k: int| 0 <= k < out.len() && out[k] == t;
        requested.lemma_filter_pred(want, k);
        requested.lemma_filter_contains_rev(want, t);
    }
    if requested.contains(t) && granted.contains(t) {
        let k = choose|k: int| 0 <= k < requested.len() && requested[k] == t;
        requested.lemma_filter_contains(want, k);
    }
}

/// Every credential that is shown stands in a batch that was issued, and its type
/// was both asked for and granted.
pub proof fn law_shown_credentials_are_issued_requested_and_granted(
    batches: Seq<BatchView>,
    requested: Seq<Seq<char>>,
    granted: Seq<Seq<char>>,
    c: EntryView,
)
    requires
        issued_of_types(batches, permitted(requested, granted)).contains(c),
    ensures
        requested.contains(c.credential_type),
        granted.contains(c.credential_type),
        exists|i: int, j: int|
            issued_at(batches, permitted(requested, granted), i, j, c),
{
    let types = permitted(requested, granted);
    law_found_by_type(batches, types, c);
    let (i, j) = choose|i: int, j: int| issued_at(batches, types, i, j, c);
    assert(types.contains(c.credential_type));
    law_shown_types_are_requested_and_granted(requested, granted, c.credential_type);
}

/// Without an access token, or with one that names no scope, nothing is shown,
/// whatever is asked for.
pub proof fn law_no_grant_shows_nothing(
    message: PresentationQueryMessage,
    claims: ClaimsView,
    evidence: TokenEvidence,
    pattern: Seq<char>,
    authority: Seq<char>,
    allowed: Set<Seq<char>>,
    now: u64,
)
    requires
        claims.token is None || (evidence.decoded matches Some(Ok(decoded))
            && decoded.claims@.scope is None),
    ensures
        query_decision(
            message,
            claims,
            evidence,
            pattern,
            authority,
            allowed,
            now,
        ) matches QueryView::Show(types) ==> types.len() == 0,
{
    let requested = types_of(pattern, texts(message.scope@));
    let none = Seq::<Seq<char>>::empty();
    assert(none.map_values(|scope: Seq<char>| captured_type(pattern, scope)).len() == 0);
    assert(types_of(pattern, words(Seq::empty())) =~= none);
    let types = permitted(requested, none);
    if types.len() > 0 {
        law_shown_types_are_requested_and_granted(requested, none, types[0]);
    }
}

/// An access token that does not hold refuses the whole request: it never falls
/// back to showing anything.
pub proof fn law_bad_grant_refuses_the_request(
    message: PresentationQueryMessage,
    claims: ClaimsView,
    evidence: TokenEvidence,
    pattern: Seq<char>,
    authority: Seq<char>,
    allowed: Set<Seq<char>>,
    now: u64,
)
    requires
        query_refusal(message) is None,
        claims.token matches Some(token) && nested_verdict(
            token,
            evidence,
            claim_text(claims.iss),
            authority,
            allowed,
            now,
        ) is Reject,
    ensures
        query_decision(message, claims, evidence, pattern, authority, allowed, now) matches QueryView::Refuse(
            status,
            _,
        ) && status == 401,
{
}

/// Credentials that are the same but for their order show the same payloads but
/// for their order.
proof fn lemma_payloads_of_same_credentials(a: Seq<EntryView>, b: Seq<EntryView>)
    requires
        a.to_multiset() == b.to_multiset(),
    ensures
        payloads(a).to_multiset() == payloads(b).to_multiset(),
    decreases a.len(),
{
    broadcast use vstd::seq_lib::group_to_multiset_ensures;

    assert(a.len() == a.to_multiset().len());
    assert(b.len() == b.to_multiset().len());
    if a.len() == 0 {
        assert(a =~= b);
    } else {
        let c = a.last();
        let rest = a.drop_last();
        assert(a =~= rest.push(c));
        assert(a.to_multiset() =~= rest.to_multiset().insert(c));
        assert(b.to_multiset().count(c) > 0);
        let k = choose|k: int| 0 <= k < b.len() && b[k] == c;
        let others = b.remove(k);
        assert(others.to_multiset() =~= b.to_multiset().remove(c));
        assert(others.to_multiset() =~= rest.to_multiset());
        lemma_payloads_of_same_credentials(rest, others);
        assert(payloads(a) =~= payloads(rest).push(c.payload));
        assert(payloads(b).remove(k) =~= payloads(others));
        assert(payloads(b)[k] == c.payload);
        assert(payloads(b).contains(c.payload));
        assert(payloads(b).to_multiset() =~= payloads(others).to_multiset().insert(c.payload));
    }
}

/// What a query that can be answered comes to, where the caller has no access
/// token or one that holds: a presentation to the caller of the payloads, as they
/// are stored, of all issued credentials whose type was both asked for and
/// granted, each as often as it is stored, and of no others.
pub proof fn law_query_shows_exactly_what_was_asked_for_and_granted(
    message: PresentationQueryMessage,
    claims: ClaimsView,
    evidence: TokenEvidence,
    pattern: Seq<char>,
    authority: Seq<char>,
    allowed: Set<Seq<char>>,
    now: u64,
    batches: Seq<BatchView>,
    holder: Seq<char>,
    shown: PresentationClaims,
)
    requires
        query_refusal(message) is None,
        claims.token matches Some(token) ==> nested_verdict(
            token,
            evidence,
            claim_text(claims.iss),
            authority,
            allowed,
            now,
        ) is Accept,
    ensures
        ({
            let requested = types_of(pattern, texts(message.scope@));
            let granted = match (claims.token, evidence.decoded) {
                (Some(_), Some(Ok(decoded))) => granted_by(pattern, decoded.claims@),
                _ => Seq::empty(),
            };
            let types = permitted(requested, granted);
            let found = issued_of_types(batches, types);
            &&& query_decision(message, claims, evidence, pattern, authority, allowed, now)
                == QueryView::Show(types)
            &&& shows_issued(shown, holder, claim_text(claims.iss), found, now) ==> shown.aud@
                == claim_text(claims.iss) && json_views(
                shown.vp.verifiable_credential@,
            ).to_multiset() == payloads(found).to_multiset()
            &&& forall|c: EntryView| #[trigger]
                found.contains(c) <==> requested.contains(c.credential_type) && granted.contains(
                    c.credential_type,
                ) && stands_issued(batches, c)
        }),
{
    let requested = types_of(pattern, texts(message.scope@));
    let granted = match (claims.token, evidence.decoded) {
        (Some(_), Some(Ok(decoded))) => granted_by(pattern, decoded.claims@),
        _ => Seq::empty(),
    };
    let types = permitted(requested, granted);
    let found = issued_of_types(batches, types);
    if shows_issued(shown, holder, claim_text(claims.iss), found, now) {
        let list = choose|list: Seq<EntryView>|
            list.to_multiset() == found.to_multiset() && #[trigger] is_presentation(
                shown,
                holder,
                claim_text(claims.iss),
                payloads(list),
                now,
            );
        lemma_payloads_of_same_credentials(list, found);
    }
    assert forall|c: EntryView| #[trigger]
        found.contains(c) <==> requested.contains(c.credential_type) && granted.contains(
            c.credential_type,
        ) && stands_issued(batches, c) by {
        law_found_by_type(batches, types, c);
        law_shown_types_are_requested_and_granted(requested, granted, c.credential_type);
        if found.contains(c) {
            let (i, j) = choose|i: int, j: int| issued_at(batches, types, i, j, c);
            assert(stands_issued_at(batches, i, j, c));
        }
        if stands_issued(batches, c) && types.contains(c.credential_type) {
            let (i, j) = choose|i: int, j: int| stands_issued_at(batches, i, j, c);
            assert(issued_at(batches, types, i, j, c));
        }
    }
}

/// What the service's own STS mints, its own Presentation API accepts: a token
/// that answers a request addressed to the service itself, presented once before
/// it expires, identifies the STS party, and what is asked for with it is shown
/// as far as the request's scope names it.
pub proof fn law_own_token_shows_what_it_grants(
    header: Option<Seq<char>>,
    id: IdTokenClaims,
    grant: AccessTokenClaims,
    signer: Seq<char>,
    req: StsTokenRequest,
    issued: u64,
    evidence: TokenEvidence,
    nested: TokenEvidence,
    allowed: Set<Seq<char>>,
    now: u64,
    seen: Seq<Seq<char>>,
    message: PresentationQueryMessage,
    pattern: Seq<char>,
)
    requires
        req.audience@ == req.own_service_did@,
        is_id_token(id, signer, req, issued),
        is_access_token(grant, signer, req, issued),
        id.token is Some,
        bearer_of(header) is Some,
        decodes_to_id(evidence, id),
        is_authentic(evidence, allowed),
        decodes_to_grant(nested, grant),
        is_authentic(nested, allowed),
        issued <= now + NBF_LEEWAY_SECS,
        now < issued + TOKEN_TTL_SECS,
        !seen.contains(id.jti@),
        query_refusal(message) is None,
    ensures
        bearer_verdict(
            header,
            evidence,
            req.own_service_did@,
            allowed,
            now,
            seen,
        ) == VerdictView::Accept(id_claims(id)),
        query_decision(message, id_claims(id), nested, pattern, signer, allowed, now)
            == QueryView::Show(
            permitted(
                types_of(pattern, texts(message.scope@)),
                types_of(pattern, words(req.bearer_access_scope->0@)),
            ),
        ),
{
    law_own_id_token_is_accepted(
        header,
        id,
        signer,
        req,
        issued,
        evidence,
        allowed,
        now,
        seen,
    );
    law_own_grant_is_accepted(
        id.token->0@,
        grant,
        signer,
        req,
        issued,
        nested,
        allowed,
        now,
    );
}

/// Under the default pattern, whoever is granted the scope of one type and asks
/// for that scope is shown that type alone.
pub proof fn law_default_scope_shows_its_type(name: Seq<char>)
    requires
        name.len() > 0,
        forall|k: int| 0 <= k < name.len() ==> #[trigger] name[k] != ':' && !is_white(name[k]),
    ensures
        ({
            let scope = DEFAULT_SCOPE_PREFIX@ + name;
            permitted(default_types_of(seq![scope]), default_types_of(words(scope))) == seq![name]
        }),
{
    let scope = DEFAULT_SCOPE_PREFIX@ + name;
    let one = seq![scope];
    let none = Seq::<char>::empty();
    reveal_strlit("org.eclipse.dspace.dcp.vc.type:");
    assert forall|k: int| 0 <= k < scope.len() implies !is_white(#[trigger] scope[k]) by {
        if k >= DEFAULT_SCOPE_PREFIX@.len() {
            assert(scope[k] == name[k - DEFAULT_SCOPE_PREFIX@.len()]);
        }
    }
    law_split_gives_back_spaced(seq![none, none], one);
    assert(one.drop_last() =~= Seq::empty());
    assert(seq![none, none].drop_last() =~= seq![none]);
    assert(spaced(seq![none], Seq::empty()) == none);
    assert(spaced(seq![none, none], one) =~= scope);
    law_default_scope_names_its_type(name, None);
    assert(scope + none =~= scope);
    let captured = one.map_values(|s: Seq<char>| default_type(s));
    assert(captured =~= seq![Some(name)]);
    assert(captured.drop_last() =~= Seq::empty());
    assert(distinct(captured.drop_last()) =~= Seq::empty());
    assert(distinct(captured) =~= seq![name]);
    let types = default_types_of(one);
    assert(types =~= seq![name]);
    reveal(Seq::filter);
    assert(types.contains(types[0]));
    assert(types.drop_last() =~= Seq::empty());
    assert(permitted(types, types) =~= seq![name]);
}

/// A query can be answered exactly where it has no presentation definition and at
/// least one scope, however many. Each other query is refused for its reason: a
/// definition that is not an object with a member, a definition beside scopes, a
/// definition alone, which is not supported, or nothing at all.
pub proof fn law_queries_are_answerable_exactly(message: PresentationQueryMessage)
    ensures
        ({
            let given = message.presentation_definition is Some;
            let object = message.presentation_definition matches Some(JsonValue::Json(text))
                && text@.len() > 2 && text@[0] == '{';
            let scoped = message.scope@.len() > 0;
            &&& query_refusal(message) is None <==> !given && scoped
            &&& given && !object ==> query_refusal(message) == Some(
                (400u16, "presentationDefinition must be a non-empty object"@),
            )
            &&& given && object && scoped ==> query_refusal(message) == Some(
                (
                    400u16,
                    "PresentationQueryMessage must not set both scope and presentationDefinition"@,
                ),
            )
            &&& given && object && !scoped ==> query_refusal(message) == Some(
                (501u16, Seq::<char>::empty()),
            )
            &&& !given && !scoped ==> query_refusal(message) == Some(
                (
                    400u16,
                    "PresentationQueryMessage must set a non-empty scope or a presentationDefinition"@,
                ),
            )
        }),
{
}

/// What a query comes to before anything is shown: one that cannot be answered is
/// refused for its reason; and where the caller has an access token, what that
/// token needs is found out first, and one that does not hold refuses the query.
pub proof fn law_queries_are_decided_in_order(
    message: PresentationQueryMessage,
    claims: ClaimsView,
    evidence: TokenEvidence,
    pattern: Seq<char>,
    authority: Seq<char>,
    allowed: Set<Seq<char>>,
    now: u64,
    token: Seq<char>,
)
    ensures
        ({
            let decision = query_decision(
                message,
                claims,
                evidence,
                pattern,
                authority,
                allowed,
                now,
            );
            let refusal = query_refusal(message);
            let verdict = nested_verdict(
                token,
                evidence,
                claim_text(claims.iss),
                authority,
                allowed,
                now,
            );
            let asked = refusal is None && claims.token == Some(token);
            &&& refusal matches Some(reply) ==> decision == QueryView::Refuse(reply.0, reply.1)
            &&& asked ==> (verdict matches VerdictView::Need(step) ==> decision == QueryView::Need(
                step,
            ))
            &&& asked ==> (verdict matches VerdictView::Reject(error) ==> decision
                == QueryView::Refuse(401, auth_message(error)))
            &&& asked && verdict is Accept ==> decision is Show
            &&& refusal is None && claims.token is None ==> decision is Show
        }),
{
}

/// An access token grants exactly the types that the pattern captures in a word of
/// its scope claim, and what it grants of a query is what both name.
pub proof fn law_grants_are_read_from_the_scope(
    pattern: Seq<char>,
    nested: ClaimsView,
    requested: Seq<Seq<char>>,
    scope: Seq<char>,
    t: Seq<char>,
)
    requires
        nested.scope == Some(scope),
    ensures
        granted_by(pattern, nested).contains(t) <==> exists|i: int|
            0 <= i < words(scope).len() && captured_type(pattern, #[trigger] words(scope)[i]) == Some(
                t,
            ),
        permitted(requested, granted_by(pattern, nested)).contains(t) <==> requested.contains(t)
            && granted_by(pattern, nested).contains(t),
{
    law_types_are_those_captured(pattern, words(scope), t);
    law_shown_types_are_requested_and_granted(requested, granted_by(pattern, nested), t);
}

/// A presentation is the holder's own, addressed to the caller, in the form of a
/// Verifiable Presentation, and valid for five minutes.
pub proof fn law_presentations_are_the_holders(
    shown: PresentationClaims,
    holder: Seq<char>,
    audience: Seq<char>,
    credentials: Seq<EntryView>,
    now: u64,
)
    requires
        shows_issued(shown, holder, audience, credentials, now),
    ensures
        shown.iss@ == holder,
        shown.sub@ == holder,
        shown.aud@ == audience,
        shown.vp.holder@ == holder,
        texts(shown.vp.context@) == seq!["https://www.w3.org/2018/credentials/v1"@],
        texts(shown.vp.types@) == seq!["VerifiablePresentation"@],
        shown.iat == now,
        shown.exp == now + 300,
        shown.jti@.len() == 36,
        shown.vp.verifiable_credential@.len() == credentials.len(),
        json_views(shown.vp.verifiable_credential@).to_multiset() == credentials.map_values(
            |c: EntryView| c.payload,
        ).to_multiset(),
{
    let found = choose|found: Seq<EntryView>|
        found.to_multiset() == credentials.to_multiset() && #[trigger] is_presentation(
            shown,
            holder,
            audience,
            payloads(found),
            now,
        );
    lemma_payloads_of_same_credentials(found, credentials);
    vstd::seq_lib::to_multiset_len(found);
    vstd::seq_lib::to_multiset_len(credentials);
    assert(json_views(shown.vp.verifiable_credential@).len()
        == shown.vp.verifiable_credential@.len());
    assert(payloads(credentials) =~= credentials.map_values(|c: EntryView| c.payload));
}

/// A presentation that is built of credentials shows each one's payload, in the
/// order given.
pub proof fn law_presentations_show_each_payload(
    shown: PresentationClaims,
    holder: Seq<char>,
    audience: Seq<char>,
    credentials: Seq<EntryView>,
    now: u64,
    i: int,
)
    requires
        is_presentation(shown, holder, audience, payloads(credentials), now),
        0 <= i < credentials.len(),
    ensures
        shown.vp.verifiable_credential@.len() == credentials.len(),
        shown.vp.verifiable_credential@[i]@ == credentials[i].payload,
{
    assert(json_views(shown.vp.verifiable_credential@)[i] == payloads(credentials)[i]);
    assert(json_views(shown.vp.verifiable_credential@).len() == credentials.len());
}

/// How a query is answered: refused for the reason it has, asked after, or
/// answered with a presentation by the service, to the caller, of all issued
/// credentials whose type was asked for and granted and of no others.
pub proof fn law_query_steps(
    step: PresentationStep,
    state: AppState,
    claims: ClaimsView,
    message: PresentationQueryMessage,
    evidence: TokenEvidence,
    now: u64,
)
    requires
        is_query_step(step, state, claims, message, evidence, now),
    ensures
        ({
            let decision = query_decision(
                message,
                claims,
                evidence,
                state.scope_matcher.pattern(),
                state.sts_party.did@,
                state.outbound@,
                now,
            );
            &&& decision matches QueryView::Refuse(status, body) ==> {
                step matches PresentationStep::Refuse(reply) && reply.status == status
                    && reply.body@ == body
            }
            &&& decision matches QueryView::Need(next) ==> {
                step matches PresentationStep::Need(asked) && asked@ == next
            }
            &&& decision matches QueryView::Show(types) ==> {
                step matches PresentationStep::Present(shown) && shown.iss@ == state.identity.did@
                    && shown.vp.holder@ == state.identity.did@ && shown.aud@ == claim_text(
                    claims.iss,
                ) && json_views(shown.vp.verifiable_credential@).to_multiset() == payloads(
                    issued_of_types(state.store.graph@.batches, types),
                ).to_multiset()
            }
        }),
{
    if let PresentationStep::Present(shown) = step {
        let types = query_decision(
            message,
            claims,
            evidence,
            state.scope_matcher.pattern(),
            state.sts_party.did@,
            state.outbound@,
            now,
        )->Show_0;
        let credentials = issued_of_types(state.store.graph@.batches, types);
        law_presentations_are_the_holders(
            shown,
            state.identity.did@,
            claim_text(claims.iss),
            credentials,
            now,
        );
        assert(payloads(credentials) =~= credentials.map_values(|c: EntryView| c.payload));
    }
}

/// What is asked for is gone through in order, and each type is kept where it is
/// granted.
pub proof fn law_requested_types_are_kept_in_order(
    requested: Seq<Seq<char>>,
    granted: Seq<Seq<char>>,
    t: Seq<char>,
)
    ensures
        permitted(Seq::empty(), granted) == Seq::<Seq<char>>::empty(),
        granted.contains(t) ==> permitted(requested.push(t), granted) == permitted(
            requested,
            granted,
        ).push(t),
        !granted.contains(t) ==> permitted(requested.push(t), granted) == permitted(
            requested,
            granted,
        ),
{
    reveal(Seq::filter);
    assert(requested.push(t).drop_last() =~= requested);
    assert(requested.push(t).last() == t);
}

/// Under the default pattern, what an access token that holds grants is what the
/// words of its scope claim spell out; without one, nothing is granted.
pub proof fn law_default_grants_are_spelled_out(
    claims: ClaimsView,
    evidence: TokenEvidence,
    decoded: DecodedToken,
    t: Seq<char>,
)
    ensures
        claims.token is None ==> default_grant(claims, evidence).len() == 0,
        evidence.decoded == Some(Ok::<DecodedToken, String>(decoded))
            && decoded.claims.scope is None ==> default_grant(claims, evidence).len() == 0,
        claims.token is Some && evidence.decoded == Some(Ok::<DecodedToken, String>(decoded))
            && decoded.claims.scope is Some ==> (default_grant(claims, evidence).contains(t)
            <==> exists|i: int|
            0 <= i < words(decoded.claims.scope->0@).len() && default_type(
                #[trigger] words(decoded.claims.scope->0@)[i],
            ) == Some(t)),
{
    let none = Seq::<Seq<char>>::empty();
    assert(none.map_values(|scope: Seq<char>| default_type(scope)).len() == 0);
    assert(default_types_of(words(Seq::empty())) =~= none);
    if decoded.claims.scope is Some {
        law_types_are_those_captured(Seq::empty(), words(decoded.claims.scope->0@), t);
    }
}

/// Payloads are those of the credentials, one by one.
pub proof fn law_payloads_one_by_one(list: Seq<EntryView>, values: Seq<JsonValue>, i: int)
    ensures
        payloads(list).len() == list.len(),
        0 <= i < list.len() ==> payloads(list)[i] == list[i].payload,
        json_views(values).len() == values.len(),
        0 <= i < values.len() ==> json_views(values)[i] == values[i]@,
{
}

/// Under the default pattern, a type is shown exactly where a scope of the query
/// spells it out and the access token grants it.
pub proof fn law_default_queries_show_what_they_spell_out(
    step: PresentationStep,
    state: AppState,
    claims: ClaimsView,
    message: PresentationQueryMessage,
    evidence: TokenEvidence,
    now: u64,
    t: Seq<char>,
)
    requires
        is_query_step(step, state, claims, message, evidence, now),
        step is Present,
        state.scope_matcher.pattern() == DEFAULT_SCOPE_PATTERN@,
    ensures
        query_decision(
            message,
            claims,
            evidence,
            state.scope_matcher.pattern(),
            state.sts_party.did@,
            state.outbound@,
            now,
        ) matches QueryView::Show(types) && (types.contains(t) <==> default_grant(
            claims,
            evidence,
        ).contains(t) && exists|i: int|
            0 <= i < message.scope@.len() && default_type((#[trigger] message.scope@[i])@) == Some(
                t,
            )),
{
    let scopes = texts(message.scope@);
    law_types_are_those_captured(Seq::empty(), scopes, t);
    law_shown_types_are_requested_and_granted(
        default_types_of(scopes),
        default_grant(claims, evidence),
        t,
    );
    if exists|i: int| 0 <= i < scopes.len() && default_type(#[trigger] scopes[i]) == Some(t) {
        let i = choose|i: int| 0 <= i < scopes.len() && default_type(#[trigger] scopes[i]) == Some(t);
        assert(default_type(message.scope@[i]@) == Some(t));
    }
    if exists|i: int|
        0 <= i < message.scope@.len() && default_type((#[trigger] message.scope@[i])@) == Some(t) {
        let i = choose|i: int|
            0 <= i < message.scope@.len() && default_type((#[trigger] message.scope@[i])@) == Some(
                t,
            );
        assert(scopes[i] == message.scope@[i]@);
    }
}

} // verus!
