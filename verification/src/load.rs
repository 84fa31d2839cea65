//! Tokens and messages for a load test that plays an issuer and a verifier
//! against a running Credential Service.

use vstd::prelude::*;

use crate::ids::{fresh_id, is_uuid};
use crate::json::{JsonValue, JsonView};
use crate::messages::{
    credential_message_type, dcp_context, CredentialContainer, CredentialMessage, DCP_CONTEXT,
    VC_CONTEXT,
};
use crate::sts::IdTokenClaims;
use crate::text::texts;

verus! {

/// How long a minted token is valid: less than the access token in it.
pub const ENVELOPE_TTL_SECS: u64 = 250;

/// How long a seeded credential is valid.
pub const SEED_TTL_SECS: u64 = 31_536_000;

/// How often a server that was just started is asked whether it is ready.
pub const READY_ATTEMPTS: u32 = 50;

/// Whether to ask once more, after this many attempts that failed.
pub fn keep_waiting(tried: u32) -> (res: bool)
    ensures
        res == (tried < READY_ATTEMPTS),
{
    tried < READY_ATTEMPTS
}

/// How many workers share `n` tokens on `cores` cores: no more than there are
/// tokens, and at least one.
pub open spec fn worker_count(n: nat, cores: nat) -> nat {
    let most = if n == 0 {
        1
    } else {
        n
    };
    if cores < most {
        cores
    } else {
        most
    }
}

/// How many of `n` tokens worker `i` of `threads` mints: an even share, and one
/// more for each of the first workers while there is a remainder.
pub open spec fn share_of(n: nat, threads: nat, i: nat) -> nat
    recommends
        threads > 0,
{
    n / threads + if i < n % threads {
        1nat
    } else {
        0nat
    }
}

/// The sum of a list.
pub open spec fn total(list: Seq<usize>) -> nat
    decreases list.len(),
{
    if list.len() == 0 {
        0
    } else {
        total(list.drop_last()) + list.last() as nat
    }
}

/// The first `i` shares of `n` tokens.
proof fn lemma_total_shares(list: Seq<usize>, n: nat, threads: nat)
    requires
        threads > 0,
        list.len() <= threads,
        forall|k: int| 0 <= k < list.len() ==> (#[trigger] list[k]) as nat == share_of(
            n,
            threads,
            k as nat,
        ),
    ensures
        total(list) == (n / threads) * list.len() + if list.len() < n % threads {
            list.len()
        } else {
            n % threads
        },
    decreases list.len(),
{
    if list.len() > 0 {
        let rest = list.drop_last();
        lemma_total_shares(rest, n, threads);
        let q = n / threads;
        let k = list.len();
        assert(list.last() == list[k - 1]);
        assert(q * k == q * (k - 1) + q) by (nonlinear_arith)
            requires
                k >= 1,
        ;
    }
}

/// The shares of `n` tokens among the workers that `cores` cores allow. Together
/// they are `n`.
pub fn worker_shares(n: usize, cores: usize) -> (res: Vec<usize>)
    requires
        cores > 0,
    ensures
        res@.len() == worker_count(n as nat, cores as nat),
        forall|i: int|
            0 <= i < res@.len() ==> (#[trigger] res@[i]) as nat == share_of(
                n as nat,
                res@.len(),
                i as nat,
            ),
        total(res@) == n,
{
    let most: usize = if n == 0 {
        1
    } else {
        n
    };
    let threads: usize = if cores < most {
        cores
    } else {
        most
    };
    let base: usize = n / threads;
    let remainder: usize = n % threads;
    proof {
        assert(base * threads + remainder == n) by (nonlinear_arith)
            requires
                base == n / threads,
                remainder == n % threads,
                threads > 0,
        ;
        assert(remainder > 0 ==> base < n) by (nonlinear_arith)
            requires
                base * threads + remainder == n,
                threads > 0,
                base >= 0,
        ;
    }
    let mut shares: Vec<usize> = Vec::new();
    let mut i: usize = 0;
    while i < threads
        invariant
            i <= threads,
            threads > 0,
            base == n as nat / threads as nat,
            remainder == n as nat % threads as nat,
            remainder > 0 ==> base < n,
            shares@.len() == i,
            forall|k: int|
                0 <= k < i ==> (#[trigger] shares@[k]) as nat == share_of(
                    n as nat,
                    threads as nat,
                    k as nat,
                ),
        decreases threads - i,
    {
        let extra: usize = if i < remainder {
            1
        } else {
            0
        };
        shares.push(base + extra);
        i = i + 1;
    }
    proof {
        lemma_total_shares(shares@, n as nat, threads as nat);
    }
    shares
}

/// No two workers' shares differ by more than one.
pub proof fn law_shares_are_even(n: nat, threads: nat, i: nat, j: nat)
    requires
        threads > 0,
    ensures
        share_of(n, threads, i) <= share_of(n, threads, j) + 1,
{
}

/// Whether these are the claims of a verifier's token for a target.
pub open spec fn is_envelope(
    claims: IdTokenClaims,
    verifier: Seq<char>,
    target: Seq<char>,
    nested_token: Seq<char>,
    now: u64,
) -> bool {
    &&& claims.iss@ == verifier
    &&& claims.sub@ == verifier
    &&& claims.aud@ == target
    &&& claims.iat == now
    &&& claims.nbf == now
    &&& claims.exp == now + ENVELOPE_TTL_SECS
    &&& is_uuid(claims.jti@)
    &&& claims.token matches Some(token) && token@ == nested_token
}

/// The claims of a fresh token of a verifier, addressed to a target, that carries
/// an access token.
pub fn mint_outer_envelope(
    verifier_did: &str,
    target_did: &str,
    nested_token: &str,
    now: u64,
) -> (res: IdTokenClaims)
    requires
        now <= u64::MAX - ENVELOPE_TTL_SECS,
    ensures
        is_envelope(res, verifier_did@, target_did@, nested_token@, now),
{
    IdTokenClaims {
        iss: String::from_str(verifier_did),
        sub: String::from_str(verifier_did),
        aud: String::from_str(target_did),
        iat: now,
        nbf: now,
        exp: now + ENVELOPE_TTL_SECS,
        jti: fresh_id(),
        token: Some(String::from_str(nested_token)),
    }
}

/// The claims of a credential to seed a target with.
#[derive(Debug)]
pub struct SeedClaims {
    pub iss: String,
    pub sub: String,
    pub context: Vec<String>,
    pub types: Vec<String>,
    /// The `id` of the credential's subject.
    pub subject_id: String,
    pub iat: u64,
    pub nbf: u64,
    pub exp: u64,
    pub jti: String,
}

/// Whether these are the claims of a seeded credential.
pub open spec fn is_seed(
    claims: SeedClaims,
    issuer: Seq<char>,
    credential_type: Seq<char>,
    holder_pid: Seq<char>,
    now: u64,
) -> bool {
    &&& claims.iss@ == issuer
    &&& claims.sub@ == "did:example:"@ + holder_pid
    &&& texts(claims.context@) == seq![VC_CONTEXT@]
    &&& texts(claims.types@) == seq!["VerifiableCredential"@, credential_type]
    &&& claims.subject_id@ == "did:example:"@ + holder_pid
    &&& claims.iat == now
    &&& claims.nbf == now
    &&& claims.exp == now + SEED_TTL_SECS
    &&& is_uuid(claims.jti@)
}

/// The claims of a credential to seed a target with.
pub fn seed_claims(issuer_did: &str, credential_type: &str, holder_pid: &str, now: u64) -> (res:
    SeedClaims)
    requires
        now <= u64::MAX - SEED_TTL_SECS,
    ensures
        is_seed(res, issuer_did@, credential_type@, holder_pid@, now),
{
    let mut context: Vec<String> = Vec::new();
    context.push(String::from_str(VC_CONTEXT));
    let mut types: Vec<String> = Vec::new();
    types.push(String::from_str("VerifiableCredential"));
    types.push(String::from_str(credential_type));
    proof {
        assert(texts(context@) =~= seq![VC_CONTEXT@]);
        assert(texts(types@) =~= seq!["VerifiableCredential"@, credential_type@]);
    }
    let subject = String::from_str("did:example:").concat(holder_pid);
    SeedClaims {
        iss: String::from_str(issuer_did),
        sub: subject.clone(),
        context,
        types,
        subject_id: subject,
        iat: now,
        nbf: now,
        exp: now + SEED_TTL_SECS,
        jti: fresh_id(),
    }
}

/// Whether a message delivers a seeded credential.
pub open spec fn is_seed_message(
    message: CredentialMessage,
    jws: Seq<char>,
    credential_type: Seq<char>,
    holder_pid: Seq<char>,
    issuer_pid: Seq<char>,
) -> bool {
    &&& texts(message.context@) == seq![DCP_CONTEXT@]
    &&& message.message_type@ == "CredentialMessage"@
    &&& message.issuer_pid@ == issuer_pid
    &&& message.holder_pid@ == holder_pid
    &&& message.status@ == "ISSUED"@
    &&& message.credentials@.len() == 1
    &&& message.credentials@[0].credential_type@ == credential_type
    &&& message.credentials@[0].payload@ == JsonView::Text(jws)
    &&& message.credentials@[0].format@ == "jwt"@
    &&& message.rejection_reason is None
}

/// The message that delivers a seeded credential, once it is signed.
pub fn seed_message(jws: String, credential_type: &str, holder_pid: &str, issuer_pid: &str) -> (res:
    CredentialMessage)
    ensures
        is_seed_message(res, jws@, credential_type@, holder_pid@, issuer_pid@),
{
    let mut credentials: Vec<CredentialContainer> = Vec::new();
    credentials.push(
        CredentialContainer {
            credential_type: String::from_str(credential_type),
            payload: JsonValue::Text(jws),
            format: String::from_str("jwt"),
        },
    );
    CredentialMessage {
        context: dcp_context(),
        message_type: credential_message_type(),
        issuer_pid: String::from_str(issuer_pid),
        holder_pid: String::from_str(holder_pid),
        status: String::from_str("ISSUED"),
        credentials,
        rejection_reason: None,
    }
}

/// Whether these are the fields of a token request's form, in order.
pub open spec fn is_form(
    form: Seq<(String, String)>,
    client_id: Seq<char>,
    client_secret: Seq<char>,
    audience: Seq<char>,
    scope: Option<Seq<char>>,
) -> bool {
    &&& form.len() == if scope is Some {
        5int
    } else {
        4int
    }
    &&& form[0].0@ == "grant_type"@ && form[0].1@ == "client_credentials"@
    &&& form[1].0@ == "client_id"@ && form[1].1@ == client_id
    &&& form[2].0@ == "client_secret"@ && form[2].1@ == client_secret
    &&& form[3].0@ == "audience"@ && form[3].1@ == audience
    &&& scope matches Some(s) ==> form[4].0@ == "bearer_access_scope"@ && form[4].1@ == s
}

/// The form of a token request.
pub fn sts_form(
    client_id: &str,
    client_secret: &str,
    audience: &str,
    bearer_access_scope: Option<&str>,
) -> (res: Vec<(String, String)>)
    ensures
        is_form(
            res@,
            client_id@,
            client_secret@,
            audience@,
            match bearer_access_scope {
                Some(s) => Some(s@),
                None => None,
            },
        ),
{
    let mut form: Vec<(String, String)> = Vec::new();
    form.push((String::from_str("grant_type"), String::from_str("client_credentials")));
    form.push((String::from_str("client_id"), String::from_str(client_id)));
    form.push((String::from_str("client_secret"), String::from_str(client_secret)));
    form.push((String::from_str("audience"), String::from_str(audience)));
    if let Some(scope) = bearer_access_scope {
        form.push((String::from_str("bearer_access_scope"), String::from_str(scope)));
    }
    form
}

/// There are as many workers as cores, but no more than tokens, and at least one;
/// and each mints its even share, where the first mint one more while there is a
/// remainder.
pub proof fn law_workers_share_the_tokens(n: nat, cores: nat, threads: nat, i: nat)
    requires
        cores > 0,
        threads > 0,
    ensures
        worker_count(n, cores) == if n == 0 || cores == 1 {
            1
        } else if cores <= n {
            cores
        } else {
            n
        },
        i < n % threads ==> share_of(n, threads, i) == n / threads + 1,
        i >= n % threads ==> share_of(n, threads, i) == n / threads,
{
}

/// A verifier's token is its own, addressed to the target, carries the access
/// token, and is valid from now on for 250 seconds.
pub proof fn law_envelopes_carry_the_access_token(
    claims: IdTokenClaims,
    verifier: Seq<char>,
    target: Seq<char>,
    nested_token: Seq<char>,
    now: u64,
)
    requires
        is_envelope(claims, verifier, target, nested_token, now),
    ensures
        claims.iss@ == verifier,
        claims.sub@ == verifier,
        claims.aud@ == target,
        claims.iat == now,
        claims.nbf == now,
        claims.exp == now + 250,
        claims.jti@.len() == 36,
        claims.token matches Some(token) && token@ == nested_token,
{
}

/// A seeded credential is the issuer's, of the given type, about the holder, and
/// valid for a year.
pub proof fn law_seeds_are_about_the_holder(
    claims: SeedClaims,
    issuer: Seq<char>,
    credential_type: Seq<char>,
    holder_pid: Seq<char>,
    now: u64,
)
    requires
        is_seed(claims, issuer, credential_type, holder_pid, now),
    ensures
        claims.iss@ == issuer,
        claims.sub@ == "did:example:"@ + holder_pid,
        claims.subject_id@ == "did:example:"@ + holder_pid,
        texts(claims.context@) == seq!["https://www.w3.org/2018/credentials/v1"@],
        texts(claims.types@) == seq!["VerifiableCredential"@, credential_type],
        claims.iat == now,
        claims.nbf == now,
        claims.exp == now + 31_536_000,
        claims.jti@.len() == 36,
{
}

/// A seeded credential is delivered in a DCP `CredentialMessage`, issued, as its
/// one credential, in JWT form.
pub proof fn law_seeds_are_delivered_in_credential_messages(
    message: CredentialMessage,
    jws: Seq<char>,
    credential_type: Seq<char>,
    holder_pid: Seq<char>,
    issuer_pid: Seq<char>,
)
    requires
        is_seed_message(message, jws, credential_type, holder_pid, issuer_pid),
    ensures
        texts(message.context@) == seq!["https://w3id.org/dspace-dcp/v1.0/dcp.jsonld"@],
        message.message_type@ == "CredentialMessage"@,
        message.issuer_pid@ == issuer_pid,
        message.holder_pid@ == holder_pid,
        message.status@ == "ISSUED"@,
        message.credentials@.len() == 1,
        message.credentials@[0].credential_type@ == credential_type,
        message.credentials@[0].payload@ == JsonView::Text(jws),
        message.credentials@[0].format@ == "jwt"@,
        message.rejection_reason is None,
{
}

/// A token request's form names the grant, the client, the audience and, where one
/// is asked for, the scope.
pub proof fn law_forms_name_each_field(
    form: Seq<(String, String)>,
    client_id: Seq<char>,
    client_secret: Seq<char>,
    audience: Seq<char>,
    scope: Option<Seq<char>>,
)
    requires
        is_form(form, client_id, client_secret, audience, scope),
    ensures
        scope is None ==> form.len() == 4,
        scope is Some ==> form.len() == 5,
        form[0].0@ == "grant_type"@ && form[0].1@ == "client_credentials"@,
        form[1].0@ == "client_id"@ && form[1].1@ == client_id,
        form[2].0@ == "client_secret"@ && form[2].1@ == client_secret,
        form[3].0@ == "audience"@ && form[3].1@ == audience,
        scope matches Some(s) ==> form[4].0@ == "bearer_access_scope"@ && form[4].1@ == s,
{
}

/// The sum of a list grows by what is added to it.
pub proof fn law_sums_grow_by_what_is_added(list: Seq<usize>, share: usize)
    ensures
        total(Seq::empty()) == 0,
        total(list.push(share)) == total(list) + share,
{
    assert(list.push(share).drop_last() =~= list);
}

/// A server that was just started is asked fifty times at most.
pub proof fn law_waiting_ends()
    ensures
        READY_ATTEMPTS == 50,
{
}

} // verus!
