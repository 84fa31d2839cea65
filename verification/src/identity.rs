//! A `did:web`-hosted service identity and its DID document.
//!
//! The document carries the `authentication`, `assertionMethod` and
//! `capabilityInvocation` relationships that DCP requires of the key that signs
//! tokens and presentations.

use vstd::prelude::*;

use crate::messages::DCP_CONTEXT;
use crate::text::{chars_of, concat3, texts};

verus! {

/// The DID Core `@context` URI.
pub const DID_CORE_CONTEXT: &'static str = "https://www.w3.org/ns/did/v1";

/// A text with each colon percent-encoded.
pub open spec fn colons_encoded(text: Seq<char>) -> Seq<char>
    decreases text.len(),
{
    if text.len() == 0 {
        Seq::empty()
    } else if text.last() == ':' {
        colons_encoded(text.drop_last()) + "%3A"@
    } else {
        colons_encoded(text.drop_last()).push(text.last())
    }
}

/// The `did:web` DID of a host and a path segment.
pub open spec fn did_web(host: Seq<char>, segment: Seq<char>) -> Seq<char> {
    "did:web:"@ + colons_encoded(host) + ":"@ + segment
}

/// The `did:web` DID of a host and a path segment: the port's colon is
/// percent-encoded, since a colon separates path segments.
pub fn service_did(did_host: &str, did_path_segment: &str) -> (res: String)
    ensures
        res@ == did_web(did_host@, did_path_segment@),
{
    let chars = chars_of(did_host);
    let ghost host = did_host@;
    let mut encoded = String::new();
    let mut i: usize = 0;
    proof {
        assert(host.take(0) =~= Seq::empty());
    }
    while i < chars.len()
        invariant
            i <= chars.len(),
            chars@ == host,
            host == did_host@,
            encoded@ == colons_encoded(host.take(i as int)),
        decreases chars.len() - i,
    {
        proof {
            assert(host.take(i + 1).drop_last() =~= host.take(i as int));
            assert(host.take(i + 1).last() == host[i as int]);
        }
        if chars[i] == ':' {
            encoded.append("%3A");
        } else {
            encoded.push(chars[i]);
        }
        i = i + 1;
    }
    proof {
        assert(host.take(i as int) =~= host);
    }
    concat3("did:web:", encoded.as_str(), ":").concat(did_path_segment)
}

/// The public half of a key pair: its id, and its P-256 coordinates in base64url.
#[derive(Debug)]
pub struct PublicKey {
    pub key_id: String,
    pub x: String,
    pub y: String,
}

/// One `did:web`-hosted identity of this process.
#[derive(Debug)]
pub struct ServiceIdentity {
    pub did: String,
    pub key: PublicKey,
    /// The path segment that the identity's DID document is served under.
    pub did_path_segment: String,
}

/// A key in JWK form.
#[derive(Debug)]
pub struct Jwk {
    pub kty: String,
    pub crv: String,
    pub x: String,
    pub y: String,
}

/// An entry of a DID document's `verificationMethod`.
#[derive(Debug)]
pub struct VerificationMethod {
    pub id: String,
    pub method_type: String,
    pub controller: String,
    pub public_key_jwk: Jwk,
}

/// An entry of a DID document's `service`.
#[derive(Debug)]
pub struct ServiceEntry {
    pub id: String,
    pub service_type: String,
    pub service_endpoint: String,
}

/// A DID document.
#[derive(Debug)]
pub struct DidDocument {
    pub context: Vec<String>,
    pub id: String,
    pub verification_method: Vec<VerificationMethod>,
    pub authentication: Vec<String>,
    pub assertion_method: Vec<String>,
    pub capability_invocation: Vec<String>,
    pub service: Vec<ServiceEntry>,
}

/// A list of one string.
fn only(text: &str) -> (res: Vec<String>)
    ensures
        texts(res@) == seq![text@],
{
    let mut list: Vec<String> = Vec::new();
    list.push(String::from_str(text));
    proof {
        assert(texts(list@) =~= seq![text@]);
    }
    list
}

/// Whether a service entry is the one that the DID document of `did` gives to a
/// service of the given type and endpoint.
pub open spec fn is_service_entry(
    entry: ServiceEntry,
    did: Seq<char>,
    service_type: Seq<char>,
    endpoint: Seq<char>,
) -> bool {
    &&& entry.id@ == did + "#"@ + service_type
    &&& entry.service_type@ == service_type
    &&& entry.service_endpoint@ == endpoint
}

/// Whether a DID document is that of an identity with the given services: its
/// one key, in all three relationships, and an entry per service.
pub open spec fn is_document(
    doc: DidDocument,
    identity: ServiceIdentity,
    services: Seq<(String, String)>,
) -> bool {
    &&& texts(doc.context@) == seq![DID_CORE_CONTEXT@, DCP_CONTEXT@]
    &&& doc.id@ == identity.did()
    &&& doc.verification_method@.len() == 1
    &&& doc.verification_method@[0].id@ == identity.key_id()
    &&& doc.verification_method@[0].method_type@ == "JsonWebKey2020"@
    &&& doc.verification_method@[0].controller@ == identity.did()
    &&& doc.verification_method@[0].public_key_jwk.kty@ == "EC"@
    &&& doc.verification_method@[0].public_key_jwk.crv@ == "P-256"@
    &&& doc.verification_method@[0].public_key_jwk.x@ == identity.coordinates().0
    &&& doc.verification_method@[0].public_key_jwk.y@ == identity.coordinates().1
    &&& texts(doc.authentication@) == seq![identity.key_id()]
    &&& texts(doc.assertion_method@) == seq![identity.key_id()]
    &&& texts(doc.capability_invocation@) == seq![identity.key_id()]
    &&& doc.service@.len() == services.len()
    &&& forall|i: int|
        0 <= i < services.len() ==> is_service_entry(
            #[trigger] doc.service@[i],
            identity.did(),
            services[i].0@,
            services[i].1@,
        )
}

impl ServiceIdentity {
    /// The identity's DID.
    pub open spec fn did(&self) -> Seq<char> {
        self.did@
    }

    /// The id of the identity's key.
    pub open spec fn key_id(&self) -> Seq<char> {
        self.key.key_id@
    }

    /// The coordinates of the identity's key.
    pub open spec fn coordinates(&self) -> (Seq<char>, Seq<char>) {
        (self.key.x@, self.key.y@)
    }

    /// The identity at a host and path segment that holds the given key.
    pub fn new(did_host: &str, did_path_segment: &str, key: PublicKey) -> (res: Self)
        ensures
            res.did() == did_web(did_host@, did_path_segment@),
            res.key_id() == key.key_id@,
            res.coordinates() == (key.x@, key.y@),
            res.key == key,
            res.did_path_segment@ == did_path_segment@,
    {
        ServiceIdentity {
            did: service_did(did_host, did_path_segment),
            key,
            did_path_segment: String::from_str(did_path_segment),
        }
    }

    pub fn own_did(&self) -> (res: &str)
        ensures
            res@ == self.did(),
    {
        self.did.as_str()
    }

    pub fn own_key_id(&self) -> (res: &str)
        ensures
            res@ == self.key_id(),
    {
        self.key.key_id.as_str()
    }

    /// The identity's DID document, with an entry per service. A service is
    /// given by its type and its endpoint.
    pub fn did_document(&self, services: &Vec<(String, String)>) -> (res: DidDocument)
        ensures
            is_document(res, *self, services@),
    {
        let mut context: Vec<String> = Vec::new();
        context.push(String::from_str(DID_CORE_CONTEXT));
        context.push(String::from_str(DCP_CONTEXT));
        proof {
            assert(texts(context@) =~= seq![DID_CORE_CONTEXT@, DCP_CONTEXT@]);
        }
        let mut verification_method: Vec<VerificationMethod> = Vec::new();
        verification_method.push(
            VerificationMethod {
                id: self.key.key_id.clone(),
                method_type: String::from_str("JsonWebKey2020"),
                controller: self.did.clone(),
                public_key_jwk: Jwk {
                    kty: String::from_str("EC"),
                    crv: String::from_str("P-256"),
                    x: self.key.x.clone(),
                    y: self.key.y.clone(),
                },
            },
        );
        let mut service: Vec<ServiceEntry> = Vec::new();
        let mut i: usize = 0;
        while i < services.len()
            invariant
                i <= services.len(),
                service@.len() == i,
                forall|k: int|
                    0 <= k < i ==> is_service_entry(
                        #[trigger] service@[k],
                        self.did(),
                        services@[k].0@,
                        services@[k].1@,
                    ),
            decreases services.len() - i,
        {
            let (service_type, endpoint) = &services[i];
            service.push(
                ServiceEntry {
                    id: concat3(self.did.as_str(), "#", service_type.as_str()),
                    service_type: service_type.clone(),
                    service_endpoint: endpoint.clone(),
                },
            );
            i = i + 1;
        }
        DidDocument {
            context,
            id: self.did.clone(),
            verification_method,
            authentication: only(self.key.key_id.as_str()),
            assertion_method: only(self.key.key_id.as_str()),
            capability_invocation: only(self.key.key_id.as_str()),
            service,
        }
    }
}

/// A percent-encoded host holds no colon, so the DID's path starts at its last
/// one.
pub proof fn law_encoded_host_holds_no_colon(host: Seq<char>)
    ensures
        !colons_encoded(host).contains(':'),
    decreases host.len(),
{
    reveal_strlit("%3A");
    if host.len() > 0 {
        law_encoded_host_holds_no_colon(host.drop_last());
        let before = colons_encoded(host.drop_last());
        let all = colons_encoded(host);
        assert forall|k: int| 0 <= k < all.len() implies all[k] != ':' by {
            if k < before.len() {
                assert(all[k] == before[k]);
                assert(before.contains(before[k]));
            }
        }
    }
}

/// Encoding the colons of a text is encoding those of its parts.
pub proof fn law_parts_are_encoded_one_by_one(a: Seq<char>, b: Seq<char>)
    ensures
        colons_encoded(a + b) == colons_encoded(a) + colons_encoded(b),
    decreases b.len(),
{
    if b.len() == 0 {
        assert(a + b =~= a);
        assert(colons_encoded(a) + colons_encoded(b) =~= colons_encoded(a));
    } else {
        let rest = b.drop_last();
        law_parts_are_encoded_one_by_one(a, rest);
        assert((a + b).drop_last() =~= a + rest);
        assert((a + b).last() == b.last());
        assert(colons_encoded(a + b) =~= colons_encoded(a) + colons_encoded(b));
    }
}

/// A text without a colon is encoded as itself.
pub proof fn law_nothing_but_colons_is_encoded(text: Seq<char>)
    requires
        forall|i: int| 0 <= i < text.len() ==> #[trigger] text[i] != ':',
    ensures
        colons_encoded(text) == text,
    decreases text.len(),
{
    if text.len() > 0 {
        let rest = text.drop_last();
        assert forall|i: int| 0 <= i < rest.len() implies #[trigger] rest[i] != ':' by {
            assert(text[i] != ':');
        }
        law_nothing_but_colons_is_encoded(rest);
        assert(text[text.len() - 1] != ':');
        assert(colons_encoded(text) =~= text);
    } else {
        assert(colons_encoded(text) =~= text);
    }
}

/// The DID of a host and a port under a path: the colon between host and port is
/// the one that is encoded.
pub proof fn law_did_of_host_and_port(
    host: Seq<char>,
    port: Seq<char>,
    segment: Seq<char>,
    any: Seq<char>,
)
    requires
        forall|i: int| 0 <= i < host.len() ==> #[trigger] host[i] != ':',
        forall|i: int| 0 <= i < port.len() ==> #[trigger] port[i] != ':',
    ensures
        did_web(host, segment) == "did:web:"@ + host + ":"@ + segment,
        did_web(any, segment) == "did:web:"@ + colons_encoded(any) + ":"@ + segment,
        did_web(host + ":"@ + port, segment) == "did:web:"@ + (host + "%3A"@ + port) + ":"@
            + segment,
{
    reveal_strlit(":");
    law_nothing_but_colons_is_encoded(host);
    law_nothing_but_colons_is_encoded(port);
    law_parts_are_encoded_one_by_one(host + ":"@, port);
    law_parts_are_encoded_one_by_one(host, ":"@);
    assert(":"@.drop_last() =~= Seq::empty());
    assert(colons_encoded(":"@.drop_last()) =~= Seq::empty());
    assert(":"@.last() == ':');
    assert(colons_encoded(":"@) =~= "%3A"@);
}

/// The DID document of an identity is under its DID and in both contexts, and its
/// one key, of the P-256 curve, stands in all three relationships.
pub proof fn law_document_lists_its_key_everywhere(
    doc: DidDocument,
    identity: ServiceIdentity,
    services: Seq<(String, String)>,
)
    requires
        is_document(doc, identity, services),
    ensures
        texts(doc.context@) == seq![
            "https://www.w3.org/ns/did/v1"@,
            "https://w3id.org/dspace-dcp/v1.0/dcp.jsonld"@,
        ],
        doc.id@ == identity.did@,
        doc.verification_method@.len() == 1,
        doc.verification_method@[0].id@ == identity.key.key_id@,
        doc.verification_method@[0].method_type@ == "JsonWebKey2020"@,
        doc.verification_method@[0].controller@ == identity.did@,
        doc.verification_method@[0].public_key_jwk.kty@ == "EC"@,
        doc.verification_method@[0].public_key_jwk.crv@ == "P-256"@,
        doc.verification_method@[0].public_key_jwk.x@ == identity.key.x@,
        doc.verification_method@[0].public_key_jwk.y@ == identity.key.y@,
        texts(doc.authentication@) == seq![identity.key.key_id@],
        texts(doc.assertion_method@) == seq![identity.key.key_id@],
        texts(doc.capability_invocation@) == seq![identity.key.key_id@],
{
}

/// A DID document advertises each service by its type and endpoint, in order and
/// under an id of its own.
pub proof fn law_document_advertises_each_service(
    doc: DidDocument,
    identity: ServiceIdentity,
    services: Seq<(String, String)>,
    i: int,
)
    requires
        is_document(doc, identity, services),
        0 <= i < services.len(),
    ensures
        doc.service@.len() == services.len(),
        doc.service@[i].id@ == identity.did@ + "#"@ + services[i].0@,
        doc.service@[i].service_type@ == services[i].0@,
        doc.service@[i].service_endpoint@ == services[i].1@,
{
}

} // verus!
