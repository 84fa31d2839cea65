//! RDF namespace IRIs that describe an accepted credential batch and an
//! accepted credential offer: the W3C Verifiable Credentials vocabulary where
//! it fits, and a small vocabulary of this project for the DCP message fields
//! that have no existing term.

use vstd::prelude::*;

verus! {

/// The W3C Verifiable Credentials namespace.
pub const VC: &'static str = "https://www.w3.org/2018/credentials#";

/// The RDF syntax namespace.
pub const RDF: &'static str = "http://www.w3.org/1999/02/22-rdf-syntax-ns#";

/// The XML Schema datatype namespace.
pub const XSD: &'static str = "http://www.w3.org/2001/XMLSchema#";

/// The project's own namespace: DCP message fields without a Verifiable
/// Credentials term, and `order`, which records the position of a node in the
/// ordered list it belongs to.
pub const DS: &'static str = "https://ds42.org/ontologies/ds-identity-hub-rs#";

/// The IRI of `term` in the Verifiable Credentials namespace.
pub open spec fn vc_iri(term: Seq<char>) -> Seq<char> {
    VC@ + term
}

/// The IRI of `term` in the RDF namespace.
pub open spec fn rdf_iri(term: Seq<char>) -> Seq<char> {
    RDF@ + term
}

/// The IRI of `term` in the XML Schema namespace.
pub open spec fn xsd_iri(term: Seq<char>) -> Seq<char> {
    XSD@ + term
}

/// The IRI of `term` in the project's own namespace.
pub open spec fn ds_iri(term: Seq<char>) -> Seq<char> {
    DS@ + term
}

/// Whether a text is made of ASCII letters only.
pub open spec fn is_name(term: Seq<char>) -> bool {
    forall|i: int|
        0 <= i < term.len() ==> ('a' <= #[trigger] term[i] <= 'z' || 'A' <= term[i] <= 'Z')
}

/// Whether an IRI is that of a term in one of the namespaces that the graph uses.
pub open spec fn is_term_iri(iri: Seq<char>) -> bool {
    exists|term: Seq<char>| #[trigger]
        is_name(term) && (iri == vc_iri(term) || iri == rdf_iri(term) || iri == ds_iri(term))
}

pub fn vc(term: &str) -> (res: String)
    ensures
        res@ == vc_iri(term@),
{
    String::from_str(VC).concat(term)
}

pub fn rdf(term: &str) -> (res: String)
    ensures
        res@ == rdf_iri(term@),
{
    String::from_str(RDF).concat(term)
}

pub fn xsd(term: &str) -> (res: String)
    ensures
        res@ == xsd_iri(term@),
{
    String::from_str(XSD).concat(term)
}

pub fn ds(term: &str) -> (res: String)
    ensures
        res@ == ds_iri(term@),
{
    String::from_str(DS).concat(term)
}

/// The IRI of a term is its namespace and the term.
pub proof fn law_terms_stand_in_their_namespace(term: Seq<char>)
    ensures
        vc_iri(term) == "https://www.w3.org/2018/credentials#"@ + term,
        rdf_iri(term) == "http://www.w3.org/1999/02/22-rdf-syntax-ns#"@ + term,
        xsd_iri(term) == "http://www.w3.org/2001/XMLSchema#"@ + term,
        ds_iri(term) == "https://ds42.org/ontologies/ds-identity-hub-rs#"@ + term,
{
}

} // verus!
