//! A DCP (Decentralized Claims Protocol) Identity Hub: the credential graph,
//! the Secure Token Service, token and message validation, and the decisions
//! behind each HTTP route.

pub mod auth;
pub mod bounded;
pub mod config;
pub mod connector;
pub mod evidence;
pub mod graph;
pub mod grouping;
pub mod handlers;
pub mod identity;
pub mod ids;
pub mod issuance;
pub mod issued;
pub mod json;
pub mod layout;
pub mod load;
pub mod messages;
pub mod model;
pub mod nodes;
pub mod outbound;
pub mod presentation;
pub mod query;
pub mod rdf;
pub mod records;
pub mod replay;
pub mod reply;
pub mod requests;
pub mod routes;
pub mod scope;
pub mod state;
pub mod store;
pub mod sts;
pub mod text;
pub mod validation;
pub mod vocab;
