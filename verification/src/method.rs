//! The fixed set of HTTP verbs a route may declare.

use vstd::prelude::*;

use crate::text::str_eq;

verus! {

/// One of the fixed HTTP verbs.
#[derive(Clone, Copy, Debug, PartialEq, Eq, Structural)]
pub enum HttpMethod {
    Get,
    Post,
    Put,
    Patch,
    Delete,
    Head,
    Options,
    Trace,
    Connect,
}

/// Resolves a method token to its verb, or `None` when the token is not in
/// the verb set.
pub open spec fn method_of_token(tok: Seq<char>) -> Option<HttpMethod> {
    if tok == "GET"@ {
        Some(HttpMethod::Get)
    } else if tok == "POST"@ {
        Some(HttpMethod::Post)
    } else if tok == "PUT"@ {
        Some(HttpMethod::Put)
    } else if tok == "PATCH"@ {
        Some(HttpMethod::Patch)
    } else if tok == "DELETE"@ {
        Some(HttpMethod::Delete)
    } else if tok == "HEAD"@ {
        Some(HttpMethod::Head)
    } else if tok == "OPTIONS"@ {
        Some(HttpMethod::Options)
    } else if tok == "TRACE"@ {
        Some(HttpMethod::Trace)
    } else if tok == "CONNECT"@ {
        Some(HttpMethod::Connect)
    } else {
        None
    }
}

/// Parses a method token against the fixed verb set.
pub fn parse_method(tok: &str) -> (r: Option<HttpMethod>)
    ensures
        r == method_of_token(tok@),
{
    if str_eq(tok, "GET") {
        Some(HttpMethod::Get)
    } else if str_eq(tok, "POST") {
        Some(HttpMethod::Post)
    } else if str_eq(tok, "PUT") {
        Some(HttpMethod::Put)
    } else if str_eq(tok, "PATCH") {
        Some(HttpMethod::Patch)
    } else if str_eq(tok, "DELETE") {
        Some(HttpMethod::Delete)
    } else if str_eq(tok, "HEAD") {
        Some(HttpMethod::Head)
    } else if str_eq(tok, "OPTIONS") {
        Some(HttpMethod::Options)
    } else if str_eq(tok, "TRACE") {
        Some(HttpMethod::Trace)
    } else if str_eq(tok, "CONNECT") {
        Some(HttpMethod::Connect)
    } else {
        None
    }
}

} // verus!
