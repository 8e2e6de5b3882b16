//! What the front end answers.
//!
//! The front end accepts a request, submits it, and answers once the result
//! is there. Which answer a result gets is decided here; turning the answer
//! into a response on the wire is left to the program.

use crate::failure::JobResult;
use vstd::prelude::*;

verus! {

/// The path under which requests are submitted.
pub const GRAPHQL_ENDPOINT: &'static str = "/graphql";

/// The path of the interactive explorer.
pub const EXPLORER_PATH: &'static str = "/graphiql";

/// The content type of a payload.
pub const JSON_CONTENT_TYPE: &'static str = "application/json";

/// The content type of the explorer page.
pub const HTML_CONTENT_TYPE: &'static str = "text/html; charset=utf-8";

/// One answer of the front end.
#[derive(Debug, PartialEq, Eq)]
pub enum Reply {
    /// The payload of a job that succeeded.
    Payload(String),
    /// The page of the interactive explorer.
    Page(String),
    /// The client is sent on to the explorer.
    ToExplorer,
    /// The job failed, or was not accepted.
    ServiceError,
}

/// The page that the explorer shows for a submission endpoint, as
/// `juniper::graphiql::graphiql_source` builds it.
pub uninterp spec fn graphiql_page(endpoint: Seq<char>) -> Seq<char>;

/// Calls `juniper::graphiql::graphiql_source`, which fills the endpoint into a
/// fixed page. The page is a function of the endpoint alone, and that is all
/// that is claimed of it.
#[verifier::external_body]
fn graphiql_source(endpoint: &str) -> (page: String)
    ensures
        page@ == graphiql_page(endpoint@),
{
    juniper::graphiql::graphiql_source(endpoint)
}

impl Reply {
    /// The status code of the answer.
    pub open spec fn status_code(self) -> u16 {
        match self {
            Reply::Payload(_) => 200,
            Reply::Page(_) => 200,
            Reply::ToExplorer => 302,
            Reply::ServiceError => 500,
        }
    }

    /// The answer to a request whose job ended in `result`, or whose
    /// submission was refused with the error in it: the payload where there
    /// is one, and a service error for every kind of failure.
    pub fn for_result(result: JobResult) -> (reply: Reply)
        ensures
            result matches Ok(payload) ==> reply == Reply::Payload(payload),
            result is Err ==> reply == Reply::ServiceError,
    {
        match result {
            Ok(payload) => Reply::Payload(payload),
            Err(_) => Reply::ServiceError,
        }
    }

    /// The answer to a request whose result was asked for when its signal
    /// came: what the result gets where there is one, and a service error
    /// where the signal came without a result.
    pub fn for_claim(claimed: Option<JobResult>) -> (reply: Reply)
        ensures
            claimed matches Some(Ok(payload)) ==> reply == Reply::Payload(payload),
            claimed matches Some(Err(_)) ==> reply == Reply::ServiceError,
            claimed is None ==> reply == Reply::ServiceError,
    {
        match claimed {
            Some(result) => Reply::for_result(result),
            None => Reply::ServiceError,
        }
    }

    /// The answer that shows `page`.
    pub fn page(page: String) -> (reply: Reply)
        ensures
            reply == Reply::Page(page),
    {
        Reply::Page(page)
    }

    /// The answer to a request for the explorer: the explorer's page for the
    /// submission endpoint.
    pub fn explorer() -> (reply: Reply)
        ensures
            reply matches Reply::Page(page) && page@ == graphiql_page(GRAPHQL_ENDPOINT@),
    {
        Reply::page(graphiql_source(GRAPHQL_ENDPOINT))
    }

    /// The answer to a request that no route takes: the client is sent on to
    /// the explorer.
    pub fn fallback() -> (reply: Reply)
        ensures
            reply == Reply::ToExplorer,
    {
        Reply::ToExplorer
    }

    /// The status code of the answer.
    pub fn status(&self) -> (code: u16)
        ensures
            code == self.status_code(),
    {
        match self {
            Reply::Payload(_) => 200,
            Reply::Page(_) => 200,
            Reply::ToExplorer => 302,
            Reply::ServiceError => 500,
        }
    }

    /// The content type of the answer's body, where it has a body.
    pub fn content_type(&self) -> (content_type: Option<&'static str>)
        ensures
            self is Payload ==> content_type == Some(JSON_CONTENT_TYPE),
            self is Page ==> content_type == Some(HTML_CONTENT_TYPE),
            self is ToExplorer || self is ServiceError ==> content_type is None,
    {
        match self {
            Reply::Payload(_) => Some(JSON_CONTENT_TYPE),
            Reply::Page(_) => Some(HTML_CONTENT_TYPE),
            _ => None,
        }
    }

    /// Where the client is sent on to, where it is sent on.
    pub fn location(&self) -> (location: Option<&'static str>)
        ensures
            self is ToExplorer ==> location == Some(EXPLORER_PATH),
            !(self is ToExplorer) ==> location is None,
    {
        match self {
            Reply::ToExplorer => Some(EXPLORER_PATH),
            _ => None,
        }
    }

    /// The body of the answer; empty where it has none.
    pub fn body(&self) -> (body: &str)
        ensures
            self matches Reply::Payload(payload) ==> body@ == payload@,
            self matches Reply::Page(page) ==> body@ == page@,
            self is ToExplorer || self is ServiceError ==> body@.len() == 0,
    {
        match self {
            Reply::Payload(payload) => payload.as_str(),
            Reply::Page(page) => page.as_str(),
            _ => {
                proof {
                    reveal_strlit("");
                }
                ""
            },
        }
    }
}

} // verus!
