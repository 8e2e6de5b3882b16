//! The request that travels through the bridge, and what comes back from the
//! work that is done on it outside.

use crate::failure::{FailureKind, JobResult};
use juniper::http::{GraphQLRequest, GraphQLResponse};
use vstd::prelude::*;

verus! {

/// Declares `juniper::http::GraphQLRequest`, a decoded request, as a type
/// whose values can be carried around. Nothing is known of what is in one.
#[verifier::external_type_specification]
#[verifier::external_body]
pub struct ExGraphQLRequest(juniper::http::GraphQLRequest);

/// Declares `juniper::http::GraphQLResponse`, what the engine hands back for
/// a request, as a type whose values can be carried around. Nothing is known
/// of what is in one.
#[verifier::external_type_specification]
#[verifier::external_body]
pub struct ExGraphQLResponse<'a>(juniper::http::GraphQLResponse<'a>);

/// Declares `serde_json::Error`, the encoder's error, as a type whose values
/// can be carried around. Nothing is known of what is in one.
#[verifier::external_type_specification]
#[verifier::external_body]
pub struct ExJsonError(serde_json::Error);

/// One query document with its execution parameters, as the front end
/// decoded it. The bridge carries it to a worker and never looks inside.
#[derive(Debug, PartialEq)]
pub struct GraphQLData(pub GraphQLRequest);

/// What the work on one job outside the bridge ended in.
#[derive(Debug, PartialEq, Eq)]
pub enum Outcome {
    /// The engine ran and its response was encoded.
    Encoded(String),
    /// The engine ran, but its response could not be encoded.
    Unencodable,
    /// The engine raised a fault; the session is still usable.
    Faulted,
    /// The session broke while the engine ran.
    Severed,
    /// The store could not be reached when the session had to be opened.
    Unreachable,
}

impl Outcome {
    /// The result that the job's caller gets for this outcome.
    pub open spec fn result(self) -> JobResult {
        match self {
            Outcome::Encoded(payload) => Ok(payload),
            Outcome::Unencodable => Err(FailureKind::SerializationFailed),
            Outcome::Faulted => Err(FailureKind::ExecutionFailed),
            Outcome::Severed => Err(FailureKind::ExecutionFailed),
            Outcome::Unreachable => Err(FailureKind::BackendUnavailable),
        }
    }

    /// True when the session that the job used can serve another job.
    pub open spec fn keeps_session(self) -> bool {
        !(self is Severed) && !(self is Unreachable)
    }

    /// The result that the job's caller gets for this outcome.
    pub fn settle(self) -> (result: JobResult)
        ensures
            result == self.result(),
    {
        match self {
            Outcome::Encoded(payload) => Ok(payload),
            Outcome::Unencodable => Err(FailureKind::SerializationFailed),
            Outcome::Faulted => Err(FailureKind::ExecutionFailed),
            Outcome::Severed => Err(FailureKind::ExecutionFailed),
            Outcome::Unreachable => Err(FailureKind::BackendUnavailable),
        }
    }

    /// True when the session that the job used can serve another job.
    pub fn session_kept(&self) -> (kept: bool)
        ensures
            kept == self.keeps_session(),
    {
        match self {
            Outcome::Severed => false,
            Outcome::Unreachable => false,
            _ => true,
        }
    }

    /// The outcome of a job whose engine run raised a fault: the session is
    /// kept where the store still answers on it, and counts as broken where
    /// it does not.
    pub fn of_fault(session_alive: bool) -> (outcome: Outcome)
        ensures
            session_alive ==> outcome == Outcome::Faulted,
            !session_alive ==> outcome == Outcome::Severed,
    {
        if session_alive {
            Outcome::Faulted
        } else {
            Outcome::Severed
        }
    }

    /// The outcome of a job whose response went through the encoder: the
    /// text where there is one, else that the response cannot be encoded.
    pub fn of_encoding(encoded: Result<String, serde_json::Error>) -> (outcome: Outcome)
        ensures
            encoded matches Ok(text) ==> outcome == Outcome::Encoded(text),
            encoded is Err ==> outcome == Outcome::Unencodable,
    {
        match encoded {
            Ok(text) => Outcome::Encoded(text),
            Err(_) => Outcome::Unencodable,
        }
    }

    /// The outcome of a job whose engine run ended in `response`: the text
    /// that the encoder makes of the response where it makes one, and
    /// `Unencodable` where it makes none. The session is kept either way.
    pub fn of_response(response: &GraphQLResponse) -> (outcome: Outcome)
        ensures
            encoded_response(*response) matches Some(text) ==> (outcome matches Outcome::Encoded(
                payload,
            ) && payload@ == text),
            encoded_response(*response) is None ==> outcome is Unencodable,
            outcome.keeps_session(),
    {
        Outcome::of_encoding(to_json(response))
    }
}

/// The JSON text that `serde_json::to_string` makes of a response of the
/// engine, or `None` where it makes none.
pub uninterp spec fn encoded_response(response: GraphQLResponse) -> Option<Seq<char>>;

/// Calls `serde_json::to_string` on the engine's response. The encoder walks
/// the response in the order in which it was built and draws on nothing but
/// the response, so what it makes is a function of the response alone: the
/// text where encoding succeeds, and none where it fails.
#[verifier::external_body]
fn to_json(response: &GraphQLResponse) -> (encoded: Result<String, serde_json::Error>)
    ensures
        encoded matches Ok(text) ==> encoded_response(*response) == Some(text@),
        encoded is Err ==> encoded_response(*response) is None,
{
    serde_json::to_string(response)
}

} // verus!
