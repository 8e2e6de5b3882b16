use wundergraph_bench::failure::FailureKind;
use wundergraph_bench::frontend::{
    Reply, EXPLORER_PATH, GRAPHQL_ENDPOINT, HTML_CONTENT_TYPE, JSON_CONTENT_TYPE,
};

#[test]
fn payload_is_answered_as_json() {
    let reply = Reply::for_result(Ok("{\"data\":{}}".to_string()));
    assert_eq!(reply, Reply::Payload("{\"data\":{}}".to_string()));
    assert_eq!(reply.status(), 200);
    assert_eq!(reply.content_type(), Some("application/json"));
    assert_eq!(reply.location(), None);
    assert_eq!(reply.body(), "{\"data\":{}}");
}

#[test]
fn every_failure_is_answered_as_a_service_error() {
    let kinds = [
        FailureKind::PoolExhausted,
        FailureKind::BackendUnavailable,
        FailureKind::ExecutionFailed,
        FailureKind::PoolShuttingDown,
        FailureKind::SerializationFailed,
    ];
    for kind in kinds {
        let reply = Reply::for_result(Err(kind));
        assert_eq!(reply, Reply::ServiceError);
        assert_eq!(reply.status(), 500);
        assert_eq!(reply.content_type(), None);
        assert_eq!(reply.location(), None);
        assert_eq!(reply.body(), "");
    }
}

#[test]
fn claim_without_a_result_is_answered_as_a_service_error() {
    assert_eq!(Reply::for_claim(None), Reply::ServiceError);
    assert_eq!(Reply::for_claim(Some(Ok("[]".to_string()))), Reply::Payload("[]".to_string()));
    assert_eq!(Reply::for_claim(Some(Err(FailureKind::PoolExhausted))), Reply::ServiceError);
}

#[test]
fn explorer_page_is_built_for_the_submission_endpoint() {
    let reply = Reply::explorer();
    assert_eq!(reply.status(), 200);
    assert_eq!(reply.content_type(), Some("text/html; charset=utf-8"));
    assert_eq!(reply.location(), None);
    assert_eq!(reply.body(), juniper::graphiql::graphiql_source("/graphql"));
    assert_ne!(reply.body(), "/graphql");
    assert!(reply.body().contains("var GRAPHQL_URL = '/graphql';"));
    assert!(reply.body().contains("<!DOCTYPE html>"));
}

#[test]
fn page_reply_shows_the_page_it_was_given() {
    let reply = Reply::page("<p>hello</p>".to_string());
    assert_eq!(reply, Reply::Page("<p>hello</p>".to_string()));
    assert_eq!(reply.status(), 200);
    assert_eq!(reply.content_type(), Some(HTML_CONTENT_TYPE));
    assert_eq!(reply.body(), "<p>hello</p>");
}

#[test]
fn unknown_routes_are_sent_to_the_explorer() {
    let reply = Reply::fallback();
    assert_eq!(reply, Reply::ToExplorer);
    assert_eq!(reply.status(), 302);
    assert_eq!(reply.location(), Some("/graphiql"));
    assert_eq!(reply.content_type(), None);
    assert_eq!(reply.body(), "");
}

#[test]
fn paths_and_content_types() {
    assert_eq!(GRAPHQL_ENDPOINT, "/graphql");
    assert_eq!(EXPLORER_PATH, "/graphiql");
    assert_eq!(JSON_CONTENT_TYPE, "application/json");
    assert_eq!(HTML_CONTENT_TYPE, "text/html; charset=utf-8");
}
