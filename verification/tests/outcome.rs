use juniper::http::GraphQLRequest;
use juniper::meta::MetaType;
use juniper::{
    Arguments, EmptyMutation, ExecutionResult, Executor, GraphQLType, Registry, RootNode, Value,
};
use wundergraph_bench::failure::FailureKind;
use wundergraph_bench::request::{GraphQLData, Outcome};

struct Query;

impl GraphQLType for Query {
    type Context = ();
    type TypeInfo = ();

    fn name(_: &()) -> Option<&str> {
        Some("Query")
    }

    fn meta<'r>(info: &(), registry: &mut Registry<'r>) -> MetaType<'r> {
        let fields = [registry.field::<String>("greeting", info)];
        registry.build_object_type::<Query>(info, &fields).into_meta()
    }

    fn resolve_field(
        &self,
        _: &(),
        field_name: &str,
        _: &Arguments,
        _: &Executor<()>,
    ) -> ExecutionResult {
        match field_name {
            "greeting" => Ok(Value::string("hello")),
            other => panic!("no field {}", other),
        }
    }
}

fn schema() -> RootNode<'static, Query, EmptyMutation<()>> {
    RootNode::new(Query, EmptyMutation::new())
}

#[test]
fn outcomes_settle_to_their_results() {
    assert_eq!(Outcome::Encoded("{}".to_string()).settle(), Ok("{}".to_string()));
    assert_eq!(Outcome::Unencodable.settle(), Err(FailureKind::SerializationFailed));
    assert_eq!(Outcome::Faulted.settle(), Err(FailureKind::ExecutionFailed));
    assert_eq!(Outcome::Severed.settle(), Err(FailureKind::ExecutionFailed));
    assert_eq!(Outcome::Unreachable.settle(), Err(FailureKind::BackendUnavailable));
}

#[test]
fn session_is_kept_unless_it_broke_or_never_opened() {
    assert!(Outcome::Encoded(String::new()).session_kept());
    assert!(Outcome::Unencodable.session_kept());
    assert!(Outcome::Faulted.session_kept());
    assert!(!Outcome::Severed.session_kept());
    assert!(!Outcome::Unreachable.session_kept());
}

#[test]
fn fault_breaks_the_session_only_where_the_store_is_silent() {
    assert_eq!(Outcome::of_fault(true), Outcome::Faulted);
    assert_eq!(Outcome::of_fault(false), Outcome::Severed);
}

#[test]
fn encoder_result_becomes_an_outcome() {
    assert_eq!(Outcome::of_encoding(Ok("[1]".to_string())), Outcome::Encoded("[1]".to_string()));
    let failure = serde_json::from_str::<serde_json::Value>("{").unwrap_err();
    assert_eq!(Outcome::of_encoding(Err(failure)), Outcome::Unencodable);
}

#[test]
fn response_of_the_engine_is_encoded_as_json() {
    let schema = schema();
    let data = GraphQLData(GraphQLRequest::new("{ greeting }".to_string(), None, None));
    let response = data.0.execute(&schema, &());
    assert!(response.is_ok());
    let outcome = Outcome::of_response(&response);
    assert_eq!(outcome, Outcome::Encoded("{\"data\":{\"greeting\":\"hello\"}}".to_string()));
    assert_eq!(outcome, Outcome::Encoded(serde_json::to_string(&response).unwrap()));
}

#[test]
fn response_with_errors_is_still_a_payload() {
    let schema = schema();
    let data = GraphQLData(GraphQLRequest::new("{ missing }".to_string(), None, None));
    let response = data.0.execute(&schema, &());
    assert!(!response.is_ok());
    match Outcome::of_response(&response) {
        Outcome::Encoded(text) => {
            assert!(text.starts_with("{\"errors\":["));
            assert_eq!(text, serde_json::to_string(&response).unwrap());
        }
        other => panic!("unexpected outcome {:?}", other),
    }
}
