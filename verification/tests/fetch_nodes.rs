use node_rankings::dynamo::Item;
use node_rankings::dynamo_utils::{AttrEntry, AttrValue};
use node_rankings::errors::PipelineError;
use node_rankings::fetch_nodes::{fetch_nodes_handler, table_name, QueryOutcome, Response};

#[test]
fn name_of_the_table() {
    assert_eq!(table_name(), "NodesRankingTable");
}

#[test]
fn failed_query_is_a_read_error() {
    assert_eq!(fetch_nodes_handler(QueryOutcome::Failed), Err(PipelineError::StoreReadError));
}

#[test]
fn query_without_records_answers_with_an_empty_array() {
    let expected = Response { statusCode: 200, body: "[]".to_string() };
    assert_eq!(fetch_nodes_handler(QueryOutcome::Delivered(None)), Ok(expected.clone()));
    assert_eq!(fetch_nodes_handler(QueryOutcome::Delivered(Some(vec![]))), Ok(expected));
}

#[test]
fn query_with_records_answers_with_their_json() {
    let item = Item {
        attributes: vec![
            AttrEntry { name: "public_key".to_string(), value: AttrValue::S("03c".to_string()) },
            AttrEntry { name: "alias".to_string(), value: AttrValue::S("Alice".to_string()) },
        ],
    };
    let response = fetch_nodes_handler(QueryOutcome::Delivered(Some(vec![item]))).unwrap();
    assert_eq!(response.statusCode, 200);
    assert_eq!(
        response.body,
        "[{\"public_key\":\"03c\",\"alias\":\"Alice\",\"capacity\":\"0\",\"first_seen\":\"\"}]"
    );
}
