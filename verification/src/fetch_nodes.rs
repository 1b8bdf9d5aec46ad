//! The snapshot reader: the answer to a request for the ranked nodes.

use crate::dynamo::{find_many_nodes, items_view, nodes_projection, Item};
use crate::dynamo_utils::AttrMemberModel;
use crate::errors::PipelineError;
use crate::json_text::json_text;
use vstd::prelude::*;

verus! {

/// The table that holds the ranking.
pub fn table_name() -> (name: &'static str)
    ensures
        name@ == "NodesRankingTable"@,
{
    "NodesRankingTable"
}

/// What came of the ranked query.
#[derive(Debug, PartialEq, Eq)]
pub enum QueryOutcome {
    /// The store was unavailable or its answer could not be read.
    Failed,
    /// The store answered, with a list of records or without one.
    Delivered(Option<Vec<Item>>),
}

/// The answer to a read request.
#[allow(non_snake_case)]
#[derive(Debug, Clone, PartialEq, Eq)]
pub struct Response {
    pub statusCode: i32,
    /// The JSON text of the array of nodes.
    pub body: String,
}

/// The records that a query delivered, in their order; none where it
/// delivered no list.
pub open spec fn delivered_items(items: Option<Vec<Item>>) -> Seq<Seq<AttrMemberModel>> {
    match items {
        Some(list) => items_view(list@),
        None => Seq::empty(),
    }
}

/// The answer to a read request, given what came of the ranked query: the
/// status 200 with the nodes as JSON, in the order of the index, or the
/// read failure.
pub fn fetch_nodes_handler(outcome: QueryOutcome) -> (result: Result<Response, PipelineError>)
    ensures
        match outcome {
            QueryOutcome::Failed => result == Err::<Response, PipelineError>(
                PipelineError::StoreReadError,
            ),
            QueryOutcome::Delivered(items) => {
                &&& result matches Ok(response)
                &&& response.statusCode == 200
                &&& response.body@ == json_text(nodes_projection(delivered_items(items)))
            },
        },
{
    match outcome {
        QueryOutcome::Failed => Err(PipelineError::StoreReadError),
        QueryOutcome::Delivered(items) => Ok(
            Response { statusCode: 200, body: find_many_nodes(items) },
        ),
    }
}

} // verus!
