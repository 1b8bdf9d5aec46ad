//! The source adapter: what the upstream ranking API delivers.

use crate::errors::PipelineError;
use vstd::prelude::*;

verus! {

/// One entry of the connectivity ranking, in the units of the upstream API:
/// the capacity in satoshis, the times as Unix seconds.
#[allow(non_snake_case)]
#[derive(Debug, Clone, PartialEq, Eq)]
pub struct NodeConnectivityRanking {
    pub publicKey: String,
    pub alias: String,
    pub channels: u32,
    pub capacity: u64,
    pub firstSeen: u64,
    pub updatedAt: u64,
}

/// What came of one request to the upstream API.
#[derive(Debug, Clone, PartialEq, Eq)]
pub enum FetchOutcome {
    /// The request failed in transport, or the answer was not a success.
    Unreachable,
    /// The answer was not the expected JSON array.
    Malformed,
    /// The answer was parsed into these entries, in the order delivered.
    Parsed(Vec<NodeConnectivityRanking>),
}

/// The address of the connectivity ranking.
pub fn rankings_url() -> (url: &'static str)
    ensures
        url@ == "https://mempool.space/api/v1/lightning/nodes/rankings/connectivity"@,
{
    "https://mempool.space/api/v1/lightning/nodes/rankings/connectivity"
}

/// The node rankings that a request delivered, exactly as delivered.
///
/// An empty ranking is a failure like an unreachable source or a malformed
/// answer: the network always has nodes, so an empty list tells of a fault
/// upstream and is never taken for "no nodes".
pub fn fetch_node_rankings(outcome: FetchOutcome) -> (result: Result<
    Vec<NodeConnectivityRanking>,
    PipelineError,
>)
    ensures
        match outcome {
            FetchOutcome::Parsed(rankings) => if rankings.len() > 0 {
                result == Ok::<Vec<NodeConnectivityRanking>, PipelineError>(rankings)
            } else {
                result == Err::<Vec<NodeConnectivityRanking>, PipelineError>(
                    PipelineError::FetchError,
                )
            },
            _ => result == Err::<Vec<NodeConnectivityRanking>, PipelineError>(
                PipelineError::FetchError,
            ),
        },
{
    match outcome {
        FetchOutcome::Parsed(rankings) => {
            if rankings.len() > 0 {
                Ok(rankings)
            } else {
                Err(PipelineError::FetchError)
            }
        },
        _ => Err(PipelineError::FetchError),
    }
}

} // verus!
