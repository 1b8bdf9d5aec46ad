//! One ingestion run as a machine of states: the run's decisions are taken
//! here, and whoever drives the run performs each action and hands back the
//! event that came of it.

use crate::dtos::NewNodeDTO;
use crate::dynamo::{
    create_node, new_node_attributes, number_attribute, sort_key, text_attribute, PutRequest,
};
use crate::dynamo_utils::AttrMemberModel;
use crate::errors::PipelineError;
use crate::mempool_api::{fetch_node_rankings, FetchOutcome, NodeConnectivityRanking};
use crate::utils::{iso_text, normalize, normalized};
use vstd::prelude::*;

verus! {

/// Where an ingestion run stands.
#[derive(Debug, Clone, PartialEq, Eq)]
pub enum IngestState {
    /// Nothing has been asked for yet.
    Idle,
    /// The ranking has been asked for.
    Fetching,
    /// The capacity text of the entry at `next` has been asked for.
    Converting { rankings: Vec<NodeConnectivityRanking>, next: usize },
    /// The write of the entry at `next` has been handed out.
    Writing { rankings: Vec<NodeConnectivityRanking>, next: usize },
    /// Every entry has been written.
    Done,
    /// The run has failed; nothing more is written.
    Failed(PipelineError),
}

/// What came of the action that the run asked for last.
#[derive(Debug, Clone, PartialEq, Eq)]
pub enum IngestEvent {
    /// The run was triggered.
    Started,
    /// The upstream API was asked.
    Fetched(FetchOutcome),
    /// The capacity of the current entry in BTC, as decimal text.
    CapacityFormatted(String),
    /// The store took the write.
    Written,
    /// The store was unavailable or rejected the write.
    WriteFailed,
}

/// What the driver of the run is to do next.
#[derive(Debug, PartialEq, Eq)]
pub enum IngestAction {
    /// Ask the upstream API for the ranking.
    Fetch,
    /// Give the decimal text, in BTC, of this capacity in satoshis.
    FormatCapacity(u64),
    /// Send this write to the store.
    Write(PutRequest),
    /// Report success.
    Finish,
    /// Report this failure.
    Abort(PipelineError),
    /// The event was not awaited: there is nothing to do.
    Nothing,
}

/// Whether a state that works on a batch points at an entry of it.
pub open spec fn well_formed(state: IngestState) -> bool {
    match state {
        IngestState::Converting { rankings, next } => next < rankings.len(),
        IngestState::Writing { rankings, next } => next < rankings.len(),
        _ => true,
    }
}

/// The attributes under which the upstream entry `node` is written, with
/// the capacity text `capacity_in_btc`.
pub open spec fn ranking_attributes(
    node: NodeConnectivityRanking,
    capacity_in_btc: Seq<char>,
) -> Seq<AttrMemberModel> {
    seq![
        text_attribute("PK"@, "NODE"@),
        text_attribute("SK"@, sort_key(node.publicKey@)),
        number_attribute("LSI1"@, node.channels as nat),
        number_attribute("channels"@, node.channels as nat),
        number_attribute("updated_at"@, node.updatedAt as nat),
        text_attribute("public_key"@, node.publicKey@),
        text_attribute("alias"@, node.alias@),
        text_attribute("capacity"@, capacity_in_btc),
        text_attribute("first_seen"@, iso_text(node.firstSeen as int)),
    ]
}

/// The run fails with `error`, and says so.
pub open spec fn fails_with(
    error: PipelineError,
    after: IngestState,
    action: IngestAction,
) -> bool {
    &&& after == IngestState::Failed(error)
    &&& action == IngestAction::Abort(error)
}

/// The run stays in `state`, and asks for nothing.
pub open spec fn stays(state: IngestState, after: IngestState, action: IngestAction) -> bool {
    &&& after == state
    &&& action == IngestAction::Nothing
}

/// The state and the action that follow when `event` reaches a run in
/// `state` that writes to the table `table_name`.
///
/// A triggered run fetches. A fetch that delivered entries starts with the
/// first; a fetch that failed or delivered none fails the run. Each entry is
/// converted, then written, in the order delivered; after the last write the
/// run is done. A failed write fails the run, and the entries after it are
/// not written. An event that the state does not await changes nothing.
pub open spec fn follows(
    table_name: Seq<char>,
    state: IngestState,
    event: IngestEvent,
    after: IngestState,
    action: IngestAction,
) -> bool {
    match (state, event) {
        (IngestState::Idle, IngestEvent::Started) => {
            &&& after == IngestState::Fetching
            &&& action == IngestAction::Fetch
        },
        (IngestState::Fetching, IngestEvent::Fetched(FetchOutcome::Parsed(rankings))) => {
            if rankings.len() > 0 {
                &&& after == (IngestState::Converting { rankings: rankings, next: 0 })
                &&& action == IngestAction::FormatCapacity(rankings[0].capacity)
            } else {
                fails_with(PipelineError::FetchError, after, action)
            }
        },
        (IngestState::Fetching, IngestEvent::Fetched(_)) => {
            fails_with(PipelineError::FetchError, after, action)
        },
        (IngestState::Converting { rankings, next }, IngestEvent::CapacityFormatted(text)) => {
            if next < rankings.len() {
                &&& after == (IngestState::Writing { rankings: rankings, next: next })
                &&& action matches IngestAction::Write(request)
                &&& request.table_name@ == table_name
                &&& request.item@ == ranking_attributes(rankings[next as int], text@)
            } else {
                stays(state, after, action)
            }
        },
        (IngestState::Writing { rankings, next }, IngestEvent::Written) => {
            if next + 1 < rankings.len() {
                &&& after == (IngestState::Converting {
                    rankings: rankings,
                    next: (next + 1) as usize,
                })
                &&& action == IngestAction::FormatCapacity(rankings[next + 1].capacity)
            } else if next < rankings.len() {
                &&& after == IngestState::Done
                &&& action == IngestAction::Finish
            } else {
                stays(state, after, action)
            }
        },
        (IngestState::Writing { rankings, next }, IngestEvent::WriteFailed) => {
            if next < rankings.len() {
                fails_with(PipelineError::StoreWriteError, after, action)
            } else {
                stays(state, after, action)
            }
        },
        _ => stays(state, after, action),
    }
}

/// The attributes of a normalised entry are those of the upstream entry.
pub proof fn lemma_normalized_attributes(
    node: NodeConnectivityRanking,
    capacity_in_btc: Seq<char>,
    record: NewNodeDTO,
)
    requires
        normalized(node, capacity_in_btc, record),
    ensures
        new_node_attributes(record) == ranking_attributes(node, capacity_in_btc),
{
    assert(new_node_attributes(record) =~= ranking_attributes(node, capacity_in_btc));
}

/// A run that is done or has failed stays so: whatever event reaches it, its
/// state is kept and nothing is asked for, so no entry is written after a
/// failure.
pub proof fn lemma_finished_runs_rest(
    table_name: Seq<char>,
    state: IngestState,
    event: IngestEvent,
    after: IngestState,
    action: IngestAction,
)
    requires
        state is Done || state is Failed,
        follows(table_name, state, event, after, action),
    ensures
        after == state,
        action == IngestAction::Nothing,
{
}

/// The entries are written one at a time in the order delivered: the write
/// that a step hands out is that of the entry the state points at, and the
/// step after a write that the store took points at the entry behind it.
pub proof fn lemma_writes_in_order(
    table_name: Seq<char>,
    state: IngestState,
    event: IngestEvent,
    after: IngestState,
    action: IngestAction,
)
    requires
        well_formed(state),
        follows(table_name, state, event, after, action),
    ensures
        action matches IngestAction::Write(request) ==> {
            &&& state matches IngestState::Converting { rankings, next }
            &&& event matches IngestEvent::CapacityFormatted(text)
            &&& after == (IngestState::Writing { rankings: rankings, next: next })
            &&& request.item@ == ranking_attributes(rankings[next as int], text@)
        },
        (state matches IngestState::Writing { rankings, next } && event is Written && next + 1
            < rankings.len()) ==> after == (IngestState::Converting {
            rankings: state->Writing_rankings,
            next: (state->Writing_next + 1) as usize,
        }),
        (state is Writing && event is WriteFailed) ==> after == IngestState::Failed(
            PipelineError::StoreWriteError,
        ),
{
}

/// The write that stores the upstream entry `node` in the table `table_name`.
pub fn write_of(
    table_name: &str,
    node: &NodeConnectivityRanking,
    capacity_in_btc: String,
) -> (request: PutRequest)
    ensures
        request.table_name@ == table_name@,
        request.item@ == ranking_attributes(*node, capacity_in_btc@),
{
    let copy = NodeConnectivityRanking {
        publicKey: node.publicKey.clone(),
        alias: node.alias.clone(),
        channels: node.channels,
        capacity: node.capacity,
        firstSeen: node.firstSeen,
        updatedAt: node.updatedAt,
    };
    let record = normalize(copy, capacity_in_btc);
    proof {
        lemma_normalized_attributes(*node, capacity_in_btc@, record);
    }
    create_node(table_name, record)
}

/// Take one step of an ingestion run.
pub fn step(table_name: &str, state: IngestState, event: IngestEvent) -> (result: (
    IngestState,
    IngestAction,
))
    ensures
        follows(table_name@, state, event, result.0, result.1),
        well_formed(state) ==> well_formed(result.0),
{
    match (state, event) {
        (IngestState::Idle, IngestEvent::Started) => (IngestState::Fetching, IngestAction::Fetch),
        (IngestState::Fetching, IngestEvent::Fetched(outcome)) => {
            match fetch_node_rankings(outcome) {
                Ok(rankings) => {
                    let satoshi = rankings[0].capacity;
                    (
                        IngestState::Converting { rankings, next: 0 },
                        IngestAction::FormatCapacity(satoshi),
                    )
                },
                Err(error) => (IngestState::Failed(error), IngestAction::Abort(error)),
            }
        },
        (IngestState::Converting { rankings, next }, IngestEvent::CapacityFormatted(text)) => {
            if next < rankings.len() {
                let request = write_of(table_name, &rankings[next], text);
                (IngestState::Writing { rankings, next }, IngestAction::Write(request))
            } else {
                (IngestState::Converting { rankings, next }, IngestAction::Nothing)
            }
        },
        (IngestState::Writing { rankings, next }, IngestEvent::Written) => {
            if next < rankings.len() {
                if next + 1 < rankings.len() {
                    let satoshi = rankings[next + 1].capacity;
                    (
                        IngestState::Converting { rankings, next: next + 1 },
                        IngestAction::FormatCapacity(satoshi),
                    )
                } else {
                    (IngestState::Done, IngestAction::Finish)
                }
            } else {
                (IngestState::Writing { rankings, next }, IngestAction::Nothing)
            }
        },
        (IngestState::Writing { rankings, next }, IngestEvent::WriteFailed) => {
            if next < rankings.len() {
                (
                    IngestState::Failed(PipelineError::StoreWriteError),
                    IngestAction::Abort(PipelineError::StoreWriteError),
                )
            } else {
                (IngestState::Writing { rankings, next }, IngestAction::Nothing)
            }
        },
        (state, _) => (state, IngestAction::Nothing),
    }
}

} // verus!
