//! Ranked snapshot of network nodes: the key schema of the ranking store,
//! the attribute-value codec, and the normalisation of upstream records.

pub mod decimal;
pub mod dtos;
pub mod dynamo;
pub mod dynamo_utils;
pub mod errors;
pub mod fetch_nodes;
pub mod json_text;
pub mod mempool_api;
pub mod update_node_rankings;
pub mod utils;
