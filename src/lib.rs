//! The engine-API tree of an Ethereum execution client: the in-memory tree of
//! executed blocks, the buffer of detached blocks, the cache of invalid headers
//! and the handler that turns consensus-layer messages into payload statuses.

pub mod block_buffer;
pub mod consensus;
pub mod engine_types;
pub mod execution;
pub mod forkchoice;
pub mod invalid_cache;
pub mod keyed;
pub mod memory_overlay;
pub mod payload_validator;
pub mod primitives;
pub mod provider;
pub mod stage_id;
pub mod tree;
pub mod tree_state;
