//! Core of a columnar, multi-language agent simulation engine.
//!
//! The library covers the typed field schema and its materialized columnar
//! layout, the buffer/node metadata of shared record batches, the metaversion
//! reload protocol, the batch pools kept per simulation, the per-step package
//! pipeline, the worker task dispatcher, the framed runner wire format, and
//! the step output buffer.

pub mod agent;
pub mod batch;
pub mod comms;
pub mod config;
pub mod data_type;
pub mod dispatcher;
pub mod dynmeta;
pub mod error;
pub mod fetch;
pub mod field;
pub mod json;
pub mod meta;
pub mod metaversion;
pub mod orchestrator;
pub mod output_buffer;
pub mod pipeline;
pub mod pool;
pub mod shared_store;
pub mod test_agents;
pub mod wire;
