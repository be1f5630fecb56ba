//! A protocol adapter that lets user-supplied record-processing logic take
//! part in a host-managed, stream-sharding consumer daemon over a
//! line-delimited JSON request/response channel.
//!
//! The daemon owns shard assignment, leasing and checkpoint persistence; this
//! crate speaks its wire protocol: it decodes incoming action messages,
//! dispatches them to a processor, runs the nested checkpoint
//! request/response exchange, and acknowledges each handled action with a
//! status line.

pub mod b64;
pub mod checkpointer;
pub mod codec;
pub mod json;
pub mod json_exec;
pub mod json_laws;
pub mod json_render;
pub mod messages;
pub mod processor;
pub mod reader;
pub mod runner;
pub mod responses;
pub mod writer;
pub mod text;

pub use messages::CheckpointError;
pub use messages::Message;
pub use messages::Record;
pub use processor::Processor;
pub use runner::tick;
