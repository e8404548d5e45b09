//! A composable networking pipeline: an ordered chain of handler stages that
//! turn tagged byte buffers arriving from a transport into typed application
//! messages on the inbound path, and typed messages back into byte buffers on
//! the outbound path.
//!
//! The crate verifies the pipeline core: stage composition with a type-checked
//! chain, in-order event dispatch, line-based framing, string encoding and
//! decoding, timer aggregation, and the per-connection event-loop decisions.
//! Socket work itself stays outside, reached through the outbound channel.

pub mod async_transport;
pub mod bootstrap;
pub mod executor;
pub mod frame;
pub mod handler;
pub mod handler_internal;
pub mod message;
pub mod outbound;
pub mod pipeline;
pub mod string_codec;
pub mod transport;
