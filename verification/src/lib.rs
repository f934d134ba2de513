//! Batch consumer core for geospatial feature change events.
//!
//! A batch of queue records is decoded into typed jobs, each job is guarded
//! against an expired bearer token and dispatched to a remote map layer with
//! bounded retry, and the batch reports exactly the records that failed so
//! the queue redelivers only those.
//!
//! The library decides; the caller performs the network and clock work and
//! feeds the observations back in.
pub mod text;
pub mod payload;
pub mod json;
pub mod schema;
pub mod decode;
pub mod guard;
pub mod outcome;
pub mod key;
pub mod policy;
pub mod request;
pub mod dispatch;
pub mod batch;
pub mod laws;
