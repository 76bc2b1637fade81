//! Correlation and identity layer of an actor runtime: the table that matches
//! requests with their responses, the tokens that carry the obligation to
//! respond, the index of registered message types, and the generator of trace
//! identifiers.

pub mod addr;
pub mod envelope;
pub mod message;
pub mod messages;
pub mod registry;
pub mod request_table;
pub mod tracing;
