//! A small web-service runtime: route matching, a middleware chain driven as a
//! state machine, the request and response model, and the uniform error
//! envelope.

pub mod pattern;
pub mod response;
pub mod router;
pub mod context;
pub mod error;
pub mod middleware;
pub mod trace_id;
pub mod extract;
pub mod observability;
pub mod doctor;
