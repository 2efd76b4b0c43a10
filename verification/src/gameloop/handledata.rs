//! From a received frame to the handler of its kind.

pub mod mapper;
pub mod router;
pub mod routes;
