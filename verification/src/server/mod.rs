//! The HTTP side: routing, request parameters and the replies the API gives.
pub mod handler;
pub mod host;
