//! Request handling logic of a benchmark HTTP server: the computations,
//! codecs and path rules behind each endpoint, with their contracts.

pub mod text;
pub mod compute;
pub mod codec;
pub mod random;
pub mod static_files;
pub mod config;
pub mod endpoints;
