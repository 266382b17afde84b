//! A minimal HTTP/1.1 media server: request parsing, routing and response
//! building, with the directory and socket work left to the caller.

pub mod text;
pub mod types;
pub mod utils;
pub mod request;
pub mod pages;
pub mod server;
pub mod laws;
