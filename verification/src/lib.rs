//! A minimal embedded HTTP engine: request parsing, response building and
//! serialization, a page-registry lookup, a small server-side template
//! language, and the decision logic of the connection and worker-pool
//! machinery. The logic is verified; the system clock and percent-decoding
//! are reached through narrow trusted wrappers.

pub mod connection;
pub mod httpdate;
pub mod logging;
pub mod pages;
pub mod pool;
pub mod request;
pub mod response;
pub mod strmap;
pub mod template;
pub mod text;
pub mod urlcodec;
