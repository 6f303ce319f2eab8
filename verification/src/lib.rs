//! A serial-to-TCP bridge core: frames a raw byte stream into
//! newline-delimited lines, validates each line as JSON, and fans validated
//! lines out to the configured downstream consumers.
pub mod config;
pub mod framer;
pub mod pipeline;
pub mod registry;
pub mod validator;
