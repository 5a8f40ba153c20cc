//! Connectors for relational databases and for databases that speak HTTP.
//!
//! The crate decides what is sent to a server and what is made of its answers. It performs no
//! input or output of its own.

pub mod base64_text;
pub mod base_laws;
pub mod budget;
pub mod connection;
pub mod convert;
pub mod convert_laws;
pub mod encoding;
pub mod fields;
pub mod fields_laws;
pub mod http;
pub mod json;
pub mod model;
pub mod request;
pub mod request_laws;
pub mod secret;
pub mod sql;
pub mod temporal;
pub mod text;
pub mod text_laws;
pub mod value;
use vstd::prelude::*;

verus! {

} // verus!
