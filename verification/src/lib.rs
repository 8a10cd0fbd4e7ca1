//! Client-side model of the Internet Printing Protocol (IPP): a typed
//! attribute-value model, grouped attributes, operation builders, client
//! request preparation and response interpretation, and the multi-document
//! job workflow.  The raw HTTP(S) transport and the wire codec are outside
//! collaborators: this crate prepares requests for them and interprets the
//! decoded groups they hand back.

pub mod error;
pub mod attribute;
pub mod builder;
pub mod client;
pub mod operation;
pub mod strutil;
pub mod value;
pub mod workflow;
