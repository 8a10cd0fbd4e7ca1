//! Error taxonomy of the protocol layer.

use vstd::prelude::*;

verus! {

/// Errors surfaced by the protocol layer.
///
/// `Transport` carries a message produced by the outside transport;
/// `Status` carries a non-success IPP status code from a response;
/// `Protocol` marks a malformed or unexpected response shape;
/// `PrinterState` carries the offending state-reason keywords found by the
/// precondition check; `Validation` marks invalid builder input detected
/// before any network call.
#[derive(Debug)]
pub enum IppError {
    Transport(String),
    Status(u16),
    Protocol(String),
    PrinterState(Vec<String>),
    Validation(String),
}

} // verus!
