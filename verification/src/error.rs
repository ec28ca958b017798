//! Engine-level error taxonomy.

use vstd::prelude::*;
use crate::tag::Tag;

verus! {

/// A set of errors.
///
/// Engine faults only: a command's ordinary `NO`/`BAD` outcome is delivered
/// as data, never through this type.
#[derive(Debug, PartialEq, Eq, Clone)]
pub enum Error {
    /// Failed write or read on the transport; fatal to the connection and
    /// propagated to every outstanding waiter. Carries a description of the
    /// underlying fault.
    Io(String),
    /// Error with a custom message.
    Custom(String),
    /// A malformed complete wire unit; carries the offending bytes.
    /// Framing can no longer be trusted, so the connection should close.
    Parser(Vec<u8>),
    /// A tagged completion named a tag that is unknown or already resolved.
    /// Reported without aborting the reader: framing itself remains trusted.
    ProtocolViolation(Tag),
}

/// Builds the `Custom` error around a message.
pub fn create_custom_error(msg: String) -> (r: Error)
    ensures
        r matches Error::Custom(m) && m@ == msg@,
{
    Error::Custom(msg)
}

} // verus!
