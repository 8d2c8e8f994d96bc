use vstd::prelude::*;

verus! {

/// Why the AMF codec gave no value.
#[derive(Clone, Copy, Debug, PartialEq, Eq, Structural)]
pub enum AmfError {
    /// The buffer ended before a value was complete.
    UnexpectedEnd,
    /// The bytes are not a value the codec accepts.
    Malformed,
}

/// Everything that can go wrong while decoding or encoding.
/// Each of these is fatal to the connection it occurs on.
#[derive(Clone, Copy, Debug, PartialEq, Eq, Structural)]
pub enum Error {
    /// A chunk header of format 1, 2 or 3 arrived with no earlier header
    /// to complete it, or a header holds a code that is not known: a type
    /// that is none of the control messages where one is called for, or
    /// the number of an unknown user control event.
    MalformedHeader,
    /// Fewer bytes were there than a header, a chunk or a message calls
    /// for.
    TruncatedPayload,
    /// A command payload does not have the layout of a command: it does
    /// not begin with a string, a number and an object or null. Also a
    /// command that cannot be laid out, for a name beyond what a string
    /// can hold.
    UnknownCommandShape,
    /// The AMF codec failed on a value that the message needs.
    AmfDecodeError(AmfError),
    /// The peer opened the handshake with a version other than 3.
    HandshakeMismatch,
}

} // verus!
