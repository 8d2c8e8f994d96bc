//! What every kind of message can do: decode itself from a payload,
//! encode itself on a connection, and describe the header it goes out
//! with.

use crate::connection::{Connection, ProtocolParameters};
use crate::error::Error;
use crate::header::Header;
use crate::slicereader::SliceReader;
use vstd::prelude::*;

verus! {

pub trait MessageInterface: Sized + View {
    /// The message at the front of `input`, which arrived under `header`,
    /// and the number of bytes of `input` that make it up.
    spec fn decoding(header: Header, input: Seq<u8>) -> Result<(Self::V, nat), Error>;

    /// The payload of the message on the wire, or `None` where the message
    /// has no encoding.
    spec fn encoding(message: Self::V) -> Option<Seq<u8>>;

    /// The header that the message is sent under, where `header` is the
    /// one it holds.
    spec fn outbound(message: Self::V, header: Header) -> Header;

    /// The parameters of a connection after the message has been sent on
    /// it, where they were `parameters` before.
    spec fn sent(message: Self::V, parameters: ProtocolParameters) -> ProtocolParameters;

    /// Decodes a message from the reader. On an error the reader is where
    /// it was.
    fn read(header: Header, reader: &mut SliceReader) -> (r: Result<Self, Error>)
        ensures
            match Self::decoding(header, old(reader)@) {
                Ok((message, n)) => r matches Ok(m) && m@ == message && final(reader)@ == old(
                    reader,
                )@.skip(n as int),
                Err(e) => r matches Err(x) && x == e && final(reader)@ == old(reader)@,
            },
    ;

    /// Appends the payload and returns its length, and lets the connection
    /// take in what the message sets for what this side sends. Where the
    /// message has no encoding nothing is written and nothing changes.
    fn send(&self, writer: &mut Vec<u8>, connection: &mut Connection) -> (r: Result<usize, Error>)
        ensures
            final(connection).cache@ == old(connection).cache@,
            match Self::encoding(self@) {
                Some(payload) => {
                    &&& r == Ok::<usize, Error>(payload.len() as usize)
                    &&& final(writer)@ == old(writer)@ + payload
                    &&& final(connection).parameters == Self::sent(
                        self@,
                        old(connection).parameters,
                    )
                },
                None => {
                    &&& r is Err
                    &&& final(writer)@ == old(writer)@
                    &&& final(connection).parameters == old(connection).parameters
                },
            },
    ;

    /// Makes `header` the header that the message is sent under.
    fn fill_header(&self, header: &mut Header)
        ensures
            *final(header) == Self::outbound(self@, *old(header)),
    ;
}

} // verus!
