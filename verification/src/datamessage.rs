//! Data messages: a payload that is a sequence of AMF values.

use crate::amf::{concatenation, encodings, values, AmfValue};
use crate::bytes::append;
use crate::connection::{Connection, ProtocolParameters};
use crate::error::Error;
use crate::header::Header;
use crate::messageinterface::MessageInterface;
use crate::slicereader::SliceReader;
use vstd::prelude::*;

verus! {

/// The values of a data message, in order.
#[derive(Clone, Debug, PartialEq, Eq)]
pub struct DataMessage {
    pub data: Vec<AmfValue>,
}

impl View for DataMessage {
    type V = Seq<Seq<u8>>;

    open spec fn view(&self) -> Seq<Seq<u8>> {
        encodings(self.data@)
    }
}

/// Appends the encodings of `list`, first to last.
pub fn write_values(list: &Vec<AmfValue>, writer: &mut Vec<u8>)
    ensures
        final(writer)@ == old(writer)@ + concatenation(encodings(list@)),
{
    let mut i: usize = 0;
    while i < list.len()
        invariant
            i <= list@.len(),
            writer@ == old(writer)@ + concatenation(encodings(list@.subrange(0, i as int))),
        decreases list@.len() - i,
    {
        append(writer, list[i].bytes.as_slice());
        i += 1;
        proof {
            let shown = encodings(list@.subrange(0, i as int));
            assert(shown.drop_last() =~= encodings(list@.subrange(0, i - 1)));
            assert(shown.last() == list@[i - 1]@);
            assert(writer@ =~= old(writer)@ + concatenation(shown));
        }
    }
    assert(list@.subrange(0, i as int) =~= list@);
}

impl MessageInterface for DataMessage {
    /// The payload is as long as `header` says, and is made of values from
    /// its first byte to its last.
    open spec fn decoding(header: Header, input: Seq<u8>) -> Result<(Seq<Seq<u8>>, nat), Error> {
        if input.len() < header.message_length {
            Err(Error::TruncatedPayload)
        } else {
            match values(input.subrange(0, header.message_length as int)) {
                Ok(found) => Ok((found, header.message_length as nat)),
                Err(e) => Err(e),
            }
        }
    }

    open spec fn encoding(message: Seq<Seq<u8>>) -> Option<Seq<u8>> {
        Some(concatenation(message))
    }

    /// A data message goes out under the header it holds.
    open spec fn outbound(message: Seq<Seq<u8>>, header: Header) -> Header {
        header
    }

    /// Sending it sets nothing.
    open spec fn sent(message: Seq<Seq<u8>>, parameters: ProtocolParameters) -> ProtocolParameters {
        parameters
    }

    fn read(header: Header, reader: &mut SliceReader) -> (r: Result<DataMessage, Error>) {
        let start = *reader;
        let payload = reader.read(header.message_length as usize)?;
        match AmfValue::read_all(payload) {
            Ok(data) => Ok(DataMessage { data }),
            Err(e) => {
                *reader = start;
                Err(e)
            },
        }
    }

    fn send(&self, writer: &mut Vec<u8>, _connection: &mut Connection) -> (r: Result<usize, Error>) {
        let before = writer.len();
        write_values(&self.data, writer);
        Ok(writer.len() - before)
    }

    fn fill_header(&self, _header: &mut Header) {
    }
}

} // verus!
