//! Video payloads, which this layer carries without looking inside.

use crate::connection::{Connection, ProtocolParameters};
use crate::error::Error;
use crate::header::Header;
use crate::messageinterface::MessageInterface;
use crate::slicereader::SliceReader;
use vstd::prelude::*;
use vstd::slice::slice_to_vec;

verus! {

/// The payload of a video message.
#[derive(Clone, Debug, PartialEq, Eq)]
pub struct VideoData {
    pub data: Vec<u8>,
}

impl View for VideoData {
    type V = Seq<u8>;

    open spec fn view(&self) -> Seq<u8> {
        self.data@
    }
}

impl MessageInterface for VideoData {
    /// The payload is as long as `header` says.
    open spec fn decoding(header: Header, input: Seq<u8>) -> Result<(Seq<u8>, nat), Error> {
        if input.len() < header.message_length {
            Err(Error::TruncatedPayload)
        } else {
            Ok((input.subrange(0, header.message_length as int), header.message_length as nat))
        }
    }

    open spec fn encoding(message: Seq<u8>) -> Option<Seq<u8>> {
        Some(message)
    }

    /// Video goes out under the header it holds.
    open spec fn outbound(message: Seq<u8>, header: Header) -> Header {
        header
    }

    /// Sending it sets nothing.
    open spec fn sent(message: Seq<u8>, parameters: ProtocolParameters) -> ProtocolParameters {
        parameters
    }

    fn read(header: Header, reader: &mut SliceReader) -> (r: Result<VideoData, Error>) {
        let size = header.message_length as usize;
        let slice = reader.read(size)?;
        Ok(VideoData { data: slice_to_vec(slice) })
    }

    fn send(&self, writer: &mut Vec<u8>, _connection: &mut Connection) -> (r: Result<usize, Error>) {
        crate::bytes::append(writer, self.data.as_slice());
        Ok(self.data.len())
    }

    fn fill_header(&self, _header: &mut Header) {
    }
}

} // verus!
