//! User control messages: an event number of two bytes and its arguments.

use crate::bytes::{be_u16, be_u32, u16_be_bytes, u32_be_bytes, write_u16_be, write_u32_be};
use crate::bytes::lemma_be_round_trip;
use crate::connection::{Connection, ProtocolParameters};
use crate::error::Error;
use crate::header::Header;
use crate::message::{CONTROL_CHUNK_STREAM, TYPE_USER_CONTROL};
use crate::messageinterface::MessageInterface;
use crate::slicereader::SliceReader;
use vstd::prelude::*;

verus! {

/// The numbers of the events.
pub const EVENT_STREAM_BEGIN: u16 = 0;

pub const EVENT_SET_BUFFER_LENGTH: u16 = 3;

pub const EVENT_PING_REQUEST: u16 = 6;

pub const EVENT_PING_RESPONSE: u16 = 7;

/// The events that this layer knows.
#[derive(Clone, Copy, Debug, PartialEq, Eq, Structural)]
pub enum UserControlMessage {
    /// The stream with this id has become usable.
    StreamBegin(u32),
    /// Stream id, and the length of the client's buffer in milliseconds.
    SetBufferLength(u32, u32),
    /// A ping, with the sender's time.
    PingRequest(u32),
    /// The answer to a ping, with the time that the ping carried.
    PingResponse(u32),
}

impl View for UserControlMessage {
    type V = UserControlMessage;

    open spec fn view(&self) -> UserControlMessage {
        *self
    }
}

impl MessageInterface for UserControlMessage {
    /// An event number that is none of the four is a malformed header of
    /// the event, whatever follows the number.
    open spec fn decoding(header: Header, input: Seq<u8>) -> Result<(UserControlMessage, nat), Error> {
        if input.len() < 2 {
            Err(Error::TruncatedPayload)
        } else if be_u16(input) == EVENT_STREAM_BEGIN {
            if input.len() < 6 {
                Err(Error::TruncatedPayload)
            } else {
                Ok((UserControlMessage::StreamBegin(be_u32(input.skip(2)) as u32), 6))
            }
        } else if be_u16(input) == EVENT_SET_BUFFER_LENGTH {
            if input.len() < 10 {
                Err(Error::TruncatedPayload)
            } else {
                Ok(
                    (
                        UserControlMessage::SetBufferLength(
                            be_u32(input.skip(2)) as u32,
                            be_u32(input.skip(6)) as u32,
                        ),
                        10,
                    ),
                )
            }
        } else if be_u16(input) == EVENT_PING_REQUEST {
            if input.len() < 6 {
                Err(Error::TruncatedPayload)
            } else {
                Ok((UserControlMessage::PingRequest(be_u32(input.skip(2)) as u32), 6))
            }
        } else if be_u16(input) == EVENT_PING_RESPONSE {
            if input.len() < 6 {
                Err(Error::TruncatedPayload)
            } else {
                Ok((UserControlMessage::PingResponse(be_u32(input.skip(2)) as u32), 6))
            }
        } else {
            Err(Error::MalformedHeader)
        }
    }

    open spec fn encoding(message: UserControlMessage) -> Option<Seq<u8>> {
        Some(
            match message {
                UserControlMessage::StreamBegin(stream_id) => u16_be_bytes(EVENT_STREAM_BEGIN)
                    + u32_be_bytes(stream_id),
                UserControlMessage::SetBufferLength(stream_id, buffer_length) => u16_be_bytes(
                    EVENT_SET_BUFFER_LENGTH,
                ) + u32_be_bytes(stream_id) + u32_be_bytes(buffer_length),
                UserControlMessage::PingRequest(timestamp) => u16_be_bytes(EVENT_PING_REQUEST)
                    + u32_be_bytes(timestamp),
                UserControlMessage::PingResponse(timestamp) => u16_be_bytes(EVENT_PING_RESPONSE)
                    + u32_be_bytes(timestamp),
            },
        )
    }

    /// A user control message goes out on the control chunk stream, under
    /// a header that gives the length of its event: ten bytes for
    /// `SetBufferLength`, six for the others.
    open spec fn outbound(message: UserControlMessage, header: Header) -> Header {
        Header {
            chunk_stream_id: CONTROL_CHUNK_STREAM,
            timestamp: 0,
            delta_timestamp: 0,
            message_length: if message is SetBufferLength {
                10
            } else {
                6
            },
            message_type_id: TYPE_USER_CONTROL,
            message_stream_id: 0,
            extend_timestamp: false,
            htype: 0,
        }
    }

    /// Sending it sets nothing.
    open spec fn sent(message: UserControlMessage, parameters: ProtocolParameters) -> ProtocolParameters {
        parameters
    }

    fn read(_header: Header, reader: &mut SliceReader) -> (r: Result<UserControlMessage, Error>) {
        let start = *reader;
        let id = reader.read_u16_be()?;
        let r = Self::read_event(id, reader);
        if r.is_err() {
            *reader = start;
        } else {
            assert(reader@ =~= old(reader)@.skip(if id == EVENT_SET_BUFFER_LENGTH {
                10int
            } else {
                6int
            }));
        }
        r
    }

    fn send(&self, writer: &mut Vec<u8>, _connection: &mut Connection) -> (r: Result<usize, Error>) {
        let mut result: usize = 0;
        match *self {
            UserControlMessage::StreamBegin(stream_id) => {
                write_u16_be(writer, EVENT_STREAM_BEGIN);
                result += 2;
                write_u32_be(writer, stream_id);
                result += 4;
            },
            UserControlMessage::SetBufferLength(stream_id, buffer_length) => {
                write_u16_be(writer, EVENT_SET_BUFFER_LENGTH);
                result += 2;
                write_u32_be(writer, stream_id);
                result += 4;
                write_u32_be(writer, buffer_length);
                result += 4;
            },
            UserControlMessage::PingRequest(timestamp) => {
                write_u16_be(writer, EVENT_PING_REQUEST);
                result += 2;
                write_u32_be(writer, timestamp);
                result += 4;
            },
            UserControlMessage::PingResponse(timestamp) => {
                write_u16_be(writer, EVENT_PING_RESPONSE);
                result += 2;
                write_u32_be(writer, timestamp);
                result += 4;
            },
        }
        assert(writer@ =~= old(writer)@ + Self::encoding(*self)->0);
        Ok(result)
    }

    fn fill_header(&self, header: &mut Header) {
        let message_length: u32 = match self {
            UserControlMessage::SetBufferLength(_, _) => 10,
            _ => 6,
        };
        header.copy(Header::new(CONTROL_CHUNK_STREAM, 0, message_length, TYPE_USER_CONTROL, 0));
    }
}

impl UserControlMessage {
    /// Reads the arguments of the event with number `id`.
    fn read_event(id: u16, reader: &mut SliceReader) -> (r: Result<UserControlMessage, Error>)
        ensures
            match r {
                Ok(m) => {
                    &&& id == EVENT_STREAM_BEGIN || id == EVENT_SET_BUFFER_LENGTH || id
                        == EVENT_PING_REQUEST || id == EVENT_PING_RESPONSE
                    &&& id == EVENT_STREAM_BEGIN ==> m == UserControlMessage::StreamBegin(
                        be_u32(old(reader)@) as u32,
                    )
                    &&& id == EVENT_SET_BUFFER_LENGTH ==> m == UserControlMessage::SetBufferLength(
                        be_u32(old(reader)@) as u32,
                        be_u32(old(reader)@.skip(4)) as u32,
                    )
                    &&& id == EVENT_PING_REQUEST ==> m == UserControlMessage::PingRequest(
                        be_u32(old(reader)@) as u32,
                    )
                    &&& id == EVENT_PING_RESPONSE ==> m == UserControlMessage::PingResponse(
                        be_u32(old(reader)@) as u32,
                    )
                    &&& old(reader)@.len() >= (if id == EVENT_SET_BUFFER_LENGTH {
                        8int
                    } else {
                        4int
                    })
                    &&& final(reader)@ == old(reader)@.skip(
                        if id == EVENT_SET_BUFFER_LENGTH {
                            8int
                        } else {
                            4int
                        },
                    )
                },
                Err(e) => if id == EVENT_STREAM_BEGIN || id == EVENT_PING_REQUEST || id
                    == EVENT_PING_RESPONSE {
                    e == Error::TruncatedPayload && old(reader)@.len() < 4
                } else if id == EVENT_SET_BUFFER_LENGTH {
                    e == Error::TruncatedPayload && old(reader)@.len() < 8
                } else {
                    e == Error::MalformedHeader
                },
            },
    {
        match id {
            0 => {
                let stream_id = reader.read_u32_be()?;
                Ok(UserControlMessage::StreamBegin(stream_id))
            },
            3 => {
                let stream_id = reader.read_u32_be()?;
                let buffer_length = reader.read_u32_be()?;
                assert(reader@ =~= old(reader)@.skip(8));
                Ok(UserControlMessage::SetBufferLength(stream_id, buffer_length))
            },
            6 => {
                let timestamp = reader.read_u32_be()?;
                Ok(UserControlMessage::PingRequest(timestamp))
            },
            7 => {
                let timestamp = reader.read_u32_be()?;
                Ok(UserControlMessage::PingResponse(timestamp))
            },
            _ => Err(Error::MalformedHeader),
        }
    }
}

/// Reading what `send` wrote gives the event back.
pub proof fn lemma_event_round_trip(message: UserControlMessage)
    ensures
        UserControlMessage::encoding(message) is Some,
        UserControlMessage::encoding(message)->0.len() == (if message is SetBufferLength {
            10int
        } else {
            6int
        }),
        forall|header: Header|
            #[trigger] UserControlMessage::decoding(header, UserControlMessage::encoding(message)->0)
                == Ok::<(UserControlMessage, nat), Error>(
                (message, UserControlMessage::encoding(message)->0.len()),
            ),
{
    let bytes = UserControlMessage::encoding(message)->0;
    lemma_be_round_trip(EVENT_STREAM_BEGIN, 0, 0);
    lemma_be_round_trip(EVENT_SET_BUFFER_LENGTH, 0, 0);
    lemma_be_round_trip(EVENT_PING_REQUEST, 0, 0);
    lemma_be_round_trip(EVENT_PING_RESPONSE, 0, 0);
    match message {
        UserControlMessage::StreamBegin(a) => {
            lemma_be_round_trip(0, 0, a);
            assert(bytes.subrange(0, 2) =~= u16_be_bytes(EVENT_STREAM_BEGIN));
            assert(bytes.skip(2) =~= u32_be_bytes(a));
        },
        UserControlMessage::SetBufferLength(a, b) => {
            lemma_be_round_trip(0, 0, a);
            lemma_be_round_trip(0, 0, b);
            assert(bytes.subrange(0, 2) =~= u16_be_bytes(EVENT_SET_BUFFER_LENGTH));
            assert(bytes.skip(2).subrange(0, 4) =~= u32_be_bytes(a));
            assert(bytes.skip(6) =~= u32_be_bytes(b));
            assert(be_u32(bytes.skip(2)) == be_u32(bytes.skip(2).subrange(0, 4)));
        },
        UserControlMessage::PingRequest(a) => {
            lemma_be_round_trip(0, 0, a);
            assert(bytes.subrange(0, 2) =~= u16_be_bytes(EVENT_PING_REQUEST));
            assert(bytes.skip(2) =~= u32_be_bytes(a));
        },
        UserControlMessage::PingResponse(a) => {
            lemma_be_round_trip(0, 0, a);
            assert(bytes.subrange(0, 2) =~= u16_be_bytes(EVENT_PING_RESPONSE));
            assert(bytes.skip(2) =~= u32_be_bytes(a));
        },
    }
    assert(be_u16(bytes) == be_u16(bytes.subrange(0, 2)));
}

} // verus!
