//! The protocol control messages, and the message as the connection sees
//! it: a header with the decoded payload.

use crate::audiodata::AudioData;
use crate::bytes::{append, be_u32, lemma_be_round_trip, u32_be_bytes, write_u32_be};
use crate::commandemessage::{CommandeMessage, CommandeMessageView};
use crate::connection::{last_header, remember_all, Connection, ProtocolParameters};
use crate::datamessage::DataMessage;
use crate::error::Error;
use crate::header::{lemma_continuation_reads_as_format3, lemma_header_fits};
use crate::header::{lemma_unseen_stream_is_malformed, lemma_write_read_round_trip, Header};
use crate::messageinterface::MessageInterface;
use crate::slicereader::SliceReader;
use crate::usercontrolmessage::{lemma_event_round_trip, UserControlMessage};
use crate::videodata::VideoData;
use vstd::arithmetic::div_mod::{lemma_fundamental_div_mod, lemma_fundamental_div_mod_converse};
use vstd::arithmetic::div_mod::lemma_mod_pos_bound;
use vstd::prelude::*;
use vstd::slice::{slice_subrange, slice_to_vec};

verus! {

/// The chunk stream that control messages travel on.
pub const CONTROL_CHUNK_STREAM: u32 = 2;

/// The message types, as the header of a message gives them.
pub const TYPE_SET_CHUNK_SIZE: u8 = 1;

pub const TYPE_ACKNOWLEDGEMENT: u8 = 3;

pub const TYPE_USER_CONTROL: u8 = 4;

pub const TYPE_WINDOW_ACK_SIZE: u8 = 5;

pub const TYPE_SET_BANDWIDTH: u8 = 6;

pub const TYPE_AUDIO: u8 = 8;

pub const TYPE_VIDEO: u8 = 9;

pub const TYPE_DATA: u8 = 18;

pub const TYPE_COMMAND: u8 = 20;

/// Announces the size of the chunks that the sender will cut its messages
/// into from now on.
#[derive(Clone, Copy, Debug, PartialEq, Eq, Structural)]
pub struct SetChunkSize {
    pub size: u32,
}

/// Reports how many bytes the sender has received so far.
#[derive(Clone, Copy, Debug, PartialEq, Eq, Structural)]
pub struct Acknowledgement {
    pub sequence: u32,
}

/// Announces after how many bytes the sender expects an acknowledgement.
#[derive(Clone, Copy, Debug, PartialEq, Eq, Structural)]
pub struct WindowsAcknowledgementSize {
    pub size: u32,
}

/// Asks the peer to limit its output. `limit_type` is 0 for hard, 1 for
/// soft, 2 for dynamic.
#[derive(Clone, Copy, Debug, PartialEq, Eq, Structural)]
pub struct SetBandwith {
    pub bandwith: u32,
    pub limit_type: u8,
}

/// The four messages that control the protocol itself.
#[derive(Clone, Copy, Debug, PartialEq, Eq, Structural)]
pub enum ControleMessage {
    SetChunkSize(SetChunkSize),
    Acknowledgement(Acknowledgement),
    WindowsAcknowledgementSize(WindowsAcknowledgementSize),
    SetBandwith(SetBandwith),
}

impl View for SetChunkSize {
    type V = SetChunkSize;

    open spec fn view(&self) -> SetChunkSize {
        *self
    }
}

impl View for Acknowledgement {
    type V = Acknowledgement;

    open spec fn view(&self) -> Acknowledgement {
        *self
    }
}

impl View for WindowsAcknowledgementSize {
    type V = WindowsAcknowledgementSize;

    open spec fn view(&self) -> WindowsAcknowledgementSize {
        *self
    }
}

impl View for SetBandwith {
    type V = SetBandwith;

    open spec fn view(&self) -> SetBandwith {
        *self
    }
}

impl View for ControleMessage {
    type V = ControleMessage;

    open spec fn view(&self) -> ControleMessage {
        *self
    }
}

impl MessageInterface for SetChunkSize {
    open spec fn decoding(header: Header, input: Seq<u8>) -> Result<(SetChunkSize, nat), Error> {
        if input.len() < 4 {
            Err(Error::TruncatedPayload)
        } else {
            Ok((SetChunkSize { size: be_u32(input) as u32 }, 4))
        }
    }

    open spec fn encoding(message: SetChunkSize) -> Option<Seq<u8>> {
        Some(u32_be_bytes(message.size))
    }

    open spec fn outbound(message: SetChunkSize, header: Header) -> Header {
        Header {
            chunk_stream_id: CONTROL_CHUNK_STREAM,
            timestamp: 0,
            delta_timestamp: 0,
            message_length: 4,
            message_type_id: TYPE_SET_CHUNK_SIZE,
            message_stream_id: 0,
            extend_timestamp: false,
            htype: 0,
        }
    }

    /// From the next message on, this side cuts what it sends into chunks
    /// of the size that the message announces.
    open spec fn sent(message: SetChunkSize, parameters: ProtocolParameters) -> ProtocolParameters {
        parameters.after_sending(ControleMessage::SetChunkSize(message))
    }

    fn read(_header: Header, reader: &mut SliceReader) -> (r: Result<SetChunkSize, Error>) {
        let size = reader.read_u32_be()?;
        Ok(SetChunkSize { size })
    }

    fn send(&self, writer: &mut Vec<u8>, connection: &mut Connection) -> (r: Result<usize, Error>) {
        write_u32_be(writer, self.size);
        connection.parameters.sent(&ControleMessage::SetChunkSize(*self));
        Ok(4)
    }

    fn fill_header(&self, header: &mut Header) {
        header.copy(Header::new(CONTROL_CHUNK_STREAM, 0, 4, TYPE_SET_CHUNK_SIZE, 0));
    }
}

impl MessageInterface for Acknowledgement {
    open spec fn decoding(header: Header, input: Seq<u8>) -> Result<(Acknowledgement, nat), Error> {
        if input.len() < 4 {
            Err(Error::TruncatedPayload)
        } else {
            Ok((Acknowledgement { sequence: be_u32(input) as u32 }, 4))
        }
    }

    open spec fn encoding(message: Acknowledgement) -> Option<Seq<u8>> {
        Some(u32_be_bytes(message.sequence))
    }

    open spec fn outbound(message: Acknowledgement, header: Header) -> Header {
        Header {
            chunk_stream_id: CONTROL_CHUNK_STREAM,
            timestamp: 0,
            delta_timestamp: 0,
            message_length: 4,
            message_type_id: TYPE_ACKNOWLEDGEMENT,
            message_stream_id: 0,
            extend_timestamp: false,
            htype: 0,
        }
    }

    /// Sending it sets nothing.
    open spec fn sent(message: Acknowledgement, parameters: ProtocolParameters) -> ProtocolParameters {
        parameters
    }

    fn read(_header: Header, reader: &mut SliceReader) -> (r: Result<Acknowledgement, Error>) {
        let sequence = reader.read_u32_be()?;
        Ok(Acknowledgement { sequence })
    }

    fn send(&self, writer: &mut Vec<u8>, _connection: &mut Connection) -> (r: Result<usize, Error>) {
        write_u32_be(writer, self.sequence);
        Ok(4)
    }

    fn fill_header(&self, header: &mut Header) {
        header.copy(Header::new(CONTROL_CHUNK_STREAM, 0, 4, TYPE_ACKNOWLEDGEMENT, 0));
    }
}

impl MessageInterface for WindowsAcknowledgementSize {
    open spec fn decoding(header: Header, input: Seq<u8>) -> Result<
        (WindowsAcknowledgementSize, nat),
        Error,
    > {
        if input.len() < 4 {
            Err(Error::TruncatedPayload)
        } else {
            Ok((WindowsAcknowledgementSize { size: be_u32(input) as u32 }, 4))
        }
    }

    open spec fn encoding(message: WindowsAcknowledgementSize) -> Option<Seq<u8>> {
        Some(u32_be_bytes(message.size))
    }

    open spec fn outbound(message: WindowsAcknowledgementSize, header: Header) -> Header {
        Header {
            chunk_stream_id: CONTROL_CHUNK_STREAM,
            timestamp: 0,
            delta_timestamp: 0,
            message_length: 4,
            message_type_id: TYPE_WINDOW_ACK_SIZE,
            message_stream_id: 0,
            extend_timestamp: false,
            htype: 0,
        }
    }

    /// Sending it sets nothing.
    open spec fn sent(message: WindowsAcknowledgementSize, parameters: ProtocolParameters) -> ProtocolParameters {
        parameters
    }

    fn read(_header: Header, reader: &mut SliceReader) -> (r: Result<
        WindowsAcknowledgementSize,
        Error,
    >) {
        let size = reader.read_u32_be()?;
        Ok(WindowsAcknowledgementSize { size })
    }

    fn send(&self, writer: &mut Vec<u8>, _connection: &mut Connection) -> (r: Result<usize, Error>) {
        write_u32_be(writer, self.size);
        Ok(4)
    }

    fn fill_header(&self, header: &mut Header) {
        header.copy(Header::new(CONTROL_CHUNK_STREAM, 0, 4, TYPE_WINDOW_ACK_SIZE, 0));
    }
}

impl MessageInterface for SetBandwith {
    open spec fn decoding(header: Header, input: Seq<u8>) -> Result<(SetBandwith, nat), Error> {
        if input.len() < 5 {
            Err(Error::TruncatedPayload)
        } else {
            Ok((SetBandwith { bandwith: be_u32(input) as u32, limit_type: input[4] }, 5))
        }
    }

    open spec fn encoding(message: SetBandwith) -> Option<Seq<u8>> {
        Some(u32_be_bytes(message.bandwith).push(message.limit_type))
    }

    open spec fn outbound(message: SetBandwith, header: Header) -> Header {
        Header {
            chunk_stream_id: CONTROL_CHUNK_STREAM,
            timestamp: 0,
            delta_timestamp: 0,
            message_length: 5,
            message_type_id: TYPE_SET_BANDWIDTH,
            message_stream_id: 0,
            extend_timestamp: false,
            htype: 0,
        }
    }

    /// Sending it sets nothing.
    open spec fn sent(message: SetBandwith, parameters: ProtocolParameters) -> ProtocolParameters {
        parameters
    }

    fn read(_header: Header, reader: &mut SliceReader) -> (r: Result<SetBandwith, Error>) {
        let start = *reader;
        let bandwith = reader.read_u32_be()?;
        let limit_type = match reader.read_u8() {
            Ok(limit_type) => limit_type,
            Err(e) => {
                *reader = start;
                return Err(e);
            },
        };
        assert(reader@ =~= old(reader)@.skip(5));
        Ok(SetBandwith { bandwith, limit_type })
    }

    fn send(&self, writer: &mut Vec<u8>, _connection: &mut Connection) -> (r: Result<usize, Error>) {
        write_u32_be(writer, self.bandwith);
        writer.push(self.limit_type);
        Ok(5)
    }

    fn fill_header(&self, header: &mut Header) {
        header.copy(Header::new(CONTROL_CHUNK_STREAM, 0, 5, TYPE_SET_BANDWIDTH, 0));
    }
}

impl MessageInterface for ControleMessage {
    /// The control message that the type of `header` announces. A header
    /// of any other type is malformed as the header of a control message.
    open spec fn decoding(header: Header, input: Seq<u8>) -> Result<(ControleMessage, nat), Error> {
        if header.message_type_id == TYPE_SET_CHUNK_SIZE {
            match SetChunkSize::decoding(header, input) {
                Ok((m, n)) => Ok((ControleMessage::SetChunkSize(m), n)),
                Err(e) => Err(e),
            }
        } else if header.message_type_id == TYPE_ACKNOWLEDGEMENT {
            match Acknowledgement::decoding(header, input) {
                Ok((m, n)) => Ok((ControleMessage::Acknowledgement(m), n)),
                Err(e) => Err(e),
            }
        } else if header.message_type_id == TYPE_WINDOW_ACK_SIZE {
            match WindowsAcknowledgementSize::decoding(header, input) {
                Ok((m, n)) => Ok((ControleMessage::WindowsAcknowledgementSize(m), n)),
                Err(e) => Err(e),
            }
        } else if header.message_type_id == TYPE_SET_BANDWIDTH {
            match SetBandwith::decoding(header, input) {
                Ok((m, n)) => Ok((ControleMessage::SetBandwith(m), n)),
                Err(e) => Err(e),
            }
        } else {
            Err(Error::MalformedHeader)
        }
    }

    open spec fn encoding(message: ControleMessage) -> Option<Seq<u8>> {
        match message {
            ControleMessage::SetChunkSize(s) => SetChunkSize::encoding(s),
            ControleMessage::Acknowledgement(s) => Acknowledgement::encoding(s),
            ControleMessage::WindowsAcknowledgementSize(s) => WindowsAcknowledgementSize::encoding(
                s,
            ),
            ControleMessage::SetBandwith(s) => SetBandwith::encoding(s),
        }
    }

    open spec fn outbound(message: ControleMessage, header: Header) -> Header {
        match message {
            ControleMessage::SetChunkSize(s) => SetChunkSize::outbound(s, header),
            ControleMessage::Acknowledgement(s) => Acknowledgement::outbound(s, header),
            ControleMessage::WindowsAcknowledgementSize(s) => WindowsAcknowledgementSize::outbound(
                s,
                header,
            ),
            ControleMessage::SetBandwith(s) => SetBandwith::outbound(s, header),
        }
    }

    open spec fn sent(message: ControleMessage, parameters: ProtocolParameters) -> ProtocolParameters {
        parameters.after_sending(message)
    }

    fn read(header: Header, reader: &mut SliceReader) -> (r: Result<ControleMessage, Error>) {
        match header.message_type_id {
            1 => Ok(ControleMessage::SetChunkSize(SetChunkSize::read(header, reader)?)),
            3 => Ok(ControleMessage::Acknowledgement(Acknowledgement::read(header, reader)?)),
            5 => Ok(
                ControleMessage::WindowsAcknowledgementSize(
                    WindowsAcknowledgementSize::read(header, reader)?,
                ),
            ),
            6 => Ok(ControleMessage::SetBandwith(SetBandwith::read(header, reader)?)),
            _ => Err(Error::MalformedHeader),
        }
    }

    fn send(&self, writer: &mut Vec<u8>, connection: &mut Connection) -> (r: Result<usize, Error>) {
        match self {
            ControleMessage::SetChunkSize(s) => s.send(writer, connection),
            ControleMessage::Acknowledgement(s) => s.send(writer, connection),
            ControleMessage::WindowsAcknowledgementSize(s) => s.send(writer, connection),
            ControleMessage::SetBandwith(s) => s.send(writer, connection),
        }
    }

    fn fill_header(&self, header: &mut Header) {
        match self {
            ControleMessage::SetChunkSize(s) => s.fill_header(header),
            ControleMessage::Acknowledgement(s) => s.fill_header(header),
            ControleMessage::WindowsAcknowledgementSize(s) => s.fill_header(header),
            ControleMessage::SetBandwith(s) => s.fill_header(header),
        }
    }
}

/// A message as it travels: the header it arrived under, or will be sent
/// under, and what its payload holds.
#[derive(Clone, Debug, PartialEq, Eq)]
pub enum Message {
    ControleMessage(Header, ControleMessage),
    CommandeMessage(Header, CommandeMessage),
    UserControlMessage(Header, UserControlMessage),
    DataMessage(Header, DataMessage),
    AudioData(Header, AudioData),
    VideoData(Header, VideoData),
    /// A message of a type that this layer does not know, with its payload
    /// as it came.
    Unknown(Header, Vec<u8>),
}

/// A [`Message`] as contracts speak of it.
pub enum MessageView {
    ControleMessage(Header, ControleMessage),
    CommandeMessage(Header, CommandeMessageView),
    UserControlMessage(Header, UserControlMessage),
    DataMessage(Header, Seq<Seq<u8>>),
    AudioData(Header, Seq<u8>),
    VideoData(Header, Seq<u8>),
    Unknown(Header, Seq<u8>),
}

impl View for Message {
    type V = MessageView;

    open spec fn view(&self) -> MessageView {
        match self {
            Message::ControleMessage(h, m) => MessageView::ControleMessage(*h, *m),
            Message::CommandeMessage(h, m) => MessageView::CommandeMessage(*h, m@),
            Message::UserControlMessage(h, m) => MessageView::UserControlMessage(*h, *m),
            Message::DataMessage(h, m) => MessageView::DataMessage(*h, m@),
            Message::AudioData(h, m) => MessageView::AudioData(*h, m@),
            Message::VideoData(h, m) => MessageView::VideoData(*h, m@),
            Message::Unknown(h, m) => MessageView::Unknown(*h, m@),
        }
    }
}

impl MessageView {
    /// The same message under another header.
    pub open spec fn with_header(self, header: Header) -> MessageView {
        match self {
            MessageView::ControleMessage(_, m) => MessageView::ControleMessage(header, m),
            MessageView::CommandeMessage(_, m) => MessageView::CommandeMessage(header, m),
            MessageView::UserControlMessage(_, m) => MessageView::UserControlMessage(header, m),
            MessageView::DataMessage(_, m) => MessageView::DataMessage(header, m),
            MessageView::AudioData(_, m) => MessageView::AudioData(header, m),
            MessageView::VideoData(_, m) => MessageView::VideoData(header, m),
            MessageView::Unknown(_, m) => MessageView::Unknown(header, m),
        }
    }

    /// The payload of the message on the wire, or `None` where it has no
    /// encoding. The payload of an unknown message is its bytes as they came.
    pub open spec fn payload(self) -> Option<Seq<u8>> {
        match self {
            MessageView::ControleMessage(_, m) => ControleMessage::encoding(m),
            MessageView::CommandeMessage(_, m) => CommandeMessage::encoding(m),
            MessageView::UserControlMessage(_, m) => UserControlMessage::encoding(m),
            MessageView::DataMessage(_, m) => DataMessage::encoding(m),
            MessageView::AudioData(_, m) => AudioData::encoding(m),
            MessageView::VideoData(_, m) => VideoData::encoding(m),
            MessageView::Unknown(_, m) => Some(m),
        }
    }

    /// The header that the message is sent under. An unknown message goes
    /// out under the header it holds.
    pub open spec fn outbound(self) -> Header {
        match self {
            MessageView::ControleMessage(h, m) => ControleMessage::outbound(m, h),
            MessageView::CommandeMessage(h, m) => CommandeMessage::outbound(m, h),
            MessageView::UserControlMessage(h, m) => UserControlMessage::outbound(m, h),
            MessageView::DataMessage(h, m) => DataMessage::outbound(m, h),
            MessageView::AudioData(h, m) => AudioData::outbound(m, h),
            MessageView::VideoData(h, m) => VideoData::outbound(m, h),
            MessageView::Unknown(h, _) => h,
        }
    }

    /// The parameters of a connection after the message has arrived on it.
    pub open spec fn received_by(self, parameters: ProtocolParameters) -> ProtocolParameters {
        match self {
            MessageView::ControleMessage(_, m) => parameters.after_receiving(m),
            _ => parameters,
        }
    }

    /// The parameters of a connection after the message has left on it.
    pub open spec fn sent_by(self, parameters: ProtocolParameters) -> ProtocolParameters {
        match self {
            MessageView::ControleMessage(_, m) => parameters.after_sending(m),
            _ => parameters,
        }
    }
}

/// The payload of one message as it was put together from its chunks.
pub struct Body {
    pub payload: Seq<u8>,
    /// The headers of the second and the further chunks, in order.
    pub headers: Seq<Header>,
    /// How many bytes the chunks and their headers take.
    pub len: nat,
}

/// A message as it was read from a connection.
pub struct Reading {
    pub message: MessageView,
    /// The headers of all the chunks of the message, in order. The first
    /// is the header of the message.
    pub headers: Seq<Header>,
    /// How many bytes the message takes on the wire.
    pub len: nat,
}

/// How many chunks a payload of `len` bytes travels in.
pub open spec fn chunk_count(len: nat, chunk_size: nat) -> nat
    recommends
        chunk_size > 0,
{
    ((len + chunk_size - 1) / (chunk_size as int)) as nat
}

/// The `remaining` bytes of a payload, collected from chunks of at most
/// `chunk_size` bytes. `input` begins with the bytes of a chunk; every
/// further chunk stands behind a header, which is completed from the
/// header before it, `last` at first. No chunk can carry anything where
/// the chunk size is zero.
#[verifier::opaque]
pub open spec fn dechunk(input: Seq<u8>, last: Header, remaining: nat, chunk_size: nat) -> Result<
    Body,
    Error,
>
    decreases remaining,
{
    let take = if remaining < chunk_size {
        remaining
    } else {
        chunk_size
    };
    if remaining == 0 {
        Ok(Body { payload: Seq::empty(), headers: Seq::empty(), len: 0 })
    } else if chunk_size == 0 || input.len() < take {
        Err(Error::TruncatedPayload)
    } else if remaining == take {
        Ok(Body { payload: input.subrange(0, take as int), headers: Seq::empty(), len: take })
    } else {
        match Header::decoding(input.skip(take as int), Some(last)) {
            Err(e) => Err(e),
            Ok((header, n)) => match dechunk(
                input.skip((take + n) as int),
                header,
                (remaining - take) as nat,
                chunk_size,
            ) {
                Err(e) => Err(e),
                Ok(more) => Ok(
                    Body {
                        payload: input.subrange(0, take as int) + more.payload,
                        headers: seq![header] + more.headers,
                        len: take + n + more.len,
                    },
                ),
            },
        }
    }
}

/// A payload cut into chunks of `chunk_size` bytes for the wire: the first
/// chunk bare, every further chunk behind the one-byte header that
/// continues the message of `header`. A chunk size of zero cuts nothing.
pub open spec fn chunked(payload: Seq<u8>, header: Header, chunk_size: nat) -> Seq<u8>
    decreases payload.len(),
{
    if chunk_size == 0 || payload.len() <= chunk_size {
        payload
    } else {
        payload.subrange(0, chunk_size as int) + header.continuation() + chunked(
            payload.skip(chunk_size as int),
            header,
            chunk_size,
        )
    }
}

/// What `dechunk` makes of a payload that is complete.
proof fn lemma_dechunk_done(input: Seq<u8>, last: Header, chunk_size: nat)
    ensures
        dechunk(input, last, 0, chunk_size) == Ok::<Body, Error>(
            Body { payload: Seq::empty(), headers: Seq::empty(), len: 0 },
        ),
{
    reveal(dechunk);
}

/// What `dechunk` makes of a payload that no chunk size lets through, or
/// whose next chunk is cut short.
proof fn lemma_dechunk_short(input: Seq<u8>, last: Header, remaining: nat, chunk_size: nat)
    requires
        remaining > 0,
        chunk_size == 0 || input.len() < remaining && input.len() < chunk_size,
    ensures
        dechunk(input, last, remaining, chunk_size) == Err::<Body, Error>(Error::TruncatedPayload),
{
    reveal(dechunk);
}

/// What `dechunk` makes of the last chunk of a payload.
proof fn lemma_dechunk_last(input: Seq<u8>, last: Header, remaining: nat, chunk_size: nat)
    requires
        0 < remaining <= chunk_size,
        remaining <= input.len(),
    ensures
        dechunk(input, last, remaining, chunk_size) == Ok::<Body, Error>(
            Body {
                payload: input.subrange(0, remaining as int),
                headers: Seq::empty(),
                len: remaining,
            },
        ),
{
    reveal(dechunk);
}

/// What `dechunk` makes of a chunk that is not the last of its payload.
proof fn lemma_dechunk_more(input: Seq<u8>, last: Header, remaining: nat, chunk_size: nat)
    requires
        0 < chunk_size < remaining,
        chunk_size <= input.len(),
    ensures
        dechunk(input, last, remaining, chunk_size) == match Header::decoding(
            input.skip(chunk_size as int),
            Some(last),
        ) {
            Err(e) => Err::<Body, Error>(e),
            Ok((header, n)) => match dechunk(
                input.skip((chunk_size + n) as int),
                header,
                (remaining - chunk_size) as nat,
                chunk_size,
            ) {
                Err(e) => Err(e),
                Ok(more) => Ok(
                    Body {
                        payload: input.subrange(0, chunk_size as int) + more.payload,
                        headers: seq![header] + more.headers,
                        len: chunk_size + n + more.len,
                    },
                ),
            },
        },
{
    reveal(dechunk);
}

impl Message {
    /// What a payload is as a message of type `message_type_id`, where
    /// `header` is the header the payload arrived under. The types 1, 3, 5
    /// and 6 are control messages, 4 is a user control message, 8 audio,
    /// 9 video, 18 a data message and 20 a command. A payload of any other
    /// type is kept as it is.
    pub open spec fn decoded(message_type_id: u8, header: Header, payload: Seq<u8>) -> Result<
        MessageView,
        Error,
    > {
        if message_type_id == TYPE_SET_CHUNK_SIZE || message_type_id == TYPE_ACKNOWLEDGEMENT
            || message_type_id == TYPE_WINDOW_ACK_SIZE || message_type_id == TYPE_SET_BANDWIDTH {
            match ControleMessage::decoding(header, payload) {
                Ok((m, _)) => Ok(MessageView::ControleMessage(header, m)),
                Err(e) => Err(e),
            }
        } else if message_type_id == TYPE_USER_CONTROL {
            match UserControlMessage::decoding(header, payload) {
                Ok((m, _)) => Ok(MessageView::UserControlMessage(header, m)),
                Err(e) => Err(e),
            }
        } else if message_type_id == TYPE_AUDIO {
            match AudioData::decoding(header, payload) {
                Ok((m, _)) => Ok(MessageView::AudioData(header, m)),
                Err(e) => Err(e),
            }
        } else if message_type_id == TYPE_VIDEO {
            match VideoData::decoding(header, payload) {
                Ok((m, _)) => Ok(MessageView::VideoData(header, m)),
                Err(e) => Err(e),
            }
        } else if message_type_id == TYPE_DATA {
            match DataMessage::decoding(header, payload) {
                Ok((m, _)) => Ok(MessageView::DataMessage(header, m)),
                Err(e) => Err(e),
            }
        } else if message_type_id == TYPE_COMMAND {
            match CommandeMessage::decoding(header, payload) {
                Ok((m, _)) => Ok(MessageView::CommandeMessage(header, m)),
                Err(e) => Err(e),
            }
        } else {
            Ok(MessageView::Unknown(header, payload))
        }
    }

    /// The message at the front of `input` on a connection with the given
    /// cache of headers, whose peer cuts its messages into chunks of
    /// `chunk_size` bytes.
    pub open spec fn reading(input: Seq<u8>, cache: Map<u32, Header>, chunk_size: u32) -> Result<
        Reading,
        Error,
    > {
        match Header::decoding(input, last_header(cache, Header::basic_stream_id(input))) {
            Err(e) => Err(e),
            Ok((header, n)) => match dechunk(
                input.skip(n as int),
                header,
                header.message_length as nat,
                chunk_size as nat,
            ) {
                Err(e) => Err(e),
                Ok(body) => match Self::decoded(header.message_type_id, header, body.payload) {
                    Err(e) => Err(e),
                    Ok(message) => Ok(
                        Reading { message, headers: seq![header] + body.headers, len: n + body.len },
                    ),
                },
            },
        }
    }

    /// How many bytes the message at the front of `input` takes on the
    /// wire, its header and all its chunks, whatever its payload holds.
    pub open spec fn framing(input: Seq<u8>, cache: Map<u32, Header>, chunk_size: u32) -> Result<
        nat,
        Error,
    > {
        match Header::decoding(input, last_header(cache, Header::basic_stream_id(input))) {
            Err(e) => Err(e),
            Ok((header, n)) => match dechunk(
                input.skip(n as int),
                header,
                header.message_length as nat,
                chunk_size as nat,
            ) {
                Err(e) => Err(e),
                Ok(body) => Ok(n + body.len),
            },
        }
    }

    /// What goes onto the wire for a message on a connection that cuts its
    /// messages into chunks of `chunk_size` bytes: the header that the
    /// message is sent under, in twelve bytes, and the payload in chunks. A
    /// message without an encoding cannot be sent.
    pub open spec fn sending(message: MessageView, chunk_size: u32) -> Result<Seq<u8>, Error> {
        match message.payload() {
            None => Err(Error::UnknownCommandShape),
            Some(payload) => Ok(
                message.outbound().encoding() + chunked(
                    payload,
                    message.outbound(),
                    chunk_size as nat,
                ),
            ),
        }
    }

    /// Decodes a payload by the type of its message.
    pub fn decode(message_type_id: u8, header: Header, payload: &[u8]) -> (r: Result<Message, Error>)
        ensures
            match Self::decoded(message_type_id, header, payload@) {
                Ok(message) => r matches Ok(m) && m@ == message,
                Err(e) => r matches Err(x) && x == e,
            },
    {
        let mut reader = SliceReader::new(payload);
        match message_type_id {
            1 | 3 | 5 | 6 => Ok(
                Message::ControleMessage(header, ControleMessage::read(header, &mut reader)?),
            ),
            4 => Ok(
                Message::UserControlMessage(header, UserControlMessage::read(header, &mut reader)?),
            ),
            8 => Ok(Message::AudioData(header, AudioData::read(header, &mut reader)?)),
            9 => Ok(Message::VideoData(header, VideoData::read(header, &mut reader)?)),
            18 => Ok(Message::DataMessage(header, DataMessage::read(header, &mut reader)?)),
            20 => Ok(Message::CommandeMessage(header, CommandeMessage::read(header, &mut reader)?)),
            _ => Ok(Message::Unknown(header, slice_to_vec(payload))),
        }
    }

    /// Collects the `remaining` bytes of a payload from the chunks at the
    /// front of the reader. The headers it meets on the way are added to
    /// `headers`.
    fn read_chunks(
        reader: &mut SliceReader,
        last: Header,
        remaining: u32,
        chunk_size: u32,
        headers: &mut Vec<Header>,
    ) -> (r: Result<Vec<u8>, Error>)
        ensures
            match dechunk(old(reader)@, last, remaining as nat, chunk_size as nat) {
                Ok(body) => r matches Ok(payload) && payload@ == body.payload && final(headers)@
                    == old(headers)@ + body.headers && final(reader)@ == old(reader)@.skip(
                    body.len as int,
                ) && body.len <= old(reader)@.len(),
                Err(e) => r matches Err(x) && x == e,
            },
    {
        let mut payload: Vec<u8> = Vec::new();
        let mut size = remaining;
        let mut tmp_header = last;
        let ghost mut taken: nat = 0;
        let ghost goal = dechunk(old(reader)@, last, remaining as nat, chunk_size as nat);
        if size > 0 && chunk_size == 0 {
            proof {
                lemma_dechunk_short(old(reader)@, last, remaining as nat, chunk_size as nat);
            }
            return Err(Error::TruncatedPayload);
        }
        proof {
            assert(old(reader)@.skip(0) =~= old(reader)@);
            assert(headers@.skip(old(headers)@.len() as int) =~= Seq::<Header>::empty());
            if let Ok(more) = goal {
                assert(payload@ + more.payload =~= more.payload);
                assert(Seq::<Header>::empty() + more.headers =~= more.headers);
            }
        }
        while size > 0
            invariant
                chunk_size > 0 || size == 0,
                taken <= old(reader)@.len(),
                reader@ == old(reader)@.skip(taken as int),
                headers@.len() >= old(headers)@.len(),
                headers@.subrange(0, old(headers)@.len() as int) == old(headers)@,
                goal == dechunk(old(reader)@, last, remaining as nat, chunk_size as nat),
                goal == match dechunk(reader@, tmp_header, size as nat, chunk_size as nat) {
                    Ok(more) => Ok::<Body, Error>(
                        Body {
                            payload: payload@ + more.payload,
                            headers: headers@.skip(old(headers)@.len() as int) + more.headers,
                            len: taken + more.len,
                        },
                    ),
                    Err(e) => Err::<Body, Error>(e),
                },
            decreases size,
        {
            let ghost input = reader@;
            let ghost before = payload@;
            let ghost seen = headers@.skip(old(headers)@.len() as int);
            let ghost was = tmp_header;
            let ghost left = size as nat;
            let take = if size < chunk_size {
                size
            } else {
                chunk_size
            };
            let chunk = match reader.read(take as usize) {
                Ok(chunk) => chunk,
                Err(e) => {
                    proof {
                        lemma_dechunk_short(input, was, left, chunk_size as nat);
                    }
                    return Err(e);
                },
            };
            append(&mut payload, chunk);
            size -= take;
            proof {
                taken = taken + take as nat;
                assert(reader@ =~= old(reader)@.skip(taken as int));
            }
            if size > 0 {
                let ghost behind = reader@;
                proof {
                    lemma_dechunk_more(input, was, left, chunk_size as nat);
                    assert(behind =~= input.skip(chunk_size as int));
                }
                tmp_header = match Header::read(reader, Some(tmp_header)) {
                    Ok(header) => header,
                    Err(e) => {
                        return Err(e);
                    },
                };
                headers.push(tmp_header);
                proof {
                    let n = Header::decoding(behind, Some(was))->Ok_0.1;
                    assert(reader@ == behind.skip(n as int));
                    assert(n <= behind.len()) by {
                        lemma_header_fits(behind, Some(was));
                    }
                    taken = taken + n;
                    assert(reader@ =~= old(reader)@.skip(taken as int));
                    assert(reader@ =~= input.skip((chunk_size + n) as int));
                    assert(headers@.skip(old(headers)@.len() as int) =~= seen.push(tmp_header));
                    assert(headers@.subrange(0, old(headers)@.len() as int) =~= old(headers)@);
                    if let Ok(more) = dechunk(reader@, tmp_header, size as nat, chunk_size as nat) {
                        assert(before + (input.subrange(0, take as int) + more.payload) =~= payload@
                            + more.payload);
                        assert(seen + (seq![tmp_header] + more.headers) =~= seen.push(tmp_header)
                            + more.headers);
                    }
                }
            } else {
                proof {
                    lemma_dechunk_last(input, was, left, chunk_size as nat);
                    lemma_dechunk_done(reader@, tmp_header, chunk_size as nat);
                    assert(before + input.subrange(0, take as int) =~= payload@ + Seq::<u8>::empty());
                    assert(seen + Seq::<Header>::empty() =~= seen);
                }
            }
        }
        proof {
            lemma_dechunk_done(reader@, tmp_header, chunk_size as nat);
            assert(payload@ + Seq::<u8>::empty() =~= payload@);
            let seen = headers@.skip(old(headers)@.len() as int);
            assert(seen + Seq::<Header>::empty() =~= seen);
            assert(headers@ =~= old(headers)@ + seen);
        }
        Ok(payload)
    }

    /// Tells whether the message at the front of the reader is there with
    /// all its chunks, and how many bytes it takes. Nothing is consumed
    /// and nothing changes. A caller that reads from a socket waits for
    /// more bytes on `TruncatedPayload` here; an error of `read` on a
    /// message that is whole is final.
    pub fn framed(reader: &SliceReader, connection: &Connection) -> (r: Result<usize, Error>)
        ensures
            match Self::framing(reader@, connection.cache@, connection.parameters.read_chunk_size) {
                Ok(n) => r == Ok::<usize, Error>(n as usize) && n <= reader@.len(),
                Err(e) => r == Err::<usize, Error>(e),
            },
    {
        let mut probe = *reader;
        let header = Header::read_cached(&mut probe, &connection.cache)?;
        proof {
            lemma_header_fits(
                reader@,
                last_header(connection.cache@, Header::basic_stream_id(reader@)),
            );
        }
        let mut headers: Vec<Header> = Vec::new();
        let _ = Self::read_chunks(
            &mut probe,
            header,
            header.message_length,
            connection.parameters.read_chunk_size,
            &mut headers,
        )?;
        Ok(reader.remaining() - probe.remaining())
    }

    /// Reads one message: its header, completed from the last header that
    /// the connection has seen on the chunk stream, then its payload from
    /// as many chunks as the peer's chunk size calls for, then the message
    /// by its type. The connection takes in every header that was read, and
    /// what a control message sets. On an error the reader and the
    /// connection are as they were.
    pub fn read(reader: &mut SliceReader, connection: &mut Connection) -> (r: Result<Message, Error>)
        ensures
            match Self::reading(
                old(reader)@,
                old(connection).cache@,
                old(connection).parameters.read_chunk_size,
            ) {
                Ok(found) => {
                    &&& r matches Ok(m) && m@ == found.message
                    &&& final(reader)@ == old(reader)@.skip(found.len as int)
                    &&& final(connection).cache@ == remember_all(
                        old(connection).cache@,
                        found.headers,
                    )
                    &&& final(connection).parameters == found.message.received_by(
                        old(connection).parameters,
                    )
                },
                Err(e) => {
                    &&& r matches Err(x) && x == e
                    &&& final(reader)@ == old(reader)@
                    &&& final(connection).cache@ == old(connection).cache@
                    &&& final(connection).parameters == old(connection).parameters
                },
            },
    {
        let start = *reader;
        let header = Header::read_cached(reader, &connection.cache)?;
        let ghost n = Header::decoding(
            start@,
            last_header(connection.cache@, Header::basic_stream_id(start@)),
        )->Ok_0.1;
        proof {
            lemma_header_fits(
                start@,
                last_header(connection.cache@, Header::basic_stream_id(start@)),
            );
        }
        let mut headers: Vec<Header> = Vec::new();
        headers.push(header);
        let chunk_size = connection.parameters.read_chunk_size;
        let payload = match Self::read_chunks(
            reader,
            header,
            header.message_length,
            chunk_size,
            &mut headers,
        ) {
            Ok(payload) => payload,
            Err(e) => {
                *reader = start;
                return Err(e);
            },
        };
        let message = match Self::decode(header.message_type_id, header, payload.as_slice()) {
            Ok(message) => message,
            Err(e) => {
                *reader = start;
                return Err(e);
            },
        };
        proof {
            let body = dechunk(
                start@.skip(n as int),
                header,
                header.message_length as nat,
                chunk_size as nat,
            )->Ok_0;
            assert(reader@ =~= start@.skip((n + body.len) as int));
            assert(headers@ =~= seq![header] + body.headers);
        }
        connection.cache.insert_all(&headers);
        match &message {
            Message::ControleMessage(_, m) => {
                connection.parameters.receive(m);
            },
            _ => {},
        }
        Ok(message)
    }

    /// Appends `payload` in chunks of `chunk_size` bytes.
    fn write_chunked(payload: &[u8], header: &Header, chunk_size: u32, writer: &mut Vec<u8>)
        ensures
            final(writer)@ == old(writer)@ + chunked(payload@, *header, chunk_size as nat),
    {
        let mut rest = payload;
        while chunk_size != 0 && rest.len() > chunk_size as usize
            invariant
                writer@ + chunked(rest@, *header, chunk_size as nat) == old(writer)@ + chunked(
                    payload@,
                    *header,
                    chunk_size as nat,
                ),
            decreases rest@.len(),
        {
            let ghost whole = rest@;
            let ghost written = writer@;
            append(writer, slice_subrange(rest, 0, chunk_size as usize));
            header.write_continuation(writer);
            rest = slice_subrange(rest, chunk_size as usize, rest.len());
            proof {
                assert(rest@ =~= whole.skip(chunk_size as int));
                assert(writer@ + chunked(rest@, *header, chunk_size as nat) =~= written + chunked(
                    whole,
                    *header,
                    chunk_size as nat,
                ));
            }
        }
        append(writer, rest);
    }

    /// The payload of the message as it goes onto the wire. The
    /// connection takes in what the message sets for what this side sends.
    fn encode_payload(&self, connection: &mut Connection) -> (r: Option<Vec<u8>>)
        ensures
            final(connection).cache@ == old(connection).cache@,
            match self@.payload() {
                Some(payload) => {
                    &&& r matches Some(found) && found@ == payload
                    &&& final(connection).parameters == self@.sent_by(old(connection).parameters)
                },
                None => r is None && final(connection).parameters == old(connection).parameters,
            },
    {
        let mut payload: Vec<u8> = Vec::new();
        let sent = match self {
            Message::ControleMessage(_, m) => m.send(&mut payload, connection),
            Message::CommandeMessage(_, m) => m.send(&mut payload, connection),
            Message::UserControlMessage(_, m) => m.send(&mut payload, connection),
            Message::DataMessage(_, m) => m.send(&mut payload, connection),
            Message::AudioData(_, m) => m.send(&mut payload, connection),
            Message::VideoData(_, m) => m.send(&mut payload, connection),
            Message::Unknown(_, m) => {
                append(&mut payload, m.as_slice());
                Ok(m.len())
            },
        };
        proof {
            if let Some(wanted) = self@.payload() {
                assert(Seq::<u8>::empty() + wanted =~= wanted);
            }
        }
        match sent {
            Ok(_) => Some(payload),
            Err(_) => None,
        }
    }

    /// Sends the message: it fills in the header it goes out under, writes
    /// that header and then the payload, in chunks of the size that this
    /// side of the connection had announced before. The connection takes in
    /// what a control message sets, from the next message on. The result is
    /// the number of bytes written.
    /// Where the message cannot be written nothing changes.
    pub fn send(&mut self, writer: &mut Vec<u8>, connection: &mut Connection) -> (r: Result<
        usize,
        Error,
    >)
        ensures
            final(connection).cache@ == old(connection).cache@,
            match Self::sending(old(self)@, old(connection).parameters.write_chunk_size) {
                Ok(bytes) => {
                    &&& r == Ok::<usize, Error>(bytes.len() as usize)
                    &&& final(writer)@ == old(writer)@ + bytes
                    &&& final(self)@ == old(self)@.with_header(old(self)@.outbound())
                    &&& final(connection).parameters == old(self)@.sent_by(
                        old(connection).parameters,
                    )
                },
                Err(e) => {
                    &&& r == Err::<usize, Error>(e)
                    &&& final(writer)@ == old(writer)@
                    &&& final(self)@ == old(self)@
                    &&& final(connection).parameters == old(connection).parameters
                },
            },
    {
        let chunk_size = connection.parameters.write_chunk_size;
        let payload = match self.encode_payload(connection) {
            Some(payload) => payload,
            None => {
                return Err(Error::UnknownCommandShape);
            },
        };
        let header = match self {
            Message::ControleMessage(h, m) => {
                m.fill_header(h);
                *h
            },
            Message::CommandeMessage(h, m) => {
                m.fill_header(h);
                *h
            },
            Message::UserControlMessage(h, m) => {
                m.fill_header(h);
                *h
            },
            Message::DataMessage(h, m) => {
                m.fill_header(h);
                *h
            },
            Message::AudioData(h, m) => {
                m.fill_header(h);
                *h
            },
            Message::VideoData(h, m) => {
                m.fill_header(h);
                *h
            },
            Message::Unknown(h, _) => *h,
        };
        let before = writer.len();
        let _ = header.write(writer);
        Self::write_chunked(payload.as_slice(), &header, chunk_size, writer);
        proof {
            let bytes = Self::sending(old(self)@, old(connection).parameters.write_chunk_size)->Ok_0;
            assert(writer@ =~= old(writer)@ + bytes);
        }
        Ok(writer.len() - before)
    }
}

/// How long the last chunk of a payload of `len` bytes is.
pub open spec fn last_chunk_len(len: nat, chunk_size: nat) -> nat
    recommends
        chunk_size > 0,
        len > 0,
{
    (len - (chunk_count(len, chunk_size) - 1) * chunk_size) as nat
}

/// A payload that is `k` times the chunk size long travels in exactly `k`
/// chunks, each of them full. One byte more takes one chunk more, and
/// that chunk holds the one byte.
pub proof fn lemma_chunk_size_boundary(k: nat, chunk_size: nat)
    requires
        chunk_size > 0,
    ensures
        chunk_count(k * chunk_size, chunk_size) == k,
        k > 0 ==> last_chunk_len(k * chunk_size, chunk_size) == chunk_size,
        chunk_count(k * chunk_size + 1, chunk_size) == k + 1,
        last_chunk_len(k * chunk_size + 1, chunk_size) == 1,
{
    let size = chunk_size as int;
    let full = k * size;
    assert(full >= 0) by (nonlinear_arith)
        requires
            full == k * size,
            size > 0,
    ;
    assert((k + 1) * size == full + size && (k - 1) * size == full - size) by (nonlinear_arith)
        requires
            full == k * size,
    ;
    lemma_fundamental_div_mod_converse(full + size - 1, size, k as int, size - 1);
    lemma_fundamental_div_mod_converse(full + size, size, (k + 1) as int, 0);
}

/// The chunks that `dechunk` collects a payload from are as many as the
/// length of the payload and the chunk size call for: every chunk but the
/// first stands behind a header, and the payload comes out whole.
pub proof fn lemma_dechunk_counts(input: Seq<u8>, last: Header, remaining: nat, chunk_size: nat)
    requires
        dechunk(input, last, remaining, chunk_size) is Ok,
    ensures
        dechunk(input, last, remaining, chunk_size)->Ok_0.payload.len() == remaining,
        remaining > 0 ==> chunk_size > 0 && dechunk(
            input,
            last,
            remaining,
            chunk_size,
        )->Ok_0.headers.len() + 1 == chunk_count(remaining, chunk_size),
        remaining == 0 ==> dechunk(input, last, remaining, chunk_size)->Ok_0.headers.len() == 0,
    decreases remaining,
{
    reveal(dechunk);
    let size = chunk_size as int;
    if remaining == 0 {
    } else if remaining <= chunk_size {
        lemma_fundamental_div_mod_converse(remaining + size - 1, size, 1, remaining - 1);
    } else {
        let (header, n) = Header::decoding(input.skip(size), Some(last))->Ok_0;
        let left = (remaining - chunk_size) as nat;
        lemma_dechunk_counts(input.skip(size + n), header, left, chunk_size);
        let count = chunk_count(left, chunk_size) as int;
        lemma_fundamental_div_mod(left + size - 1, size);
        lemma_mod_pos_bound(left + size - 1, size);
        assert((count + 1) * size == size * count + size) by (nonlinear_arith);
        lemma_fundamental_div_mod_converse(
            remaining + size - 1,
            size,
            count + 1,
            (left + size - 1) % size,
        );
    }
}

/// A payload of `k` times the chunk size is put together from exactly `k`
/// chunks, and one of a byte more from `k + 1`: the chunks behind the
/// first are as many as the headers that were read on the way.
pub proof fn lemma_reassembly_at_the_boundary(
    input: Seq<u8>,
    last: Header,
    k: nat,
    chunk_size: nat,
    extra: nat,
)
    requires
        chunk_size > 0,
        extra <= 1,
        k + extra > 0,
        dechunk(input, last, k * chunk_size + extra, chunk_size) is Ok,
    ensures
        dechunk(input, last, k * chunk_size + extra, chunk_size)->Ok_0.headers.len() + 1 == k
            + extra,
        dechunk(input, last, k * chunk_size + extra, chunk_size)->Ok_0.payload.len() == k
            * chunk_size + extra,
{
    lemma_chunk_size_boundary(k, chunk_size);
    assert(k * chunk_size + extra > 0) by (nonlinear_arith)
        requires
            chunk_size > 0,
            k + extra > 0,
    ;
    lemma_dechunk_counts(input, last, k * chunk_size + extra, chunk_size);
}

/// A payload of a type that this layer does not know is kept as it came,
/// and goes out again byte for byte, under the header it holds.
pub proof fn lemma_unknown_passes_through(message_type_id: u8, header: Header, payload: Seq<u8>)
    requires
        message_type_id != TYPE_SET_CHUNK_SIZE,
        message_type_id != TYPE_ACKNOWLEDGEMENT,
        message_type_id != TYPE_USER_CONTROL,
        message_type_id != TYPE_WINDOW_ACK_SIZE,
        message_type_id != TYPE_SET_BANDWIDTH,
        message_type_id != TYPE_AUDIO,
        message_type_id != TYPE_VIDEO,
        message_type_id != TYPE_DATA,
        message_type_id != TYPE_COMMAND,
    ensures
        Message::decoded(message_type_id, header, payload) == Ok::<MessageView, Error>(
            MessageView::Unknown(header, payload),
        ),
        MessageView::Unknown(header, payload).payload() == Some(payload),
        MessageView::Unknown(header, payload).outbound() == header,
        forall|chunk_size: u32|
            payload.len() <= chunk_size ==> #[trigger] Message::sending(
                MessageView::Unknown(header, payload),
                chunk_size,
            ) == Ok::<Seq<u8>, Error>(header.encoding() + payload),
{
}

/// A message whose first header is of format 1, 2 or 3 and arrives on a
/// chunk stream that has had no header yet is not read: its header is
/// malformed.
pub proof fn lemma_unseen_stream_fails(input: Seq<u8>, cache: Map<u32, Header>, chunk_size: u32)
    requires
        input.len() >= 1,
        input.len() >= Header::basic_len(input[0]),
        input[0] >= 64,
        !cache.contains_key(Header::basic_stream_id(input)),
    ensures
        Message::reading(input, cache, chunk_size) == Err::<Reading, Error>(Error::MalformedHeader),
{
    lemma_unseen_stream_is_malformed(input, cache);
}

/// The headers that a reader completes for the second and the further
/// chunks of a payload of `len` bytes that was sent under `header`, where
/// `last` is the header before them.
pub open spec fn continuation_headers(header: Header, last: Header, len: nat, chunk_size: nat) -> Seq<
    Header,
>
    decreases len,
{
    if chunk_size == 0 || len <= chunk_size {
        Seq::empty()
    } else {
        seq![Header::header3(header.chunk_stream_id, last)] + continuation_headers(
            header,
            Header::header3(header.chunk_stream_id, last),
            (len - chunk_size) as nat,
            chunk_size,
        )
    }
}

/// What was cut into chunks comes out whole: a reader with the same chunk
/// size collects the payload from the chunks, whatever follows them. This
/// holds on the chunk streams whose id fits the first byte of a header.
pub proof fn lemma_chunked_dechunks(
    payload: Seq<u8>,
    header: Header,
    last: Header,
    chunk_size: nat,
    rest: Seq<u8>,
)
    requires
        chunk_size > 0,
        2 <= header.chunk_stream_id <= 63,
    ensures
        dechunk(chunked(payload, header, chunk_size) + rest, last, payload.len(), chunk_size)
            == Ok::<Body, Error>(
            Body {
                payload,
                headers: continuation_headers(header, last, payload.len(), chunk_size),
                len: chunked(payload, header, chunk_size).len(),
            },
        ),
    decreases payload.len(),
{
    let input = chunked(payload, header, chunk_size) + rest;
    if payload.len() == 0 {
        lemma_dechunk_done(input, last, chunk_size);
        assert(payload =~= Seq::<u8>::empty());
    } else if payload.len() <= chunk_size {
        lemma_dechunk_last(input, last, payload.len(), chunk_size);
        assert(input.subrange(0, payload.len() as int) =~= payload);
    } else {
        let size = chunk_size as int;
        let next = Header::header3(header.chunk_stream_id, last);
        let tail = payload.skip(size);
        let behind = chunked(tail, header, chunk_size) + rest;
        lemma_dechunk_more(input, last, payload.len(), chunk_size);
        lemma_continuation_reads_as_format3(header, last, behind);
        lemma_chunked_dechunks(tail, header, next, chunk_size, rest);
        assert(header.continuation().len() == 1);
        assert(input.skip(size) =~= header.continuation() + behind);
        assert(input.skip(size + 1) =~= behind);
        assert(input.subrange(0, size) + tail =~= payload);
    }
}

impl MessageView {
    /// Whether the message is read back as what it is by the type of its
    /// header alone: a message that sets its own header is, audio, video
    /// and unknown messages are where the header they hold has their type,
    /// and the messages that are made of AMF values are left to the codec.
    pub open spec fn plain(self) -> bool {
        match self {
            MessageView::ControleMessage(_, _) => true,
            MessageView::UserControlMessage(_, _) => true,
            MessageView::AudioData(h, _) => h.message_type_id == TYPE_AUDIO,
            MessageView::VideoData(h, _) => h.message_type_id == TYPE_VIDEO,
            MessageView::Unknown(h, _) => Message::decoded(h.message_type_id, h, Seq::empty())
                is Ok && Message::decoded(h.message_type_id, h, Seq::empty())->Ok_0 is Unknown,
            MessageView::DataMessage(_, _) => false,
            MessageView::CommandeMessage(_, _) => false,
        }
    }
}

/// The payload that a message is sent with decodes to the message, under
/// the header it is sent with.
pub proof fn lemma_payload_round_trip(message: MessageView)
    requires
        message.plain(),
        message.payload() matches Some(payload) && payload.len()
            == message.outbound().message_length,
    ensures
        Message::decoded(
            message.outbound().message_type_id,
            message.outbound(),
            message.payload()->0,
        ) == Ok::<MessageView, Error>(message.with_header(message.outbound())),
{
    let payload = message.payload()->0;
    match message {
        MessageView::ControleMessage(_, m) => {
            match m {
                ControleMessage::SetChunkSize(s) => lemma_be_round_trip(0, 0, s.size),
                ControleMessage::Acknowledgement(s) => lemma_be_round_trip(0, 0, s.sequence),
                ControleMessage::WindowsAcknowledgementSize(s) => lemma_be_round_trip(0, 0, s.size),
                ControleMessage::SetBandwith(s) => {
                    lemma_be_round_trip(0, 0, s.bandwith);
                    assert(payload.subrange(0, 4) =~= u32_be_bytes(s.bandwith));
                    assert(be_u32(payload) == be_u32(payload.subrange(0, 4)));
                },
            }
        },
        MessageView::UserControlMessage(_, m) => {
            lemma_event_round_trip(m);
        },
        MessageView::AudioData(_, m) => {
            assert(m.subrange(0, m.len() as int) =~= m);
        },
        MessageView::VideoData(_, m) => {
            assert(m.subrange(0, m.len() as int) =~= m);
        },
        _ => {},
    }
}

/// What was sent is what is read: the bytes that `send` puts on the wire
/// for a message are read by `read`, on a connection whose peer has the
/// chunk size of the sender, as the same message under the header it was
/// sent with, and to their last byte. This holds of the messages that are
/// read back by the type of their header, where the header they are sent
/// under is one that `write` emits as it is and gives the length of the
/// payload.
pub proof fn lemma_send_read_round_trip(
    message: MessageView,
    cache: Map<u32, Header>,
    chunk_size: u32,
    rest: Seq<u8>,
)
    requires
        chunk_size > 0,
        message.plain(),
        message.outbound().writable(),
        message.payload() matches Some(payload) && payload.len()
            == message.outbound().message_length,
    ensures
        Message::sending(message, chunk_size) is Ok,
        Message::reading(Message::sending(message, chunk_size)->Ok_0 + rest, cache, chunk_size)
            == Ok::<Reading, Error>(
            Reading {
                message: message.with_header(message.outbound()),
                headers: seq![message.outbound()] + continuation_headers(
                    message.outbound(),
                    message.outbound(),
                    message.payload()->0.len(),
                    chunk_size as nat,
                ),
                len: Message::sending(message, chunk_size)->Ok_0.len(),
            },
        ),
{
    let header = message.outbound();
    let payload = message.payload()->0;
    let chunks = chunked(payload, header, chunk_size as nat);
    let input = Message::sending(message, chunk_size)->Ok_0 + rest;
    let last = last_header(cache, Header::basic_stream_id(input));
    assert(input =~= header.encoding() + (chunks + rest));
    lemma_write_read_round_trip(header, last, chunks + rest);
    assert(input.skip(12) =~= chunks + rest);
    lemma_chunked_dechunks(payload, header, header, chunk_size as nat, rest);
    lemma_payload_round_trip(message);
}

/// A message is read where it is framed, and takes the bytes of its
/// frame: where the frame is cut short or malformed so is the reading,
/// and the reading of a whole frame fails only on what the payload holds.
pub proof fn lemma_reading_is_framed(input: Seq<u8>, cache: Map<u32, Header>, chunk_size: u32)
    ensures
        Message::framing(input, cache, chunk_size) matches Err(e) ==> Message::reading(
            input,
            cache,
            chunk_size,
        ) == Err::<Reading, Error>(e),
        Message::reading(input, cache, chunk_size) matches Ok(found) ==> Message::framing(
            input,
            cache,
            chunk_size,
        ) == Ok::<nat, Error>(found.len),
{
}

} // verus!
