//! Command messages. A command is a sequence of AMF values: its name, a
//! transaction number, its properties, and what the name calls for after
//! them. The commands of the connection (`connect`, `call`, `close`,
//! `createStream`) take at most one more value; every other command is a
//! command of a stream and takes any number.

use crate::amf::{concatenation, encodings, front, number_encoding, string_encoding, values};
use crate::amf::{AmfFront, AmfFrontView, AmfValue, MAX_STRING_LEN};
use crate::bytes::append;
use crate::connection::{Connection, ProtocolParameters};
use crate::datamessage::write_values;
use crate::error::{AmfError, Error};
use crate::header::Header;
use crate::message::TYPE_COMMAND;
use crate::messageinterface::MessageInterface;
use crate::slicereader::SliceReader;
use vstd::prelude::*;
use vstd::slice::{slice_subrange, slice_to_vec};
use vstd::string::StringExecFns;
use vstd::utf8::encode_utf8;

verus! {

/// The chunk stream that the commands of the connection are sent on.
pub const COMMAND_CHUNK_STREAM: u32 = 3;

/// Whether `name` is one of the commands of the connection.
pub open spec fn connection_command(name: Seq<char>) -> bool {
    name == "connect"@ || name == "call"@ || name == "close"@ || name == "createStream"@
}

/// The name of a command, where `first` is the first value of its payload.
pub open spec fn wanted_name(first: AmfFrontView) -> Result<Seq<char>, Error> {
    match first {
        AmfFrontView::String(name) => Ok(name),
        AmfFrontView::End => Err(Error::AmfDecodeError(AmfError::UnexpectedEnd)),
        AmfFrontView::Malformed => Err(Error::AmfDecodeError(AmfError::Malformed)),
        _ => Err(Error::UnknownCommandShape),
    }
}

/// The transaction number of a command, where `second` is the second value
/// of its payload.
pub open spec fn wanted_transaction(second: AmfFrontView) -> Result<u64, Error> {
    match second {
        AmfFrontView::Number(bits) => Ok(bits),
        AmfFrontView::End => Err(Error::AmfDecodeError(AmfError::UnexpectedEnd)),
        AmfFrontView::Malformed => Err(Error::AmfDecodeError(AmfError::Malformed)),
        _ => Err(Error::UnknownCommandShape),
    }
}

/// Whether `third`, the third value of a payload, can be the properties of
/// a command: an object or null.
pub open spec fn wanted_properties(third: AmfFrontView) -> Result<(), Error> {
    match third {
        AmfFrontView::Object => Ok(()),
        AmfFrontView::Null => Ok(()),
        AmfFrontView::End => Err(Error::AmfDecodeError(AmfError::UnexpectedEnd)),
        AmfFrontView::Malformed => Err(Error::AmfDecodeError(AmfError::Malformed)),
        _ => Err(Error::UnknownCommandShape),
    }
}

/// What every command begins with.
pub struct CommandStart {
    pub command_name: Seq<char>,
    pub transaction_id: u64,
    pub properties: Seq<u8>,
    /// The length of the three values together.
    pub len: nat,
}

/// The three values that open the payload of a command.
pub open spec fn command_start(payload: Seq<u8>) -> Result<CommandStart, Error> {
    let second = payload.skip(front(payload).1 as int);
    let third = second.skip(front(second).1 as int);
    match wanted_name(front(payload).0) {
        Err(e) => Err(e),
        Ok(command_name) => match wanted_transaction(front(second).0) {
            Err(e) => Err(e),
            Ok(transaction_id) => match wanted_properties(front(third).0) {
                Err(e) => Err(e),
                Ok(_) => Ok(
                    CommandStart {
                        command_name,
                        transaction_id,
                        properties: third.subrange(0, front(third).1 as int),
                        len: front(payload).1 + front(second).1 + front(third).1,
                    },
                ),
            },
        },
    }
}

/// The name of a command from the first value of its payload.
pub fn expect_name(first: AmfFront) -> (r: Result<String, Error>)
    ensures
        match wanted_name(first@) {
            Ok(name) => r matches Ok(found) && found@ == name,
            Err(e) => r matches Err(x) && x == e,
        },
{
    match first {
        AmfFront::String(name) => Ok(name),
        AmfFront::End => Err(Error::AmfDecodeError(AmfError::UnexpectedEnd)),
        AmfFront::Malformed => Err(Error::AmfDecodeError(AmfError::Malformed)),
        _ => Err(Error::UnknownCommandShape),
    }
}

/// The transaction number of a command from the second value of its
/// payload.
pub fn expect_transaction(second: AmfFront) -> (r: Result<u64, Error>)
    ensures
        r == wanted_transaction(second@),
{
    match second {
        AmfFront::Number(bits) => Ok(bits),
        AmfFront::End => Err(Error::AmfDecodeError(AmfError::UnexpectedEnd)),
        AmfFront::Malformed => Err(Error::AmfDecodeError(AmfError::Malformed)),
        _ => Err(Error::UnknownCommandShape),
    }
}

/// Accepts the third value of a payload as the properties of a command.
pub fn expect_properties(third: &AmfFront) -> (r: Result<(), Error>)
    ensures
        r == wanted_properties(third@),
{
    match third {
        AmfFront::Object => Ok(()),
        AmfFront::Null => Ok(()),
        AmfFront::End => Err(Error::AmfDecodeError(AmfError::UnexpectedEnd)),
        AmfFront::Malformed => Err(Error::AmfDecodeError(AmfError::Malformed)),
        _ => Err(Error::UnknownCommandShape),
    }
}

/// Whether `name` is one of the commands of the connection.
pub fn is_connection_command(name: &String) -> (r: bool)
    ensures
        r == connection_command(name@),
{
    *name == String::from_str("connect") || *name == String::from_str("call") || *name
        == String::from_str("close") || *name == String::from_str("createStream")
}

/// Reads the three values that open the payload of a command. The last
/// part of the result is their length together.
fn read_command_start(payload: &[u8]) -> (r: Result<(String, u64, AmfValue, usize), Error>)
    ensures
        match command_start(payload@) {
            Ok(start) => r matches Ok(found) && found.0@ == start.command_name && found.1
                == start.transaction_id && found.2@ == start.properties && found.3 == start.len
                && start.len <= payload@.len(),
            Err(e) => r matches Err(x) && x == e,
        },
{
    let (first, first_len) = AmfValue::front(payload);
    let command_name = expect_name(first)?;
    let second_part = slice_subrange(payload, first_len, payload.len());
    let (second, second_len) = AmfValue::front(second_part);
    let transaction_id = expect_transaction(second)?;
    let third_part = slice_subrange(second_part, second_len, second_part.len());
    let (third, third_len) = AmfValue::front(third_part);
    expect_properties(&third)?;
    let properties = AmfValue { bytes: slice_to_vec(slice_subrange(third_part, 0, third_len)) };
    Ok((command_name, transaction_id, properties, first_len + second_len + third_len))
}

/// The encoding of what every command begins with, or `None` where the
/// name is too long to be written.
pub open spec fn start_encoding(
    command_name: Seq<char>,
    transaction_id: u64,
    properties: Seq<u8>,
) -> Option<Seq<u8>> {
    if encode_utf8(command_name).len() > MAX_STRING_LEN {
        None
    } else {
        Some(string_encoding(command_name) + number_encoding(transaction_id) + properties)
    }
}

/// Encodes what every command begins with.
fn encode_start(command_name: &String, transaction_id: u64, properties: &AmfValue) -> (r: Option<
    Vec<u8>,
>)
    ensures
        match start_encoding(command_name@, transaction_id, properties@) {
            Some(bytes) => r matches Some(found) && found@ == bytes,
            None => r is None,
        },
{
    match AmfValue::string(command_name.as_str()) {
        None => None,
        Some(name) => {
            let mut bytes = name.bytes;
            append(&mut bytes, AmfValue::number(transaction_id).bytes.as_slice());
            append(&mut bytes, properties.bytes.as_slice());
            Some(bytes)
        },
    }
}

/// The header that a command of the connection goes out under, where its
/// payload has the given length.
pub open spec fn command_header(payload_len: nat) -> Header {
    Header {
        chunk_stream_id: COMMAND_CHUNK_STREAM,
        timestamp: 0,
        delta_timestamp: 0,
        message_length: (payload_len % 0x1_0000_0000) as u32,
        message_type_id: TYPE_COMMAND,
        message_stream_id: 0,
        extend_timestamp: false,
        htype: 0,
    }
}

/// A command of the connection.
#[derive(Clone, Debug, PartialEq, Eq)]
pub struct NetConnection {
    pub command_name: String,
    /// The bits of the IEEE-754 double that numbers the transaction.
    pub transaction_id: u64,
    pub properties: AmfValue,
    pub opt: Option<AmfValue>,
}

/// A [`NetConnection`] as contracts speak of it: its values as the
/// bytes that encode them.
pub struct NetConnectionView {
    pub command_name: Seq<char>,
    pub transaction_id: u64,
    pub properties: Seq<u8>,
    pub opt: Option<Seq<u8>>,
}

impl View for NetConnection {
    type V = NetConnectionView;

    open spec fn view(&self) -> NetConnectionView {
        NetConnectionView {
            command_name: self.command_name@,
            transaction_id: self.transaction_id,
            properties: self.properties@,
            opt: match self.opt {
                Some(value) => Some(value@),
                None => None,
            },
        }
    }
}

impl NetConnection {
    pub fn new(
        command_name: String,
        transaction_id: u64,
        properties: AmfValue,
        opt: Option<AmfValue>,
    ) -> (command: NetConnection)
        ensures
            command.command_name == command_name,
            command.transaction_id == transaction_id,
            command.properties == properties,
            command.opt == opt,
    {
        NetConnection { command_name, transaction_id, properties, opt }
    }

    /// The payload of the command, or `None` where its name is too long to
    /// be written.
    pub fn encode(&self) -> (r: Option<Vec<u8>>)
        ensures
            match Self::encoding(self@) {
                Some(bytes) => r matches Some(found) && found@ == bytes,
                None => r is None,
            },
    {
        match encode_start(&self.command_name, self.transaction_id, &self.properties) {
            None => None,
            Some(start) => {
                let mut bytes = start;
                match &self.opt {
                    Some(value) => {
                        append(&mut bytes, value.bytes.as_slice());
                    },
                    None => {
                        assert(bytes@ + Seq::<u8>::empty() =~= bytes@);
                    },
                }
                Some(bytes)
            },
        }
    }
}

impl MessageInterface for NetConnection {
    /// The payload is as long as `header` says. It opens as every command
    /// does; where a value follows, that is the optional argument, and what
    /// comes after it is not looked at.
    open spec fn decoding(header: Header, input: Seq<u8>) -> Result<(NetConnectionView, nat), Error> {
        let payload = input.subrange(0, header.message_length as int);
        if input.len() < header.message_length {
            Err(Error::TruncatedPayload)
        } else {
            match command_start(payload) {
                Err(e) => Err(e),
                Ok(start) => match front(payload.skip(start.len as int)) {
                    (AmfFrontView::Malformed, _) => Err(Error::AmfDecodeError(AmfError::Malformed)),
                    (AmfFrontView::End, _) => Ok(
                        (
                            NetConnectionView {
                                command_name: start.command_name,
                                transaction_id: start.transaction_id,
                                properties: start.properties,
                                opt: None,
                            },
                            header.message_length as nat,
                        ),
                    ),
                    (_, len) => Ok(
                        (
                            NetConnectionView {
                                command_name: start.command_name,
                                transaction_id: start.transaction_id,
                                properties: start.properties,
                                opt: Some(
                                    payload.skip(start.len as int).subrange(0, len as int),
                                ),
                            },
                            header.message_length as nat,
                        ),
                    ),
                },
            }
        }
    }

    open spec fn encoding(message: NetConnectionView) -> Option<Seq<u8>> {
        match start_encoding(message.command_name, message.transaction_id, message.properties) {
            None => None,
            Some(start) => Some(
                start + match message.opt {
                    Some(value) => value,
                    None => Seq::empty(),
                },
            ),
        }
    }

    /// A command of the connection goes out on the command chunk stream,
    /// under a header that gives the length of its payload. One that
    /// cannot be written leaves the header as it is.
    open spec fn outbound(message: NetConnectionView, header: Header) -> Header {
        match Self::encoding(message) {
            Some(payload) => command_header(payload.len()),
            None => header,
        }
    }

    /// Sending it sets nothing.
    open spec fn sent(message: NetConnectionView, parameters: ProtocolParameters) -> ProtocolParameters {
        parameters
    }

    fn read(header: Header, reader: &mut SliceReader) -> (r: Result<NetConnection, Error>) {
        let start = *reader;
        let payload = reader.read(header.message_length as usize)?;
        let (command_name, transaction_id, properties, len) = match read_command_start(payload) {
            Ok(found) => found,
            Err(e) => {
                *reader = start;
                return Err(e);
            },
        };
        let rest = slice_subrange(payload, len, payload.len());
        let (next, next_len) = AmfValue::front(rest);
        let opt = match next {
            AmfFront::Malformed => {
                *reader = start;
                return Err(Error::AmfDecodeError(AmfError::Malformed));
            },
            AmfFront::End => None,
            _ => Some(AmfValue { bytes: slice_to_vec(slice_subrange(rest, 0, next_len)) }),
        };
        Ok(NetConnection { command_name, transaction_id, properties, opt })
    }

    fn send(&self, writer: &mut Vec<u8>, _connection: &mut Connection) -> (r: Result<usize, Error>)
        ensures
            Self::encoding(self@) is None ==> r == Err::<usize, Error>(Error::UnknownCommandShape),
    {
        match self.encode() {
            None => Err(Error::UnknownCommandShape),
            Some(payload) => {
                append(writer, payload.as_slice());
                Ok(payload.len())
            },
        }
    }

    fn fill_header(&self, header: &mut Header) {
        match self.encode() {
            None => {},
            Some(payload) => {
                let len = payload.len() as u64;
                let message_length = (len & 0xffff_ffff) as u32;
                assert(len & 0xffff_ffff == len % 0x1_0000_0000) by (bit_vector);
                header.copy(Header::new(COMMAND_CHUNK_STREAM, 0, message_length, TYPE_COMMAND, 0));
            },
        }
    }
}

/// A command of a stream.
#[derive(Clone, Debug, PartialEq, Eq)]
pub struct NetStreamCommand {
    pub command_name: String,
    /// The bits of the IEEE-754 double that numbers the transaction.
    pub transaction_id: u64,
    pub properties: AmfValue,
    pub opt: Vec<AmfValue>,
}

/// A [`NetStreamCommand`] as contracts speak of it: its values as the
/// bytes that encode them.
pub struct NetStreamCommandView {
    pub command_name: Seq<char>,
    pub transaction_id: u64,
    pub properties: Seq<u8>,
    pub opt: Seq<Seq<u8>>,
}

impl View for NetStreamCommand {
    type V = NetStreamCommandView;

    open spec fn view(&self) -> NetStreamCommandView {
        NetStreamCommandView {
            command_name: self.command_name@,
            transaction_id: self.transaction_id,
            properties: self.properties@,
            opt: encodings(self.opt@),
        }
    }
}

impl NetStreamCommand {
    /// The payload of the command, or `None` where its name is too long to
    /// be written.
    pub fn encode(&self) -> (r: Option<Vec<u8>>)
        ensures
            match Self::encoding(self@) {
                Some(bytes) => r matches Some(found) && found@ == bytes,
                None => r is None,
            },
    {
        match encode_start(&self.command_name, self.transaction_id, &self.properties) {
            None => None,
            Some(start) => {
                let mut bytes = start;
                write_values(&self.opt, &mut bytes);
                Some(bytes)
            },
        }
    }
}

impl MessageInterface for NetStreamCommand {
    /// The payload is as long as `header` says. It opens as every command
    /// does, and what follows is made of values to its last byte.
    open spec fn decoding(header: Header, input: Seq<u8>) -> Result<
        (NetStreamCommandView, nat),
        Error,
    > {
        let payload = input.subrange(0, header.message_length as int);
        if input.len() < header.message_length {
            Err(Error::TruncatedPayload)
        } else {
            match command_start(payload) {
                Err(e) => Err(e),
                Ok(start) => match values(payload.skip(start.len as int)) {
                    Err(e) => Err(e),
                    Ok(opt) => Ok(
                        (
                            NetStreamCommandView {
                                command_name: start.command_name,
                                transaction_id: start.transaction_id,
                                properties: start.properties,
                                opt,
                            },
                            header.message_length as nat,
                        ),
                    ),
                },
            }
        }
    }

    open spec fn encoding(message: NetStreamCommandView) -> Option<Seq<u8>> {
        match start_encoding(message.command_name, message.transaction_id, message.properties) {
            None => None,
            Some(start) => Some(start + concatenation(message.opt)),
        }
    }

    /// A command of a stream goes out under the header it holds.
    open spec fn outbound(message: NetStreamCommandView, header: Header) -> Header {
        header
    }

    /// Sending it sets nothing.
    open spec fn sent(message: NetStreamCommandView, parameters: ProtocolParameters) -> ProtocolParameters {
        parameters
    }

    fn read(header: Header, reader: &mut SliceReader) -> (r: Result<NetStreamCommand, Error>) {
        let start = *reader;
        let payload = reader.read(header.message_length as usize)?;
        let (command_name, transaction_id, properties, len) = match read_command_start(payload) {
            Ok(found) => found,
            Err(e) => {
                *reader = start;
                return Err(e);
            },
        };
        let rest = slice_subrange(payload, len, payload.len());
        match AmfValue::read_all(rest) {
            Ok(opt) => Ok(NetStreamCommand { command_name, transaction_id, properties, opt }),
            Err(e) => {
                *reader = start;
                Err(e)
            },
        }
    }

    fn send(&self, writer: &mut Vec<u8>, _connection: &mut Connection) -> (r: Result<usize, Error>)
        ensures
            Self::encoding(self@) is None ==> r == Err::<usize, Error>(Error::UnknownCommandShape),
    {
        match self.encode() {
            None => Err(Error::UnknownCommandShape),
            Some(payload) => {
                append(writer, payload.as_slice());
                Ok(payload.len())
            },
        }
    }

    fn fill_header(&self, _header: &mut Header) {
    }
}

/// A command of either kind.
#[derive(Clone, Debug, PartialEq, Eq)]
pub enum CommandeMessage {
    NetConnection(NetConnection),
    NetStreamCommand(NetStreamCommand),
}

/// A [`CommandeMessage`] as contracts speak of it.
pub enum CommandeMessageView {
    NetConnection(NetConnectionView),
    NetStreamCommand(NetStreamCommandView),
}

impl View for CommandeMessage {
    type V = CommandeMessageView;

    open spec fn view(&self) -> CommandeMessageView {
        match self {
            CommandeMessage::NetConnection(m) => CommandeMessageView::NetConnection(m@),
            CommandeMessage::NetStreamCommand(m) => CommandeMessageView::NetStreamCommand(m@),
        }
    }
}

impl MessageInterface for CommandeMessage {
    /// The payload is as long as `header` says and begins with the name of
    /// the command, which decides what the command is read as.
    open spec fn decoding(header: Header, input: Seq<u8>) -> Result<(CommandeMessageView, nat), Error> {
        if input.len() < header.message_length {
            Err(Error::TruncatedPayload)
        } else {
            match wanted_name(front(input.subrange(0, header.message_length as int)).0) {
                Err(e) => Err(e),
                Ok(name) => if connection_command(name) {
                    match NetConnection::decoding(header, input) {
                        Ok((m, n)) => Ok((CommandeMessageView::NetConnection(m), n)),
                        Err(e) => Err(e),
                    }
                } else {
                    match NetStreamCommand::decoding(header, input) {
                        Ok((m, n)) => Ok((CommandeMessageView::NetStreamCommand(m), n)),
                        Err(e) => Err(e),
                    }
                },
            }
        }
    }

    open spec fn encoding(message: CommandeMessageView) -> Option<Seq<u8>> {
        match message {
            CommandeMessageView::NetConnection(m) => NetConnection::encoding(m),
            CommandeMessageView::NetStreamCommand(m) => NetStreamCommand::encoding(m),
        }
    }

    open spec fn outbound(message: CommandeMessageView, header: Header) -> Header {
        match message {
            CommandeMessageView::NetConnection(m) => NetConnection::outbound(m, header),
            CommandeMessageView::NetStreamCommand(m) => NetStreamCommand::outbound(m, header),
        }
    }

    /// Sending it sets nothing.
    open spec fn sent(message: CommandeMessageView, parameters: ProtocolParameters) -> ProtocolParameters {
        parameters
    }

    fn read(header: Header, reader: &mut SliceReader) -> (r: Result<CommandeMessage, Error>) {
        let mut probe = *reader;
        let payload = probe.read(header.message_length as usize)?;
        let (first, _) = AmfValue::front(payload);
        let command_name = expect_name(first)?;
        if is_connection_command(&command_name) {
            Ok(CommandeMessage::NetConnection(NetConnection::read(header, reader)?))
        } else {
            Ok(CommandeMessage::NetStreamCommand(NetStreamCommand::read(header, reader)?))
        }
    }

    fn send(&self, writer: &mut Vec<u8>, connection: &mut Connection) -> (r: Result<usize, Error>)
        ensures
            Self::encoding(self@) is None ==> r == Err::<usize, Error>(Error::UnknownCommandShape),
    {
        match self {
            CommandeMessage::NetConnection(m) => m.send(writer, connection),
            CommandeMessage::NetStreamCommand(m) => m.send(writer, connection),
        }
    }

    fn fill_header(&self, header: &mut Header) {
        match self {
            CommandeMessage::NetConnection(m) => m.fill_header(header),
            CommandeMessage::NetStreamCommand(m) => m.fill_header(header),
        }
    }
}

/// The name of a command decides what it is read as: one of the four
/// commands of the connection is read as such, every other command as a
/// command of a stream.
pub proof fn lemma_name_decides_shape(header: Header, input: Seq<u8>)
    requires
        CommandeMessage::decoding(header, input) is Ok,
    ensures
        command_start(input.subrange(0, header.message_length as int)) is Ok,
        CommandeMessage::decoding(header, input)->Ok_0.0 is NetConnection <==> connection_command(
            command_start(input.subrange(0, header.message_length as int))->Ok_0.command_name,
        ),
{
}

/// A command that ends behind its properties is complete. As a command of
/// the connection it has no optional argument; as a command of a stream
/// it has an empty sequence of arguments.
pub proof fn lemma_command_without_arguments(header: Header, input: Seq<u8>)
    requires
        input.len() >= header.message_length,
        command_start(input.subrange(0, header.message_length as int)) is Ok,
        front(
            input.subrange(0, header.message_length as int).skip(
                command_start(input.subrange(0, header.message_length as int))->Ok_0.len as int,
            ),
        ).0 is End,
    ensures
        ({
            let start = command_start(input.subrange(0, header.message_length as int))->Ok_0;
            CommandeMessage::decoding(header, input) == Ok::<(CommandeMessageView, nat), Error>(
                (
                    if connection_command(start.command_name) {
                        CommandeMessageView::NetConnection(
                            NetConnectionView {
                                command_name: start.command_name,
                                transaction_id: start.transaction_id,
                                properties: start.properties,
                                opt: None,
                            },
                        )
                    } else {
                        CommandeMessageView::NetStreamCommand(
                            NetStreamCommandView {
                                command_name: start.command_name,
                                transaction_id: start.transaction_id,
                                properties: start.properties,
                                opt: Seq::empty(),
                            },
                        )
                    },
                    header.message_length as nat,
                ),
            )
        }),
{
}

} // verus!
