use amf::amf0::Value;
use amf::Pair;
use rtmp::amf::{AmfFront, AmfValue, MAX_NESTING};
use rtmp::commandemessage::{
    expect_name, expect_properties, expect_transaction, is_connection_command, CommandeMessage,
    NetConnection, NetStreamCommand,
};
use rtmp::connection::Connection;
use rtmp::datamessage::{write_values, DataMessage};
use rtmp::error::{AmfError, Error};
use rtmp::header::Header;
use rtmp::messageinterface::MessageInterface;
use rtmp::slicereader::SliceReader;

fn encoded(value: &Value) -> Vec<u8> {
    let mut out = Vec::new();
    value.write_to(&mut out).unwrap();
    out
}

fn text(s: &str) -> Value {
    Value::String(s.to_string())
}

fn object(pairs: &[(&str, Value)]) -> Value {
    Value::Object {
        class_name: None,
        entries: pairs
            .iter()
            .map(|(key, value)| Pair { key: key.to_string(), value: value.clone() })
            .collect(),
    }
}

fn payload(values: &[Value]) -> Vec<u8> {
    let mut out = Vec::new();
    for value in values {
        out.extend_from_slice(&encoded(value));
    }
    out
}

fn held(value: &Value) -> AmfValue {
    AmfValue { bytes: encoded(value) }
}

fn command_header(payload: &[u8]) -> Header {
    Header::new(3, 0, payload.len() as u32, 20, 0)
}

fn read_command(payload: &[u8]) -> Result<CommandeMessage, Error> {
    CommandeMessage::read(command_header(payload), &mut SliceReader::new(payload))
}

#[test]
fn front_tells_the_kinds_apart() {
    assert_eq!(
        AmfValue::front(&encoded(&Value::Number(1.5))),
        (AmfFront::Number(1.5f64.to_bits()), 9)
    );
    assert_eq!(
        AmfValue::front(&encoded(&text("connect"))),
        (AmfFront::String("connect".to_string()), 10)
    );
    assert_eq!(AmfValue::front(&encoded(&Value::Null)), (AmfFront::Null, 1));
    let app = object(&[("app", text("live"))]);
    assert_eq!(AmfValue::front(&encoded(&app)), (AmfFront::Object, encoded(&app).len()));
    assert_eq!(AmfValue::front(&encoded(&Value::Boolean(true))), (AmfFront::Other, 2));
    assert_eq!(AmfValue::front(&encoded(&Value::Undefined)), (AmfFront::Other, 1));
}

#[test]
fn front_looks_at_the_first_value_only() {
    let bytes = payload(&[Value::Number(2.0), text("x"), Value::Null]);
    assert_eq!(AmfValue::front(&bytes), (AmfFront::Number(2.0f64.to_bits()), 9));
}

#[test]
fn front_of_nothing_is_the_end() {
    assert_eq!(AmfValue::front(&[]).0, AmfFront::End);
    assert_eq!(AmfValue::front(&[0x00, 0x3f, 0xf0]).0, AmfFront::End);
    assert_eq!(AmfValue::front(&[0x02, 0x00, 0x05, b'a']).0, AmfFront::End);
}

#[test]
fn front_of_garbage_is_malformed() {
    assert_eq!(AmfValue::front(&[0x42, 0, 0]).0, AmfFront::Malformed);
    assert_eq!(AmfValue::front(&[0x09]).0, AmfFront::Malformed);
    assert_eq!(AmfValue::front(&[0x02, 0x00, 0x01, 0xff]).0, AmfFront::Malformed);
}

#[test]
fn vet_refuses_lengths_outside_the_buffer() {
    assert_eq!(AmfValue::vet(AmfFront::Null, 1, 1), AmfFront::Null);
    assert_eq!(AmfValue::vet(AmfFront::Null, 0, 1), AmfFront::Malformed);
    assert_eq!(AmfValue::vet(AmfFront::Number(7), 9, 8), AmfFront::Malformed);
    assert_eq!(AmfValue::vet(AmfFront::Number(7), 9, 9), AmfFront::Number(7));
    assert_eq!(AmfValue::vet(AmfFront::End, 0, 0), AmfFront::End);
    assert_eq!(AmfValue::vet(AmfFront::Malformed, 5, 1), AmfFront::Malformed);
}

#[test]
fn string_and_number_are_encoded_as_the_codec_does() {
    assert_eq!(AmfValue::number(1.0f64.to_bits()).bytes, encoded(&Value::Number(1.0)));
    assert_eq!(
        AmfValue::number(0x7ff8_0000_0000_0001).bytes,
        vec![0x00, 0x7f, 0xf8, 0, 0, 0, 0, 0, 1]
    );
    assert_eq!(AmfValue::string("connect").unwrap().bytes, encoded(&text("connect")));
    assert_eq!(
        AmfValue::string("é").unwrap().bytes,
        vec![0x02, 0x00, 0x02, 0xc3, 0xa9]
    );
    assert_eq!(AmfValue::string("").unwrap().bytes, vec![0x02, 0x00, 0x00]);
    let long = "x".repeat(0x1_0000);
    let bytes = AmfValue::string(&long).unwrap().bytes;
    assert_eq!(bytes[..5], [0x0c, 0x00, 0x01, 0x00, 0x00]);
    assert_eq!(bytes.len(), 5 + 0x1_0000);
    assert_eq!(bytes, encoded(&text(&long)));
    let short = "y".repeat(0xffff);
    assert_eq!(AmfValue::string(&short).unwrap().bytes[..3], [0x02, 0xff, 0xff]);
}

#[test]
fn read_all_splits_a_buffer_into_values() {
    let values = [Value::Number(1.0), text("two"), Value::Null, object(&[("k", Value::Boolean(false))])];
    let found = AmfValue::read_all(&payload(&values)).unwrap();
    assert_eq!(found, values.iter().map(held).collect::<Vec<_>>());
    assert_eq!(AmfValue::read_all(&[]), Ok(vec![]));
}

#[test]
fn read_all_stops_at_a_value_that_is_cut_short() {
    let mut bytes = payload(&[Value::Number(1.0), text("two")]);
    bytes.truncate(bytes.len() - 1);
    assert_eq!(AmfValue::read_all(&bytes), Ok(vec![held(&Value::Number(1.0))]));
}

#[test]
fn read_all_fails_on_a_malformed_value() {
    let mut bytes = payload(&[Value::Number(1.0)]);
    bytes.push(0x42);
    assert_eq!(
        AmfValue::read_all(&bytes),
        Err(Error::AmfDecodeError(AmfError::Malformed))
    );
}

#[test]
fn expectations_of_the_first_three_values() {
    assert_eq!(expect_name(AmfFront::String("play".to_string())), Ok("play".to_string()));
    assert_eq!(expect_name(AmfFront::Number(1)), Err(Error::UnknownCommandShape));
    assert_eq!(expect_name(AmfFront::Null), Err(Error::UnknownCommandShape));
    assert_eq!(expect_name(AmfFront::End), Err(Error::AmfDecodeError(AmfError::UnexpectedEnd)));
    assert_eq!(expect_name(AmfFront::Malformed), Err(Error::AmfDecodeError(AmfError::Malformed)));
    assert_eq!(expect_transaction(AmfFront::Number(5)), Ok(5));
    assert_eq!(
        expect_transaction(AmfFront::String("x".to_string())),
        Err(Error::UnknownCommandShape)
    );
    assert_eq!(expect_transaction(AmfFront::End), Err(Error::AmfDecodeError(AmfError::UnexpectedEnd)));
    assert_eq!(
        expect_transaction(AmfFront::Malformed),
        Err(Error::AmfDecodeError(AmfError::Malformed))
    );
    assert_eq!(expect_properties(&AmfFront::Object), Ok(()));
    assert_eq!(expect_properties(&AmfFront::Null), Ok(()));
    assert_eq!(expect_properties(&AmfFront::Number(1)), Err(Error::UnknownCommandShape));
    assert_eq!(expect_properties(&AmfFront::Other), Err(Error::UnknownCommandShape));
    assert_eq!(expect_properties(&AmfFront::End), Err(Error::AmfDecodeError(AmfError::UnexpectedEnd)));
    assert_eq!(
        expect_properties(&AmfFront::Malformed),
        Err(Error::AmfDecodeError(AmfError::Malformed))
    );
}

#[test]
fn the_four_commands_of_the_connection() {
    for name in ["connect", "call", "close", "createStream"] {
        assert!(is_connection_command(&name.to_string()));
    }
    for name in ["", "Connect", "connect ", "publish", "onStatus", "play", "deleteStream", "_result"] {
        assert!(!is_connection_command(&name.to_string()));
    }
}

#[test]
fn connect_without_arguments_has_no_optional_value() {
    let app = object(&[("app", text("live"))]);
    let bytes = payload(&[text("connect"), Value::Number(1.0), app.clone()]);
    let command = read_command(&bytes).unwrap();
    assert_eq!(
        command,
        CommandeMessage::NetConnection(NetConnection {
            command_name: "connect".to_string(),
            transaction_id: 1.0f64.to_bits(),
            properties: held(&app),
            opt: None,
        })
    );
}

#[test]
fn connect_with_an_argument_keeps_it() {
    let bytes = payload(&[text("createStream"), Value::Number(2.0), Value::Null, Value::Number(42.0)]);
    let command = read_command(&bytes).unwrap();
    assert_eq!(
        command,
        CommandeMessage::NetConnection(NetConnection {
            command_name: "createStream".to_string(),
            transaction_id: 2.0f64.to_bits(),
            properties: held(&Value::Null),
            opt: Some(held(&Value::Number(42.0))),
        })
    );
}

#[test]
fn connection_command_looks_at_one_argument_only() {
    let bytes = payload(&[text("call"), Value::Number(2.0), Value::Null, text("a"), text("b")]);
    let mut with_garbage = bytes.clone();
    with_garbage.push(0x42);
    for bytes in [bytes, with_garbage] {
        match read_command(&bytes).unwrap() {
            CommandeMessage::NetConnection(command) => assert_eq!(command.opt, Some(held(&text("a")))),
            other => panic!("{:?}", other),
        }
    }
}

#[test]
fn other_names_are_commands_of_a_stream() {
    let bytes = payload(&[text("onStatus"), Value::Number(0.0), Value::Null]);
    assert_eq!(
        read_command(&bytes).unwrap(),
        CommandeMessage::NetStreamCommand(NetStreamCommand {
            command_name: "onStatus".to_string(),
            transaction_id: 0,
            properties: held(&Value::Null),
            opt: vec![],
        })
    );
    let bytes = payload(&[
        text("publish"),
        Value::Number(3.0),
        Value::Null,
        text("stream"),
        text("live"),
        Value::Boolean(true),
    ]);
    assert_eq!(
        read_command(&bytes).unwrap(),
        CommandeMessage::NetStreamCommand(NetStreamCommand {
            command_name: "publish".to_string(),
            transaction_id: 3.0f64.to_bits(),
            properties: held(&Value::Null),
            opt: vec![held(&text("stream")), held(&text("live")), held(&Value::Boolean(true))],
        })
    );
}

#[test]
fn command_must_begin_with_a_string() {
    for first in [Value::Number(1.0), Value::Null, Value::Boolean(true), object(&[])] {
        let bytes = payload(&[first, Value::Number(1.0), Value::Null]);
        let mut reader = SliceReader::new(&bytes);
        assert_eq!(
            CommandeMessage::read(command_header(&bytes), &mut reader),
            Err(Error::UnknownCommandShape)
        );
        assert_eq!(reader.remaining(), bytes.len());
    }
}

#[test]
fn command_needs_a_number_and_properties() {
    let cases = [
        payload(&[text("connect"), text("1"), Value::Null]),
        payload(&[text("connect"), Value::Number(1.0), Value::Number(2.0)]),
        payload(&[text("play"), Value::Null, Value::Null]),
        payload(&[text("play"), Value::Number(1.0), text("x")]),
    ];
    for bytes in cases {
        let mut reader = SliceReader::new(&bytes);
        assert_eq!(
            CommandeMessage::read(command_header(&bytes), &mut reader),
            Err(Error::UnknownCommandShape)
        );
        assert_eq!(reader.remaining(), bytes.len());
    }
}

#[test]
fn command_that_ends_early_is_an_amf_error() {
    let cases = [
        vec![],
        payload(&[text("connect")]),
        payload(&[text("connect"), Value::Number(1.0)]),
        payload(&[text("play"), Value::Number(1.0)]),
    ];
    for bytes in cases {
        assert_eq!(
            read_command(&bytes),
            Err(Error::AmfDecodeError(AmfError::UnexpectedEnd))
        );
    }
}

#[test]
fn command_with_a_malformed_value_is_an_amf_error() {
    let mut name = vec![0x42u8];
    name.extend_from_slice(&payload(&[Value::Number(1.0), Value::Null]));
    let mut number = payload(&[text("connect")]);
    number.push(0x42);
    let mut properties = payload(&[text("play"), Value::Number(1.0)]);
    properties.push(0x42);
    let mut optional = payload(&[text("connect"), Value::Number(1.0), Value::Null]);
    optional.push(0x42);
    let mut arguments = payload(&[text("play"), Value::Number(1.0), Value::Null, text("a")]);
    arguments.push(0x42);
    for bytes in [name, number, properties, optional, arguments] {
        let mut reader = SliceReader::new(&bytes);
        assert_eq!(
            CommandeMessage::read(command_header(&bytes), &mut reader),
            Err(Error::AmfDecodeError(AmfError::Malformed))
        );
        assert_eq!(reader.remaining(), bytes.len());
    }
}

#[test]
fn command_reads_as_much_as_its_header_says() {
    let mut bytes = payload(&[text("play"), Value::Number(1.0), Value::Null]);
    let len = bytes.len();
    bytes.extend_from_slice(&encoded(&text("beyond")));
    let header = Header::new(3, 0, len as u32, 20, 0);
    let mut reader = SliceReader::new(&bytes);
    match CommandeMessage::read(header, &mut reader).unwrap() {
        CommandeMessage::NetStreamCommand(command) => assert!(command.opt.is_empty()),
        other => panic!("{:?}", other),
    }
    assert_eq!(reader.remaining(), bytes.len() - len);
    let long = Header::new(3, 0, bytes.len() as u32 + 1, 20, 0);
    let mut reader = SliceReader::new(&bytes);
    assert_eq!(CommandeMessage::read(long, &mut reader), Err(Error::TruncatedPayload));
    assert_eq!(
        NetConnection::read(long, &mut SliceReader::new(&bytes)),
        Err(Error::TruncatedPayload)
    );
    assert_eq!(
        NetStreamCommand::read(long, &mut SliceReader::new(&bytes)),
        Err(Error::TruncatedPayload)
    );
}

#[test]
fn new_connection_command_is_written_value_by_value() {
    let info = object(&[("level", text("status")), ("code", text("NetConnection.Connect.Success"))]);
    let command = NetConnection::new(
        "_result".to_string(),
        1.0f64.to_bits(),
        held(&Value::Null),
        Some(held(&info)),
    );
    let wanted = payload(&[text("_result"), Value::Number(1.0), Value::Null, info]);
    assert_eq!(command.encode(), Some(wanted.clone()));
    let mut out = vec![9u8];
    assert_eq!(command.send(&mut out, &mut Connection::new()), Ok(wanted.len()));
    assert_eq!(out[1..], wanted[..]);
    let mut header = Header::new(9, 9, 9, 9, 9);
    command.fill_header(&mut header);
    assert_eq!(header, Header::new(3, 0, wanted.len() as u32, 20, 0));
    let none = NetConnection::new("close".to_string(), 0, held(&Value::Null), None);
    assert_eq!(none.encode(), Some(payload(&[text("close"), Value::Number(0.0), Value::Null])));
}

#[test]
fn stream_command_is_written_value_by_value() {
    let command = NetStreamCommand {
        command_name: "publish".to_string(),
        transaction_id: 3.0f64.to_bits(),
        properties: held(&Value::Null),
        opt: vec![held(&text("stream")), held(&text("live"))],
    };
    let wanted = payload(&[text("publish"), Value::Number(3.0), Value::Null, text("stream"), text("live")]);
    assert_eq!(command.encode(), Some(wanted.clone()));
    let mut out = Vec::new();
    assert_eq!(command.send(&mut out, &mut Connection::new()), Ok(wanted.len()));
    assert_eq!(out, wanted);
    let mut header = Header::new(8, 7, 6, 20, 5);
    command.fill_header(&mut header);
    assert_eq!(header, Header::new(8, 7, 6, 20, 5));
}

#[test]
fn commands_read_back_what_they_wrote() {
    let connect = CommandeMessage::NetConnection(NetConnection::new(
        "connect".to_string(),
        1.0f64.to_bits(),
        held(&object(&[("app", text("live")), ("n", Value::Number(3.0))])),
        Some(held(&text("extra"))),
    ));
    let publish = CommandeMessage::NetStreamCommand(NetStreamCommand {
        command_name: "publish".to_string(),
        transaction_id: 3.0f64.to_bits(),
        properties: held(&Value::Null),
        opt: vec![held(&text("stream")), held(&Value::Number(1.0))],
    });
    for command in [connect, publish] {
        let mut bytes = Vec::new();
        command.send(&mut bytes, &mut Connection::new()).unwrap();
        assert_eq!(read_command(&bytes), Ok(command));
    }
}

#[test]
fn data_message_is_a_sequence_of_values() {
    let values = [text("@setDataFrame"), text("onMetaData"), object(&[("width", Value::Number(640.0))])];
    let bytes = payload(&values);
    let header = Header::new(4, 0, bytes.len() as u32, 18, 1);
    let mut reader = SliceReader::new(&bytes);
    let message = DataMessage::read(header, &mut reader).unwrap();
    assert_eq!(message.data, values.iter().map(held).collect::<Vec<_>>());
    assert_eq!(reader.remaining(), 0);
    let mut out = vec![1u8, 2];
    assert_eq!(message.send(&mut out, &mut Connection::new()), Ok(bytes.len()));
    assert_eq!(out[2..], bytes[..]);
    let mut filled = Header::new(8, 7, 6, 18, 5);
    message.fill_header(&mut filled);
    assert_eq!(filled, Header::new(8, 7, 6, 18, 5));
    let empty = DataMessage::read(Header::new(4, 0, 0, 18, 1), &mut SliceReader::new(&bytes)).unwrap();
    assert!(empty.data.is_empty());
}

#[test]
fn data_message_fails_whole() {
    let mut bytes = payload(&[text("a")]);
    bytes.push(0x42);
    let header = Header::new(4, 0, bytes.len() as u32, 18, 1);
    let mut reader = SliceReader::new(&bytes);
    assert_eq!(
        DataMessage::read(header, &mut reader),
        Err(Error::AmfDecodeError(AmfError::Malformed))
    );
    assert_eq!(reader.remaining(), bytes.len());
    let long = Header::new(4, 0, bytes.len() as u32 + 1, 18, 1);
    assert_eq!(DataMessage::read(long, &mut reader), Err(Error::TruncatedPayload));
}

#[test]
fn write_values_appends_each_encoding() {
    let list = vec![held(&text("a")), held(&Value::Null), held(&Value::Number(2.0))];
    let mut out = vec![7u8];
    write_values(&list, &mut out);
    let mut wanted = vec![7u8];
    wanted.extend_from_slice(&payload(&[text("a"), Value::Null, Value::Number(2.0)]));
    assert_eq!(out, wanted);
}

/// Arrays of one entry, one in the other, `depth` deep, around a null.
fn nested(depth: usize) -> Vec<u8> {
    let mut out = Vec::new();
    for _ in 0..depth {
        out.extend_from_slice(&[0x0a, 0, 0, 0, 1]);
    }
    out.push(0x05);
    out
}

#[test]
fn openers_are_counted_wherever_they_stand() {
    assert_eq!(MAX_NESTING, 256);
    assert_eq!(AmfValue::count_openers(&[]), 0);
    assert_eq!(AmfValue::count_openers(&[0x03, 0x08, 0x09, 0x0a, 0x10, 0x11]), 6);
    assert_eq!(AmfValue::count_openers(&[0x00, 0x02, 0x04, 0x05, 0x07, 0x0b, 0x0c, 0x12, 0xff]), 0);
    assert_eq!(AmfValue::count_openers(&encoded(&text("\t\n"))), 2);
    assert_eq!(AmfValue::count_openers(&nested(1000)), 1000);
}

#[test]
fn nesting_within_the_limit_is_decoded() {
    let bytes = nested(MAX_NESTING);
    assert_eq!(AmfValue::front(&bytes), (AmfFront::Other, bytes.len()));
    assert_eq!(AmfValue::read_all(&bytes), Ok(vec![AmfValue { bytes: bytes.clone() }]));
}

#[test]
fn nesting_beyond_the_limit_is_malformed() {
    for depth in [MAX_NESTING + 1, 2_000, 100_000, 3_000_000] {
        let bytes = nested(depth);
        assert_eq!(AmfValue::front(&bytes).0, AmfFront::Malformed);
        assert_eq!(
            AmfValue::read_all(&bytes),
            Err(Error::AmfDecodeError(AmfError::Malformed))
        );
    }
    let mut deep = payload(&[text("play"), Value::Number(0.0), Value::Null]);
    deep.extend_from_slice(&nested(100_000));
    assert_eq!(
        read_command(&deep),
        Err(Error::AmfDecodeError(AmfError::Malformed))
    );
    let mut deep = payload(&[text("connect"), Value::Number(0.0), Value::Null]);
    deep.extend_from_slice(&nested(100_000));
    assert_eq!(
        read_command(&deep),
        Err(Error::AmfDecodeError(AmfError::Malformed))
    );
    let data = nested(100_000);
    let header = Header::new(4, 0, data.len() as u32, 18, 1);
    assert_eq!(
        DataMessage::read(header, &mut SliceReader::new(&data)),
        Err(Error::AmfDecodeError(AmfError::Malformed))
    );
}

#[test]
fn openers_count_over_the_whole_buffer() {
    let flat: Vec<Value> = (0..MAX_NESTING + 1).map(|_| text("\n")).collect();
    assert_eq!(
        AmfValue::read_all(&payload(&flat)),
        Err(Error::AmfDecodeError(AmfError::Malformed))
    );
    let found = AmfValue::read_all(&payload(&flat[1..])).unwrap();
    assert_eq!(found.len(), MAX_NESTING);
}
