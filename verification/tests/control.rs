use rtmp::connection::{Connection, ProtocolParameters, DEFAULT_CHUNK_SIZE};
use rtmp::error::Error;
use rtmp::header::Header;
use rtmp::message::{
    Acknowledgement, ControleMessage, SetBandwith, SetChunkSize, WindowsAcknowledgementSize,
};
use rtmp::messageinterface::MessageInterface;
use rtmp::slicereader::SliceReader;
use rtmp::usercontrolmessage::UserControlMessage;

fn header_of_type(kind: u8, length: u32) -> Header {
    Header::new(2, 0, length, kind, 0)
}

fn sent<M: MessageInterface>(message: &M) -> Vec<u8> {
    let mut out = vec![0x55];
    let written = message.send(&mut out, &mut Connection::new()).unwrap();
    assert_eq!(written, out.len() - 1);
    out.remove(0);
    out
}

fn filled<M: MessageInterface>(message: &M) -> Header {
    let mut header = Header::new(9, 9, 9, 9, 9);
    header.delta_timestamp = 9;
    header.extend_timestamp = true;
    header.htype = 3;
    message.fill_header(&mut header);
    header
}

#[test]
fn set_chunk_size_is_four_bytes_big_endian() {
    let bytes = [0x00u8, 0x00, 0x10, 0x00, 0xaa];
    let mut reader = SliceReader::new(&bytes);
    let message = SetChunkSize::read(header_of_type(1, 4), &mut reader).unwrap();
    assert_eq!(message, SetChunkSize { size: 4096 });
    assert_eq!(reader.remaining(), 1);
    assert_eq!(sent(&message), vec![0x00, 0x00, 0x10, 0x00]);
    assert_eq!(filled(&message), Header::new(2, 0, 4, 1, 0));
}

#[test]
fn acknowledgement_is_four_bytes_big_endian() {
    let bytes = [0x01u8, 0x02, 0x03, 0x04];
    let message = Acknowledgement::read(header_of_type(3, 4), &mut SliceReader::new(&bytes)).unwrap();
    assert_eq!(message, Acknowledgement { sequence: 0x0102_0304 });
    assert_eq!(sent(&message), bytes.to_vec());
    assert_eq!(filled(&message), Header::new(2, 0, 4, 3, 0));
}

#[test]
fn window_size_is_four_bytes_big_endian() {
    let bytes = [0x02u8, 0xfa, 0xf0, 0x80];
    let message =
        WindowsAcknowledgementSize::read(header_of_type(5, 4), &mut SliceReader::new(&bytes))
            .unwrap();
    assert_eq!(message, WindowsAcknowledgementSize { size: 50_000_000 });
    assert_eq!(sent(&message), bytes.to_vec());
    assert_eq!(filled(&message), Header::new(2, 0, 4, 5, 0));
}

#[test]
fn set_bandwidth_is_five_bytes() {
    let bytes = [0x02u8, 0xfa, 0xf0, 0x80, 0x02, 0xbb];
    let mut reader = SliceReader::new(&bytes);
    let message = SetBandwith::read(header_of_type(6, 5), &mut reader).unwrap();
    assert_eq!(message, SetBandwith { bandwith: 50_000_000, limit_type: 2 });
    assert_eq!(reader.remaining(), 1);
    assert_eq!(sent(&message), bytes[..5].to_vec());
    assert_eq!(filled(&message), Header::new(2, 0, 5, 6, 0));
}

#[test]
fn short_control_payloads_are_truncated() {
    let bytes = [1u8, 2, 3, 4];
    for len in 0..4 {
        let mut reader = SliceReader::new(&bytes[..len]);
        assert_eq!(
            SetChunkSize::read(header_of_type(1, 4), &mut reader),
            Err(Error::TruncatedPayload)
        );
        assert_eq!(
            Acknowledgement::read(header_of_type(3, 4), &mut reader),
            Err(Error::TruncatedPayload)
        );
        assert_eq!(
            WindowsAcknowledgementSize::read(header_of_type(5, 4), &mut reader),
            Err(Error::TruncatedPayload)
        );
        assert_eq!(reader.remaining(), len);
    }
    let mut reader = SliceReader::new(&bytes);
    assert_eq!(
        SetBandwith::read(header_of_type(6, 5), &mut reader),
        Err(Error::TruncatedPayload)
    );
    assert_eq!(reader.remaining(), 4);
}

#[test]
fn control_message_goes_by_the_type_of_its_header() {
    let bytes = [0x00u8, 0x00, 0x01, 0x00, 0x01];
    let read = |kind: u8| ControleMessage::read(header_of_type(kind, 4), &mut SliceReader::new(&bytes));
    assert_eq!(read(1), Ok(ControleMessage::SetChunkSize(SetChunkSize { size: 256 })));
    assert_eq!(read(3), Ok(ControleMessage::Acknowledgement(Acknowledgement { sequence: 256 })));
    assert_eq!(
        read(5),
        Ok(ControleMessage::WindowsAcknowledgementSize(WindowsAcknowledgementSize { size: 256 }))
    );
    assert_eq!(
        read(6),
        Ok(ControleMessage::SetBandwith(SetBandwith { bandwith: 256, limit_type: 1 }))
    );
    for kind in [0u8, 2, 4, 7, 8, 20, 255] {
        assert_eq!(read(kind), Err(Error::MalformedHeader));
    }
}

#[test]
fn control_message_sends_and_fills_as_its_kind() {
    let message = ControleMessage::SetBandwith(SetBandwith { bandwith: 1, limit_type: 0 });
    assert_eq!(sent(&message), vec![0, 0, 0, 1, 0]);
    assert_eq!(filled(&message), Header::new(2, 0, 5, 6, 0));
    let message = ControleMessage::Acknowledgement(Acknowledgement { sequence: 7 });
    assert_eq!(sent(&message), vec![0, 0, 0, 7]);
    assert_eq!(filled(&message), Header::new(2, 0, 4, 3, 0));
    let message = ControleMessage::SetChunkSize(SetChunkSize { size: 0xffff_ffff });
    assert_eq!(sent(&message), vec![0xff; 4]);
    assert_eq!(filled(&message), Header::new(2, 0, 4, 1, 0));
    let message =
        ControleMessage::WindowsAcknowledgementSize(WindowsAcknowledgementSize { size: 2 });
    assert_eq!(sent(&message), vec![0, 0, 0, 2]);
    assert_eq!(filled(&message), Header::new(2, 0, 4, 5, 0));
}

#[test]
fn user_control_events() {
    let read = |bytes: &[u8]| UserControlMessage::read(header_of_type(4, 6), &mut SliceReader::new(bytes));
    assert_eq!(read(&[0, 0, 0, 0, 0, 42]), Ok(UserControlMessage::StreamBegin(42)));
    assert_eq!(
        read(&[0, 3, 0, 0, 0, 1, 0, 0, 0x0b, 0xb8]),
        Ok(UserControlMessage::SetBufferLength(1, 3000))
    );
    assert_eq!(read(&[0, 6, 1, 2, 3, 4]), Ok(UserControlMessage::PingRequest(0x0102_0304)));
    assert_eq!(read(&[0, 7, 1, 2, 3, 4]), Ok(UserControlMessage::PingResponse(0x0102_0304)));
}

#[test]
fn user_control_events_are_written_as_they_are_read() {
    assert_eq!(sent(&UserControlMessage::StreamBegin(42)), vec![0, 0, 0, 0, 0, 42]);
    assert_eq!(
        sent(&UserControlMessage::SetBufferLength(1, 3000)),
        vec![0, 3, 0, 0, 0, 1, 0, 0, 0x0b, 0xb8]
    );
    assert_eq!(sent(&UserControlMessage::PingRequest(0x0102_0304)), vec![0, 6, 1, 2, 3, 4]);
    assert_eq!(sent(&UserControlMessage::PingResponse(0x0102_0304)), vec![0, 7, 1, 2, 3, 4]);
}

#[test]
fn user_control_header_gives_the_length_of_the_event() {
    assert_eq!(filled(&UserControlMessage::StreamBegin(42)), Header::new(2, 0, 6, 4, 0));
    assert_eq!(filled(&UserControlMessage::PingRequest(1)), Header::new(2, 0, 6, 4, 0));
    assert_eq!(filled(&UserControlMessage::PingResponse(1)), Header::new(2, 0, 6, 4, 0));
    assert_eq!(filled(&UserControlMessage::SetBufferLength(1, 2)), Header::new(2, 0, 10, 4, 0));
}

#[test]
fn unknown_user_control_event_is_malformed() {
    for event in [1u8, 2, 4, 5, 8] {
        let bytes = [0, event, 0, 0, 0, 0, 0, 0, 0, 0];
        let mut reader = SliceReader::new(&bytes);
        assert_eq!(
            UserControlMessage::read(header_of_type(4, 6), &mut reader),
            Err(Error::MalformedHeader)
        );
        assert_eq!(reader.remaining(), bytes.len());
    }
    let bytes = [1u8, 0, 0, 0, 0, 0];
    assert_eq!(
        UserControlMessage::read(header_of_type(4, 6), &mut SliceReader::new(&bytes)),
        Err(Error::MalformedHeader)
    );
}

#[test]
fn short_user_control_events_are_truncated() {
    let cases: [&[u8]; 5] = [&[], &[0], &[0, 0, 1, 2, 3], &[0, 3, 0, 0, 0, 1, 0, 0, 0], &[0, 7, 1]];
    for bytes in cases {
        let mut reader = SliceReader::new(bytes);
        assert_eq!(
            UserControlMessage::read(header_of_type(4, 6), &mut reader),
            Err(Error::TruncatedPayload)
        );
        assert_eq!(reader.remaining(), bytes.len());
    }
}

#[test]
fn parameters_start_at_the_default_chunk_size() {
    let parameters = ProtocolParameters::new();
    assert_eq!(DEFAULT_CHUNK_SIZE, 128);
    assert_eq!(parameters.read_chunk_size, 128);
    assert_eq!(parameters.write_chunk_size, 128);
    assert_eq!(parameters.window_ack_size, None);
    assert_eq!(parameters.bandwidth_limit, None);
    let connection = Connection::new();
    assert_eq!(connection.parameters, parameters);
    assert_eq!(connection.cache.get(2), None);
}

#[test]
fn received_control_messages_set_the_inbound_side() {
    let mut parameters = ProtocolParameters::new();
    parameters.receive(&ControleMessage::SetChunkSize(SetChunkSize { size: 4096 }));
    assert_eq!(parameters.read_chunk_size, 4096);
    assert_eq!(parameters.write_chunk_size, 128);
    parameters.receive(&ControleMessage::WindowsAcknowledgementSize(
        WindowsAcknowledgementSize { size: 5000 },
    ));
    assert_eq!(parameters.window_ack_size, Some(5000));
    let limit = SetBandwith { bandwith: 6000, limit_type: 1 };
    parameters.receive(&ControleMessage::SetBandwith(limit));
    assert_eq!(parameters.bandwidth_limit, Some(limit));
    let before = parameters;
    parameters.receive(&ControleMessage::Acknowledgement(Acknowledgement { sequence: 1 }));
    assert_eq!(parameters, before);
}

#[test]
fn sent_control_messages_set_the_outbound_chunk_size_only() {
    let mut parameters = ProtocolParameters::new();
    parameters.sent(&ControleMessage::SetChunkSize(SetChunkSize { size: 4096 }));
    assert_eq!(parameters.write_chunk_size, 4096);
    assert_eq!(parameters.read_chunk_size, 128);
    let before = parameters;
    parameters.sent(&ControleMessage::WindowsAcknowledgementSize(
        WindowsAcknowledgementSize { size: 5000 },
    ));
    parameters.sent(&ControleMessage::SetBandwith(SetBandwith { bandwith: 6000, limit_type: 1 }));
    parameters.sent(&ControleMessage::Acknowledgement(Acknowledgement { sequence: 1 }));
    assert_eq!(parameters, before);
}

#[test]
fn sending_a_chunk_size_sets_the_outbound_size_of_the_connection() {
    let mut connection = Connection::new();
    connection.parameters.read_chunk_size = 77;
    let other = Connection::new();
    let mut out = Vec::new();
    assert_eq!(SetChunkSize { size: 256 }.send(&mut out, &mut connection), Ok(4));
    assert_eq!(out, vec![0x00, 0x00, 0x01, 0x00]);
    assert_eq!(connection.parameters.write_chunk_size, 256);
    assert_eq!(connection.parameters.read_chunk_size, 77);
    assert_eq!(other.parameters.write_chunk_size, 128);
    let message = ControleMessage::SetChunkSize(SetChunkSize { size: 4096 });
    assert_eq!(message.send(&mut out, &mut connection), Ok(4));
    assert_eq!(connection.parameters.write_chunk_size, 4096);
    assert_eq!(connection.parameters.read_chunk_size, 77);
}

#[test]
fn sending_anything_else_sets_nothing() {
    let mut connection = Connection::new();
    let before = connection.parameters;
    let mut out = Vec::new();
    Acknowledgement { sequence: 1 }.send(&mut out, &mut connection).unwrap();
    WindowsAcknowledgementSize { size: 2 }.send(&mut out, &mut connection).unwrap();
    SetBandwith { bandwith: 3, limit_type: 1 }.send(&mut out, &mut connection).unwrap();
    ControleMessage::SetBandwith(SetBandwith { bandwith: 3, limit_type: 1 })
        .send(&mut out, &mut connection)
        .unwrap();
    UserControlMessage::PingRequest(4).send(&mut out, &mut connection).unwrap();
    assert_eq!(connection.parameters, before);
    assert_eq!(out.len(), 4 + 4 + 5 + 5 + 6);
}
