use rtmp::error::Error;
use rtmp::handshaking::{
    answer_client, answer_server, block_or_zeros, do_client_handshaking, do_server_handshaking,
    open_client, F0, F1,
};
use rtmp::slicereader::SliceReader;

fn block(seed: u8) -> [u8; 1528] {
    let mut bytes = [0u8; 1528];
    for (i, byte) in bytes.iter_mut().enumerate() {
        *byte = (i as u8).wrapping_mul(31).wrapping_add(seed);
    }
    bytes
}

fn packet(time: u32, zero: u32, seed: u8) -> Vec<u8> {
    let mut out = Vec::new();
    F1 { time, zero, bytes: block(seed) }.write(&mut out).unwrap();
    out
}

#[test]
fn version_byte_is_read_and_written() {
    let bytes = [3u8, 9];
    let mut reader = SliceReader::new(&bytes);
    assert_eq!(F0::read(&mut reader), Ok(F0 { version: 3 }));
    assert_eq!(reader.remaining(), 1);
    let mut out = vec![1];
    assert_eq!(F0 { version: 6 }.write(&mut out), Ok(()));
    assert_eq!(out, vec![1, 6]);
    let empty: [u8; 0] = [];
    assert_eq!(F0::read(&mut SliceReader::new(&empty)), Err(Error::TruncatedPayload));
}

#[test]
fn packet_is_time_then_zero_then_random() {
    let mut bytes = vec![0x00u8, 0x00, 0x01, 0xf4, 0x01, 0x02, 0x03, 0x04];
    bytes.extend_from_slice(&block(7));
    bytes.push(0xee);
    let mut reader = SliceReader::new(&bytes);
    let read = F1::read(&mut reader).unwrap();
    assert_eq!(read.time, 500);
    assert_eq!(read.zero, 0x0102_0304);
    assert_eq!(read.bytes, block(7));
    assert_eq!(reader.remaining(), 1);
    let mut out = Vec::new();
    assert_eq!(read.write(&mut out), Ok(()));
    assert_eq!(out, bytes[..1536].to_vec());
}

#[test]
fn short_packet_is_truncated() {
    let bytes = packet(1, 2, 3);
    for len in [0usize, 3, 4, 8, 1535] {
        let mut reader = SliceReader::new(&bytes[..len]);
        assert!(matches!(F1::read(&mut reader), Err(Error::TruncatedPayload)));
        assert_eq!(reader.remaining(), len);
    }
}

#[test]
fn echo_keeps_time_and_random_and_adds_the_delay() {
    let c1 = F1 { time: 500, zero: 0, bytes: block(1) };
    let echo = c1.echo();
    assert_eq!(echo.time, 500);
    assert_eq!(echo.zero, 2500);
    assert_eq!(echo.bytes, block(1));
    let late = F1 { time: 0xffff_ffff, zero: 0, bytes: block(1) };
    assert_eq!(late.echo().zero, 1999);
}

#[test]
fn server_answers_with_version_own_packet_and_echo() {
    let c1 = F1 { time: 500, zero: 77, bytes: block(1) };
    let mut out = vec![0xaa];
    assert_eq!(answer_client(&F0 { version: 3 }, &c1, block(2), &mut out), Ok(()));
    assert_eq!(out.len(), 1 + 1 + 2 * 1536);
    assert_eq!(out[1], 3);
    let mut reader = SliceReader::new(&out[2..]);
    let s1 = F1::read(&mut reader).unwrap();
    assert_eq!((s1.time, s1.zero), (0, 0));
    assert_eq!(s1.bytes, block(2));
    let s2 = F1::read(&mut reader).unwrap();
    assert_eq!((s2.time, s2.zero), (500, 2500));
    assert_eq!(s2.bytes, block(1));
    assert_eq!(reader.remaining(), 0);
}

#[test]
fn server_turns_other_versions_away() {
    let c1 = F1 { time: 500, zero: 0, bytes: block(1) };
    for version in [0u8, 2, 4, 6] {
        let mut out = vec![0xaa];
        assert_eq!(
            answer_client(&F0 { version }, &c1, block(2), &mut out),
            Err(Error::HandshakeMismatch)
        );
        assert_eq!(out, vec![0xaa]);
    }
}

#[test]
fn client_opens_and_echoes_its_own_packet() {
    let mut out = Vec::new();
    let c1 = open_client(block(5), &mut out);
    assert_eq!((c1.time, c1.zero), (0, 0));
    assert_eq!(c1.bytes, block(5));
    assert_eq!(out.len(), 1537);
    assert_eq!(out[0], 3);
    assert_eq!(out[1..], packet(0, 0, 5)[..]);
    let mut answer = Vec::new();
    assert_eq!(answer_server(&F0 { version: 3 }, &c1, &mut answer), Ok(()));
    assert_eq!(answer, packet(0, 2000, 5));
    let mut refused = Vec::new();
    assert_eq!(
        answer_server(&F0 { version: 5 }, &c1, &mut refused),
        Err(Error::HandshakeMismatch)
    );
    assert!(refused.is_empty());
}

#[test]
fn client_echo_mirrors_the_server_echo() {
    let c1 = F1 { time: 500, zero: 0, bytes: block(9) };
    let mut c2 = Vec::new();
    assert_eq!(answer_server(&F0 { version: 3 }, &c1, &mut c2), Ok(()));
    let read = F1::read(&mut SliceReader::new(&c2)).unwrap();
    assert_eq!((read.time, read.zero), (500, 2500));
    assert_eq!(read.bytes, block(9));
}

#[test]
fn server_handshake_on_a_whole_exchange() {
    let mut input = vec![3u8];
    input.extend_from_slice(&packet(500, 0, 1));
    input.extend_from_slice(&packet(0, 0, 2));
    input.extend_from_slice(&[0xde, 0xad]);
    let mut reader = SliceReader::new(&input);
    let mut out = Vec::new();
    assert_eq!(do_server_handshaking(&mut reader, &mut out), Ok(()));
    assert_eq!(reader.remaining(), 2);
    assert_eq!(out.len(), 1 + 2 * 1536);
    assert_eq!(out[0], 3);
    assert_eq!(out[1..9], [0u8; 8]);
    assert_eq!(out[1537..], packet(500, 2500, 1)[..]);
}

#[test]
fn server_gives_no_answer_to_a_short_opening() {
    let mut input = vec![3u8];
    input.extend_from_slice(&packet(500, 0, 1));
    for len in [0usize, 1, 1000, 1536] {
        let mut reader = SliceReader::new(&input[..len]);
        let mut out = vec![1, 2];
        assert_eq!(
            do_server_handshaking(&mut reader, &mut out),
            Err(Error::TruncatedPayload)
        );
        assert_eq!(reader.remaining(), len);
        assert_eq!(out, vec![1, 2]);
    }
}

#[test]
fn server_gives_no_answer_to_another_version() {
    let mut input = vec![4u8];
    input.extend_from_slice(&packet(500, 0, 1));
    input.extend_from_slice(&packet(0, 0, 2));
    for len in [1537usize, 3073] {
        let mut reader = SliceReader::new(&input[..len]);
        let mut out = Vec::new();
        assert_eq!(
            do_server_handshaking(&mut reader, &mut out),
            Err(Error::HandshakeMismatch)
        );
        assert_eq!(reader.remaining(), len);
        assert!(out.is_empty());
    }
    let mut reader = SliceReader::new(&input[..1536]);
    let mut out = Vec::new();
    assert_eq!(
        do_server_handshaking(&mut reader, &mut out),
        Err(Error::TruncatedPayload)
    );
}

#[test]
fn server_answers_before_the_echo_of_the_client_is_in() {
    let mut input = vec![3u8];
    input.extend_from_slice(&packet(500, 0, 1));
    input.extend_from_slice(&packet(0, 0, 2));
    for len in [1537usize, 1538, 3072] {
        let mut reader = SliceReader::new(&input[..len]);
        let mut out = vec![1, 2];
        assert_eq!(
            do_server_handshaking(&mut reader, &mut out),
            Err(Error::TruncatedPayload)
        );
        assert_eq!(reader.remaining(), len);
        assert_eq!(out.len(), 2 + 1 + 2 * 1536);
        assert_eq!(out[..3], [1, 2, 3]);
        assert_eq!(out[3..11], [0u8; 8]);
        assert_eq!(out[2 + 1537..], packet(500, 2500, 1)[..]);
    }
}

#[test]
fn client_handshake_on_a_whole_exchange() {
    let mut input = vec![3u8];
    input.extend_from_slice(&packet(0, 0, 1));
    input.extend_from_slice(&packet(0, 2000, 2));
    input.push(0x01);
    let mut reader = SliceReader::new(&input);
    let mut out = Vec::new();
    assert_eq!(do_client_handshaking(&mut reader, &mut out), Ok(()));
    assert_eq!(reader.remaining(), 1);
    assert_eq!(out.len(), 1 + 2 * 1536);
    assert_eq!(out[0], 3);
    let mut sent = SliceReader::new(&out[1..]);
    let c1 = F1::read(&mut sent).unwrap();
    let c2 = F1::read(&mut sent).unwrap();
    assert_eq!((c1.time, c1.zero), (0, 0));
    assert_eq!((c2.time, c2.zero), (0, 2000));
    assert_eq!(c1.bytes, c2.bytes);
}

/// What the client has sent: C1, and C2 where there is one, behind the
/// bytes that were in the writer before and the version byte.
fn sent_by_client(out: &[u8], before: usize) -> (F1, Option<F1>) {
    assert_eq!(out[before], 3);
    let mut sent = SliceReader::new(&out[before + 1..]);
    let c1 = F1::read(&mut sent).unwrap();
    let c2 = if sent.remaining() == 0 { None } else { Some(F1::read(&mut sent).unwrap()) };
    assert_eq!(sent.remaining(), 0);
    (c1, c2)
}

#[test]
fn client_opens_before_it_reads() {
    let mut input = vec![3u8];
    input.extend_from_slice(&packet(0, 0, 1));
    for len in [0usize, 1, 1000, 1536] {
        let mut reader = SliceReader::new(&input[..len]);
        let mut out = vec![1, 2];
        assert_eq!(
            do_client_handshaking(&mut reader, &mut out),
            Err(Error::TruncatedPayload)
        );
        assert_eq!(reader.remaining(), len);
        assert_eq!(out.len(), 2 + 1537);
        assert_eq!(out[..2], [1, 2]);
        let (c1, c2) = sent_by_client(&out, 2);
        assert_eq!((c1.time, c1.zero), (0, 0));
        assert_eq!(c2, None);
    }
}

#[test]
fn client_sends_no_echo_to_another_version() {
    let mut input = vec![0u8];
    input.extend_from_slice(&packet(0, 0, 1));
    input.extend_from_slice(&packet(0, 2000, 2));
    for len in [1537usize, 3073] {
        let mut reader = SliceReader::new(&input[..len]);
        let mut out = Vec::new();
        assert_eq!(
            do_client_handshaking(&mut reader, &mut out),
            Err(Error::HandshakeMismatch)
        );
        assert_eq!(reader.remaining(), len);
        let (_, c2) = sent_by_client(&out, 0);
        assert_eq!(c2, None);
    }
}

#[test]
fn client_echoes_before_the_echo_of_the_server_is_in() {
    let mut input = vec![3u8];
    input.extend_from_slice(&packet(0, 0, 1));
    input.extend_from_slice(&packet(0, 2000, 2));
    for len in [1537usize, 1538, 3072] {
        let mut reader = SliceReader::new(&input[..len]);
        let mut out = Vec::new();
        assert_eq!(
            do_client_handshaking(&mut reader, &mut out),
            Err(Error::TruncatedPayload)
        );
        assert_eq!(reader.remaining(), len);
        let (c1, c2) = sent_by_client(&out, 0);
        assert_eq!(c2, Some(c1.echo()));
    }
}

#[test]
fn the_two_sides_complete_each_other() {
    let mut from_client = Vec::new();
    let c1 = open_client(block(3), &mut from_client);
    let mut reader = SliceReader::new(&from_client);
    let c0 = F0::read(&mut reader).unwrap();
    let read_c1 = F1::read(&mut reader).unwrap();
    assert_eq!(read_c1, c1);
    let mut from_server = Vec::new();
    answer_client(&c0, &read_c1, block(4), &mut from_server).unwrap();
    let mut reader = SliceReader::new(&from_server);
    let s0 = F0::read(&mut reader).unwrap();
    let _s1 = F1::read(&mut reader).unwrap();
    let s2 = F1::read(&mut reader).unwrap();
    assert_eq!(s2, c1.echo());
    let mut closing = Vec::new();
    answer_server(&s0, &c1, &mut closing).unwrap();
    assert_eq!(F1::read(&mut SliceReader::new(&closing)), Ok(c1.echo()));
}

#[test]
fn a_machine_without_a_generator_sends_zeros() {
    assert_eq!(block_or_zeros(Some(block(8))), block(8));
    assert_eq!(block_or_zeros(None), [0u8; 1528]);
}
