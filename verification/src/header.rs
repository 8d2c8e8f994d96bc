//! The compressed header that precedes every chunk.
//!
//! A header opens with a basic header of one to three bytes: the top two
//! bits of the first byte give the format, the low six bits the chunk
//! stream, or say that the chunk stream follows in one or two more bytes.
//! What comes after depends on the format, and formats 1 to 3 leave out
//! fields that are taken over from the last header of the chunk stream.

use crate::bytes::{be_u16, be_u24, be_u32, le_u32, u24_be_bytes, u32_le_bytes};
use crate::bytes::{lemma_be_round_trip, lemma_le_round_trip};
use crate::bytes::{write_u24_be, write_u32_le};
use crate::connection::{last_header, HeaderCache};
use crate::error::Error;
use crate::slicereader::SliceReader;
use vstd::arithmetic::div_mod::lemma_add_mod_noop_right;
use vstd::prelude::*;

verus! {

/// In a three-byte time field: the time stands in four more bytes behind
/// the message header.
pub const EXTENDED: u32 = 0xFF_FFFF;

/// What `Header::write` emits, in bytes: a basic header of one byte and
/// the eleven bytes of a message header of format 0.
pub const WRITTEN_LEN: usize = 12;

/// The header of a chunk, complete: what it says itself and what it
/// takes over from the header before it.
#[derive(Clone, Copy, Debug, PartialEq, Eq, Structural)]
pub struct Header {
    pub chunk_stream_id: u32,
    /// Absolute time of the message; it wraps at 2^32.
    pub timestamp: u32,
    /// The step by which a format-3 header advances `timestamp`.
    pub delta_timestamp: u32,
    pub message_length: u32,
    pub message_type_id: u8,
    pub message_stream_id: u32,
    /// Whether the time came in the four-byte extension.
    pub extend_timestamp: bool,
    /// The format, 0 to 3, that the header was read in.
    pub htype: u8,
}

impl Header {
    /// How many bytes the basic header takes, by its first byte.
    pub open spec fn basic_len(first: u8) -> nat {
        if first % 64 == 0 {
            2
        } else if first % 64 == 1 {
            3
        } else {
            1
        }
    }

    /// The chunk stream that a basic header names: 2 to 63 in the first
    /// byte itself, 64 to 319 in one more byte, 64 to 65599 in two more.
    pub open spec fn basic_stream_id(bytes: Seq<u8>) -> u32
        recommends
            bytes.len() >= 1,
            bytes.len() >= Self::basic_len(bytes[0]),
    {
        if bytes[0] % 64 == 0 {
            (bytes[1] + 64) as u32
        } else if bytes[0] % 64 == 1 {
            (be_u16(bytes.skip(1)) + 64) as u32
        } else {
            (bytes[0] % 64) as u32
        }
    }

    /// A format-0 message header: time, length, type and message stream in
    /// full. `body` is what follows the basic header; the result holds the
    /// header and how many bytes of `body` it took.
    pub open spec fn header0(id: u32, body: Seq<u8>) -> Result<(Header, nat), Error> {
        if body.len() < 11 {
            Err(Error::TruncatedPayload)
        } else if be_u24(body) != EXTENDED {
            Ok(
                (
                    Header {
                        chunk_stream_id: id,
                        timestamp: be_u24(body) as u32,
                        delta_timestamp: 0,
                        message_length: be_u24(body.skip(3)) as u32,
                        message_type_id: body[6],
                        message_stream_id: le_u32(body.skip(7)) as u32,
                        extend_timestamp: false,
                        htype: 0,
                    },
                    11,
                ),
            )
        } else if body.len() < 15 {
            Err(Error::TruncatedPayload)
        } else {
            Ok(
                (
                    Header {
                        chunk_stream_id: id,
                        timestamp: be_u32(body.skip(11)) as u32,
                        delta_timestamp: 0,
                        message_length: be_u24(body.skip(3)) as u32,
                        message_type_id: body[6],
                        message_stream_id: le_u32(body.skip(7)) as u32,
                        extend_timestamp: true,
                        htype: 0,
                    },
                    15,
                ),
            )
        }
    }

    /// A format-1 message header: a time step, length and type. The time
    /// is that of `last` advanced by the step; the message stream and the
    /// extension flag are those of `last`.
    pub open spec fn header1(id: u32, body: Seq<u8>, last: Header) -> Result<(Header, nat), Error> {
        if body.len() < 7 {
            Err(Error::TruncatedPayload)
        } else if be_u24(body) != EXTENDED {
            Ok(
                (
                    Header {
                        chunk_stream_id: id,
                        timestamp: last.timestamp.wrapping_add(be_u24(body) as u32),
                        delta_timestamp: be_u24(body) as u32,
                        message_length: be_u24(body.skip(3)) as u32,
                        message_type_id: body[6],
                        message_stream_id: last.message_stream_id,
                        extend_timestamp: last.extend_timestamp,
                        htype: 1,
                    },
                    7,
                ),
            )
        } else if body.len() < 11 {
            Err(Error::TruncatedPayload)
        } else {
            Ok(
                (
                    Header {
                        chunk_stream_id: id,
                        timestamp: last.timestamp.wrapping_add(be_u32(body.skip(7)) as u32),
                        delta_timestamp: be_u32(body.skip(7)) as u32,
                        message_length: be_u24(body.skip(3)) as u32,
                        message_type_id: body[6],
                        message_stream_id: last.message_stream_id,
                        extend_timestamp: last.extend_timestamp,
                        htype: 1,
                    },
                    11,
                ),
            )
        }
    }

    /// A format-2 message header: a time step of three bytes and nothing
    /// else. Length, type and message stream are those of `last`.
    pub open spec fn header2(id: u32, body: Seq<u8>, last: Header) -> Result<(Header, nat), Error> {
        if body.len() < 3 {
            Err(Error::TruncatedPayload)
        } else {
            Ok(
                (
                    Header {
                        chunk_stream_id: id,
                        timestamp: last.timestamp.wrapping_add(be_u24(body) as u32),
                        delta_timestamp: be_u24(body) as u32,
                        message_length: last.message_length,
                        message_type_id: last.message_type_id,
                        message_stream_id: last.message_stream_id,
                        extend_timestamp: false,
                        htype: 2,
                    },
                    3,
                ),
            )
        }
    }

    /// A format-3 header has no message header at all: it is `last` with
    /// the time advanced once more by the step of `last`.
    pub open spec fn header3(id: u32, last: Header) -> Header {
        Header {
            chunk_stream_id: id,
            timestamp: last.timestamp.wrapping_add(last.delta_timestamp),
            delta_timestamp: last.delta_timestamp,
            message_length: last.message_length,
            message_type_id: last.message_type_id,
            message_stream_id: last.message_stream_id,
            extend_timestamp: last.extend_timestamp,
            htype: 3,
        }
    }

    /// The message header of the given format. Formats 1 to 3 fail with
    /// `MalformedHeader` where there is no `last` header, whatever `body`
    /// holds.
    pub open spec fn message_header(format: u8, id: u32, body: Seq<u8>, last: Option<Header>)
        -> Result<(Header, nat), Error> {
        if format == 0 {
            Self::header0(id, body)
        } else if last is None {
            Err(Error::MalformedHeader)
        } else if format == 1 {
            Self::header1(id, body, last->0)
        } else if format == 2 {
            Self::header2(id, body, last->0)
        } else {
            Ok((Self::header3(id, last->0), 0))
        }
    }

    /// The header at the front of `bytes`, completed from `last`, and the
    /// number of bytes it occupies.
    #[verifier::opaque]
    pub open spec fn decoding(bytes: Seq<u8>, last: Option<Header>) -> Result<(Header, nat), Error> {
        if bytes.len() < 1 || bytes.len() < Self::basic_len(bytes[0]) {
            Err(Error::TruncatedPayload)
        } else {
            match Self::message_header(
                bytes[0] / 64,
                Self::basic_stream_id(bytes),
                bytes.skip(Self::basic_len(bytes[0]) as int),
                last,
            ) {
                Ok((header, n)) => Ok((header, Self::basic_len(bytes[0]) + n)),
                Err(e) => Err(e),
            }
        }
    }

    /// The twelve bytes that `write` emits: a one-byte basic header made of
    /// the low byte of the chunk stream id, then the eleven bytes of a
    /// message header of format 0, with time and length cut to 24 bits and
    /// the message stream to 15.
    pub open spec fn encoding(self) -> Seq<u8> {
        seq![(self.chunk_stream_id % 0x100) as u8] + u24_be_bytes(
            (self.timestamp % 0x100_0000) as u32,
        ) + u24_be_bytes((self.message_length % 0x100_0000) as u32) + seq![self.message_type_id]
            + u32_le_bytes((self.message_stream_id % 0x8000) as u32)
    }

    /// Whether `write` emits the header as it is: a header of format 0 on a
    /// chunk stream that fits the first byte, with a time below the mark of
    /// the extension, and with a length and a message stream that fit their
    /// fields.
    pub open spec fn writable(self) -> bool {
        &&& 2 <= self.chunk_stream_id <= 63
        &&& self.timestamp < EXTENDED
        &&& self.message_length < 0x100_0000
        &&& self.message_stream_id < 0x8000
        &&& self.delta_timestamp == 0
        &&& !self.extend_timestamp
        &&& self.htype == 0
    }

    /// The header after `n` more chunks of format 3 on chunk stream `id`.
    pub open spec fn continued(self, id: u32, n: nat) -> Header
        decreases n,
    {
        if n == 0 {
            self
        } else {
            Self::header3(id, self.continued(id, (n - 1) as nat))
        }
    }

    /// The basic header of a format-3 chunk on the chunk stream of `self`:
    /// one byte, the two format bits set over the low six bits of the id.
    pub open spec fn continuation(self) -> Seq<u8> {
        seq![(192 + self.chunk_stream_id % 64) as u8]
    }

    pub fn new(
        chunk_stream_id: u32,
        timestamp: u32,
        message_length: u32,
        message_type_id: u8,
        message_stream_id: u32,
    ) -> (header: Header)
        ensures
            header == (Header {
                chunk_stream_id,
                timestamp,
                delta_timestamp: 0,
                message_length,
                message_type_id,
                message_stream_id,
                extend_timestamp: false,
                htype: 0,
            }),
    {
        Header {
            chunk_stream_id,
            timestamp,
            delta_timestamp: 0,
            message_length,
            message_type_id,
            message_stream_id,
            extend_timestamp: false,
            htype: 0,
        }
    }

    pub fn copy(&mut self, header: Header)
        ensures
            *final(self) == header,
    {
        self.chunk_stream_id = header.chunk_stream_id;
        self.timestamp = header.timestamp;
        self.delta_timestamp = header.delta_timestamp;
        self.message_length = header.message_length;
        self.message_type_id = header.message_type_id;
        self.message_stream_id = header.message_stream_id;
        self.extend_timestamp = header.extend_timestamp;
        self.htype = header.htype;
    }

    fn read_header0(reader: &mut SliceReader, chunk_stream_id: u32, _last_header: Option<Header>) -> (r:
        Result<Header, Error>)
        ensures
            match Self::header0(chunk_stream_id, old(reader)@) {
                Ok((header, n)) => r == Ok::<Header, Error>(header) && final(reader)@ == old(
                    reader,
                )@.skip(n as int),
                Err(e) => r == Err::<Header, Error>(e),
            },
    {
        let mut timestamp = reader.read_u24_be()?;
        let message_length = reader.read_u24_be()?;
        let message_type_id = reader.read_u8()?;
        let message_stream_id = reader.read_u32_le()?;
        let extend_timestamp;
        if timestamp >= EXTENDED {
            extend_timestamp = true;
            timestamp = reader.read_u32_be()?;
            assert(reader@ =~= old(reader)@.skip(15));
        } else {
            extend_timestamp = false;
            assert(reader@ =~= old(reader)@.skip(11));
        }
        Ok(
            Header {
                chunk_stream_id,
                timestamp,
                delta_timestamp: 0,
                message_length,
                message_type_id,
                message_stream_id,
                extend_timestamp,
                htype: 0,
            },
        )
    }

    fn read_header1(reader: &mut SliceReader, chunk_stream_id: u32, last_header: Option<Header>) -> (r:
        Result<Header, Error>)
        ensures
            match Self::message_header(1, chunk_stream_id, old(reader)@, last_header) {
                Ok((header, n)) => r == Ok::<Header, Error>(header) && final(reader)@ == old(
                    reader,
                )@.skip(n as int),
                Err(e) => r == Err::<Header, Error>(e),
            },
    {
        match last_header {
            None => Err(Error::MalformedHeader),
            Some(h) => {
                let mut timestamp = reader.read_u24_be()?;
                let message_length = reader.read_u24_be()?;
                let message_type_id = reader.read_u8()?;
                if timestamp >= EXTENDED {
                    timestamp = reader.read_u32_be()?;
                    assert(reader@ =~= old(reader)@.skip(11));
                } else {
                    assert(reader@ =~= old(reader)@.skip(7));
                }
                Ok(
                    Header {
                        chunk_stream_id,
                        timestamp: h.timestamp.wrapping_add(timestamp),
                        delta_timestamp: timestamp,
                        message_length,
                        message_type_id,
                        message_stream_id: h.message_stream_id,
                        extend_timestamp: h.extend_timestamp,
                        htype: 1,
                    },
                )
            },
        }
    }

    fn read_header2(reader: &mut SliceReader, chunk_stream_id: u32, last_header: Option<Header>) -> (r:
        Result<Header, Error>)
        ensures
            match Self::message_header(2, chunk_stream_id, old(reader)@, last_header) {
                Ok((header, n)) => r == Ok::<Header, Error>(header) && final(reader)@ == old(
                    reader,
                )@.skip(n as int),
                Err(e) => r == Err::<Header, Error>(e),
            },
    {
        match last_header {
            None => Err(Error::MalformedHeader),
            Some(h) => {
                let timestamp = reader.read_u24_be()?;
                Ok(
                    Header {
                        chunk_stream_id,
                        timestamp: h.timestamp.wrapping_add(timestamp),
                        delta_timestamp: timestamp,
                        message_length: h.message_length,
                        message_type_id: h.message_type_id,
                        message_stream_id: h.message_stream_id,
                        extend_timestamp: false,
                        htype: 2,
                    },
                )
            },
        }
    }

    /// Completes a format-3 header, which has no bytes of its own, from the
    /// last header of the chunk stream.
    pub fn read_header3(_reader: &mut SliceReader, chunk_stream_id: u32, last_header: Option<Header>)
        -> (r: Result<Header, Error>)
        ensures
            final(_reader)@ == old(_reader)@,
            match last_header {
                Some(last) => r == Ok::<Header, Error>(Self::header3(chunk_stream_id, last)),
                None => r == Err::<Header, Error>(Error::MalformedHeader),
            },
    {
        match last_header {
            None => Err(Error::MalformedHeader),
            Some(h) => {
                let timestamp = h.timestamp.wrapping_add(h.delta_timestamp);
                Ok(
                    Header {
                        chunk_stream_id,
                        timestamp,
                        delta_timestamp: h.delta_timestamp,
                        message_length: h.message_length,
                        message_type_id: h.message_type_id,
                        message_stream_id: h.message_stream_id,
                        extend_timestamp: h.extend_timestamp,
                        htype: 3,
                    },
                )
            },
        }
    }

    /// Reads what is left of the basic header behind its first byte, whose
    /// low six bits are `chunk_stream_id`.
    fn read_chunk_stream_id(reader: &mut SliceReader, chunk_stream_id: u8) -> (r: Result<u32, Error>)
        requires
            chunk_stream_id < 64,
        ensures
            match r {
                Ok(id) => if chunk_stream_id == 0 {
                    &&& old(reader)@.len() >= 1
                    &&& id == old(reader)@[0] + 64
                    &&& final(reader)@ == old(reader)@.skip(1)
                } else if chunk_stream_id == 1 {
                    &&& old(reader)@.len() >= 2
                    &&& id == be_u16(old(reader)@) + 64
                    &&& final(reader)@ == old(reader)@.skip(2)
                } else {
                    &&& id == chunk_stream_id
                    &&& final(reader)@ == old(reader)@
                },
                Err(e) => e == Error::TruncatedPayload && old(reader)@.len() + 1 < Self::basic_len(
                    chunk_stream_id,
                ),
            },
    {
        match chunk_stream_id {
            0 => {
                let low = reader.read_u8()?;
                Ok(low as u32 + 64)
            },
            1 => {
                let low = reader.read_u16_be()?;
                Ok(low as u32 + 64)
            },
            _ => Ok(chunk_stream_id as u32),
        }
    }

    fn read_parts(reader: &mut SliceReader, last_header: Option<Header>) -> (r: Result<Header, Error>)
        ensures
            match Self::decoding(old(reader)@, last_header) {
                Ok((header, n)) => r == Ok::<Header, Error>(header) && final(reader)@ == old(
                    reader,
                )@.skip(n as int),
                Err(e) => r == Err::<Header, Error>(e),
            },
    {
        let ghost all = reader@;
        proof {
            reveal(Header::decoding);
        }
        let basic_header = reader.read_u8()?;
        let fmt = (basic_header >> 6) & 0x03;
        let low = basic_header & 0x3f;
        assert(fmt == basic_header / 64 && low == basic_header % 64) by (bit_vector)
            requires
                fmt == (basic_header >> 6) & 0x03,
                low == basic_header & 0x3f,
        ;
        let chunk_stream_id = Self::read_chunk_stream_id(reader, low)?;
        let ghost body = reader@;
        proof {
            assert(body =~= all.skip(Self::basic_len(basic_header) as int));
            assert(chunk_stream_id == Self::basic_stream_id(all));
        }
        let r = match fmt {
            0 => Self::read_header0(reader, chunk_stream_id, last_header),
            1 => Self::read_header1(reader, chunk_stream_id, last_header),
            2 => Self::read_header2(reader, chunk_stream_id, last_header),
            _ => Self::read_header3(reader, chunk_stream_id, last_header),
        };
        proof {
            let want = Self::message_header(fmt, chunk_stream_id, body, last_header);
            assert(match want {
                Ok((header, n)) => r == Ok::<Header, Error>(header) && reader@ == body.skip(
                    n as int,
                ),
                Err(e) => r == Err::<Header, Error>(e),
            }) by {
                assert(body.skip(0) =~= body);
            }
            if let Ok((header, n)) = want {
                assert(body.skip(n as int) =~= all.skip((Self::basic_len(basic_header) + n) as int));
            }
        }
        r
    }

    /// Reads one chunk header. `last_header` is the last header seen on
    /// the chunk stream, which formats 1 to 3 are completed from. On an
    /// error the reader is where it was.
    pub fn read(reader: &mut SliceReader, last_header: Option<Header>) -> (r: Result<Header, Error>)
        ensures
            match Self::decoding(old(reader)@, last_header) {
                Ok((header, n)) => r == Ok::<Header, Error>(header) && final(reader)@ == old(
                    reader,
                )@.skip(n as int),
                Err(e) => r == Err::<Header, Error>(e) && final(reader)@ == old(reader)@,
            },
    {
        let start = *reader;
        let r = Self::read_parts(reader, last_header);
        if r.is_err() {
            *reader = start;
        }
        r
    }

    /// The chunk stream that the header at the front of the reader is on,
    /// where the reader holds the whole of its basic header. Nothing is
    /// consumed.
    pub fn peek_chunk_stream_id(reader: &SliceReader) -> (r: Option<u32>)
        ensures
            match r {
                Some(id) => reader@.len() >= 1 && reader@.len() >= Self::basic_len(reader@[0])
                    && id == Self::basic_stream_id(reader@),
                None => reader@.len() < 1 || reader@.len() < Self::basic_len(reader@[0]),
            },
    {
        let mut probe = *reader;
        let basic_header = match probe.read_u8() {
            Ok(byte) => byte,
            Err(_) => {
                return None;
            },
        };
        let low = basic_header & 0x3f;
        assert(low == basic_header % 64) by (bit_vector)
            requires
                low == basic_header & 0x3f,
        ;
        match Self::read_chunk_stream_id(&mut probe, low) {
            Ok(id) => Some(id),
            Err(_) => None,
        }
    }

    /// Reads one chunk header and completes it from the last header that
    /// `cache` holds for its chunk stream. On an error the reader is where
    /// it was.
    pub fn read_cached(reader: &mut SliceReader, cache: &HeaderCache) -> (r: Result<Header, Error>)
        ensures
            match Self::decoding(
                old(reader)@,
                last_header(cache@, Self::basic_stream_id(old(reader)@)),
            ) {
                Ok((header, n)) => r == Ok::<Header, Error>(header) && final(reader)@ == old(
                    reader,
                )@.skip(n as int),
                Err(e) => r == Err::<Header, Error>(e) && final(reader)@ == old(reader)@,
            },
    {
        match Self::peek_chunk_stream_id(reader) {
            None => {
                proof {
                    reveal(Header::decoding);
                }
                Err(Error::TruncatedPayload)
            },
            Some(id) => Self::read(reader, cache.get(id)),
        }
    }

    /// Appends the header in its fixed form and returns the number of
    /// bytes that took.
    pub fn write(&self, writer: &mut Vec<u8>) -> (r: Result<usize, Error>)
        ensures
            r == Ok::<usize, Error>(WRITTEN_LEN),
            self.encoding().len() == WRITTEN_LEN,
            final(writer)@ == old(writer)@ + self.encoding(),
    {
        let first = (self.chunk_stream_id & 0xff) as u8;
        let timestamp = self.timestamp & 0xff_ffff;
        let message_length = self.message_length & 0xff_ffff;
        let message_stream_id = self.message_stream_id & 0x7fff;
        proof {
            let (a, b, c, d) = (
                self.chunk_stream_id,
                self.timestamp,
                self.message_length,
                self.message_stream_id,
            );
            assert(a & 0xff == a % 0x100 && b & 0xff_ffff == b % 0x100_0000 && c & 0xff_ffff == c
                % 0x100_0000 && d & 0x7fff == d % 0x8000) by (bit_vector);
        }
        writer.push(first);
        write_u24_be(writer, timestamp);
        write_u24_be(writer, message_length);
        writer.push(self.message_type_id);
        write_u32_le(writer, message_stream_id);
        assert(writer@ =~= old(writer)@ + self.encoding());
        Ok(WRITTEN_LEN)
    }

    /// Appends the one-byte header that opens a further chunk of the same
    /// message.
    pub fn write_continuation(&self, writer: &mut Vec<u8>)
        ensures
            final(writer)@ == old(writer)@ + self.continuation(),
    {
        let low = (self.chunk_stream_id & 0x3f) as u8;
        proof {
            let a = self.chunk_stream_id;
            assert(a & 0x3f == a % 64) by (bit_vector);
        }
        writer.push(0xc0 + low);
        assert(writer@ =~= old(writer)@ + self.continuation());
    }
}

/// A header takes at least one byte, and no more than there are. Its
/// chunk stream is one of 2 to 65599, and its format is the one that the
/// top two bits of the first byte give.
pub proof fn lemma_header_fits(bytes: Seq<u8>, last: Option<Header>)
    ensures
        Header::decoding(bytes, last) matches Ok((header, n)) ==> {
            &&& 1 <= n <= bytes.len()
            &&& 2 <= header.chunk_stream_id <= 65599
            &&& header.htype == bytes[0] / 64
        },
{
    reveal(Header::decoding);
}

/// What stands where in the twelve bytes that `write` emits.
pub proof fn lemma_encoding_layout(header: Header, rest: Seq<u8>)
    ensures
        header.encoding().len() == WRITTEN_LEN,
        (header.encoding() + rest)[0] == header.chunk_stream_id % 0x100,
        be_u24((header.encoding() + rest).skip(1)) == header.timestamp % 0x100_0000,
        be_u24((header.encoding() + rest).skip(1).skip(3)) == header.message_length % 0x100_0000,
        (header.encoding() + rest).skip(1)[6] == header.message_type_id,
        le_u32((header.encoding() + rest).skip(1).skip(7)) == header.message_stream_id % 0x8000,
{
    let timestamp = u24_be_bytes((header.timestamp % 0x100_0000) as u32);
    let message_length = u24_be_bytes((header.message_length % 0x100_0000) as u32);
    let message_stream_id = u32_le_bytes((header.message_stream_id % 0x8000) as u32);
    let bytes = header.encoding() + rest;
    lemma_be_round_trip(0, (header.timestamp % 0x100_0000) as u32, 0);
    lemma_be_round_trip(0, (header.message_length % 0x100_0000) as u32, 0);
    lemma_le_round_trip((header.message_stream_id % 0x8000) as u32);
    let first = seq![(header.chunk_stream_id % 0x100) as u8];
    let kind = seq![header.message_type_id];
    assert(first.len() == 1 && kind.len() == 1);
    assert(timestamp.len() == 3 && message_length.len() == 3 && message_stream_id.len() == 4);
    assert(header.encoding() == first + timestamp + message_length + kind + message_stream_id);
    assert(bytes.skip(1).subrange(0, 3) =~= timestamp);
    assert(bytes.skip(1).skip(3).subrange(0, 3) =~= message_length);
    assert(bytes.skip(1).skip(7).subrange(0, 4) =~= message_stream_id);
    assert(be_u24(bytes.skip(1)) == be_u24(timestamp));
    assert(be_u24(bytes.skip(1).skip(3)) == be_u24(message_length));
    assert(le_u32(bytes.skip(1).skip(7)) == le_u32(message_stream_id));
}

/// Reading what `write` wrote gives the header back, whatever the last
/// header of the chunk stream was and whatever follows: this holds of every
/// header that `write` emits as it is.
pub proof fn lemma_write_read_round_trip(header: Header, last: Option<Header>, rest: Seq<u8>)
    requires
        header.writable(),
    ensures
        header.encoding().len() == WRITTEN_LEN,
        Header::decoding(header.encoding() + rest, last) == Ok::<(Header, nat), Error>(
            (header, WRITTEN_LEN as nat),
        ),
{
    reveal(Header::decoding);
    lemma_encoding_layout(header, rest);
}

/// No other header comes back whole: where reading what `write` wrote
/// gives the header back and takes every byte that was written, the header
/// is one that `write` emits as it is.
pub proof fn lemma_round_trip_needs_writable(header: Header, last: Option<Header>)
    requires
        Header::decoding(header.encoding(), last) == Ok::<(Header, nat), Error>(
            (header, WRITTEN_LEN as nat),
        ),
    ensures
        header.writable(),
{
    reveal(Header::decoding);
    lemma_encoding_layout(header, Seq::empty());
    assert(header.encoding() + Seq::<u8>::empty() =~= header.encoding());
}

/// A header of format 1, 2 or 3 on a chunk stream whose id fits the first
/// byte never comes back from what `write` wrote for it: `write` emits
/// every header in the layout of format 0.
pub proof fn lemma_compressed_formats_do_not_read_back(header: Header, last: Option<Header>)
    requires
        header.htype != 0,
        header.chunk_stream_id <= 63,
    ensures
        !(Header::decoding(header.encoding(), last) matches Ok((found, _)) && found == header),
{
    reveal(Header::decoding);
    lemma_encoding_layout(header, Seq::empty());
    assert(header.encoding() + Seq::<u8>::empty() =~= header.encoding());
}

/// A chunk of format 3 advances the time by the step of the header before
/// it and keeps the step, so `n` of them in a row advance the time by `n`
/// steps, counted modulo 2^32. Length, type and message stream stay.
pub proof fn lemma_format3_accumulates(last: Header, id: u32, n: nat)
    ensures
        last.continued(id, n).timestamp == (last.timestamp + n * last.delta_timestamp)
            % 0x1_0000_0000,
        last.continued(id, n).delta_timestamp == last.delta_timestamp,
        last.continued(id, n).message_length == last.message_length,
        last.continued(id, n).message_type_id == last.message_type_id,
        last.continued(id, n).message_stream_id == last.message_stream_id,
    decreases n,
{
    if n == 0 {
        assert(n * last.delta_timestamp == 0) by (nonlinear_arith)
            requires
                n == 0,
        ;
    } else {
        let before = last.continued(id, (n - 1) as nat);
        lemma_format3_accumulates(last, id, (n - 1) as nat);
        let step = last.delta_timestamp as int;
        let steps = (n - 1) * step;
        assert(n * step == steps + step && steps >= 0) by (nonlinear_arith)
            requires
                steps == (n - 1) * step,
                n >= 1,
                step >= 0,
        ;
        assert(last.continued(id, n).timestamp == (before.timestamp + step) % 0x1_0000_0000);
        lemma_add_mod_noop_right(step, last.timestamp + steps, 0x1_0000_0000);
    }
}

/// The one byte that `write_continuation` writes reads as a header of
/// format 3 on the same chunk stream, where that fits the first byte.
pub proof fn lemma_continuation_reads_as_format3(header: Header, last: Header, rest: Seq<u8>)
    requires
        2 <= header.chunk_stream_id <= 63,
    ensures
        Header::decoding(header.continuation() + rest, Some(last)) == Ok::<(Header, nat), Error>(
            (Header::header3(header.chunk_stream_id, last), 1),
        ),
{
    reveal(Header::decoding);
}

/// A header of format 1, 2 or 3 on a chunk stream that has had no header
/// yet is malformed, whatever else it holds.
pub proof fn lemma_unseen_stream_is_malformed(bytes: Seq<u8>, cache: Map<u32, Header>)
    requires
        bytes.len() >= 1,
        bytes.len() >= Header::basic_len(bytes[0]),
        bytes[0] >= 64,
        !cache.contains_key(Header::basic_stream_id(bytes)),
    ensures
        Header::decoding(bytes, last_header(cache, Header::basic_stream_id(bytes))) == Err::<
            (Header, nat),
            Error,
        >(Error::MalformedHeader),
{
    reveal(Header::decoding);
}

} // verus!
