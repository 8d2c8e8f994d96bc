//! The handshake that opens a connection. Each side sends a version byte
//! and a packet of time and random bytes, and answers the packet of the
//! other side with an echo.
//!
//! The client sends C0 and C1; the server answers with S0, S1 and S2,
//! where S2 echoes C1; the client closes with C2. A side waits for the
//! other between these steps, so each step is a function of its own, for a
//! caller that reads from a socket in between. `do_server_handshaking` and
//! `do_client_handshaking` run all the steps of one side, in that order,
//! on an exchange whose incoming half is in memory: what a side has
//! written before the incoming half runs out stays written.

use crate::bytes::{append, be_u32, lemma_be_round_trip, u32_be_bytes, write_u32_be};
use crate::error::Error;
use crate::slicereader::SliceReader;
use rand::rngs::OsRng;
use rand::RngCore;
use vstd::prelude::*;

verus! {

/// The version of the protocol that both sides speak.
pub const VERSION: u8 = 3;

/// The length of the random part of a packet.
pub const RANDOM_LEN: usize = 1528;

/// The length of a packet: time, a second field of four bytes, and the
/// random part.
pub const PACKET_LEN: usize = 1536;

/// By how much the second field of an echo is ahead of its time.
pub const ECHO_DELAY: u32 = 2000;

/// The version byte: C0 and S0.
#[derive(Clone, Copy, Debug, PartialEq, Eq, Structural)]
pub struct F0 {
    pub version: u8,
}

impl F0 {
    pub fn read(reader: &mut SliceReader) -> (r: Result<F0, Error>)
        ensures
            match r {
                Ok(packet) => old(reader)@.len() >= 1 && packet.version == old(reader)@[0]
                    && final(reader)@ == old(reader)@.skip(1),
                Err(e) => old(reader)@.len() < 1 && e == Error::TruncatedPayload && final(reader)@
                    == old(reader)@,
            },
    {
        let version = reader.read_u8()?;
        Ok(F0 { version })
    }

    pub fn write(&self, writer: &mut Vec<u8>) -> (r: Result<(), Error>)
        ensures
            r is Ok,
            final(writer)@ == old(writer)@.push(self.version),
    {
        writer.push(self.version);
        Ok(())
    }
}

/// The packet of time and random bytes: C1, S1, C2 and S2. The field
/// `zero` is not held to be zero.
#[derive(Clone, Copy, Debug, PartialEq, Eq)]
pub struct F1 {
    pub time: u32,
    pub zero: u32,
    pub bytes: [u8; 1528],
}

/// An [`F1`] as contracts speak of it.
pub struct F1View {
    pub time: u32,
    pub zero: u32,
    pub bytes: Seq<u8>,
}

impl View for F1 {
    type V = F1View;

    open spec fn view(&self) -> F1View {
        F1View { time: self.time, zero: self.zero, bytes: self.bytes@ }
    }
}

impl F1View {
    /// The packet on the wire: both fields most significant byte first,
    /// then the random part.
    #[verifier::opaque]
    pub open spec fn encoding(self) -> Seq<u8> {
        u32_be_bytes(self.time) + u32_be_bytes(self.zero) + self.bytes
    }

    /// The packet that answers this one: the same time, a second field
    /// that is ahead of it by `ECHO_DELAY`, wrapping at 2^32, and the same
    /// random part.
    pub open spec fn echo(self) -> F1View {
        F1View { time: self.time, zero: self.time.wrapping_add(ECHO_DELAY), bytes: self.bytes }
    }
}

impl F1 {
    /// The packet at the front of `input`.
    pub open spec fn decoding(input: Seq<u8>) -> Result<F1View, Error> {
        if input.len() < PACKET_LEN {
            Err(Error::TruncatedPayload)
        } else {
            Ok(
                F1View {
                    time: be_u32(input) as u32,
                    zero: be_u32(input.skip(4)) as u32,
                    bytes: input.subrange(8, PACKET_LEN as int),
                },
            )
        }
    }

    /// Reads a packet. On an error the reader is where it was.
    pub fn read(reader: &mut SliceReader) -> (r: Result<F1, Error>)
        ensures
            match Self::decoding(old(reader)@) {
                Ok(packet) => r matches Ok(found) && found@ == packet && final(reader)@ == old(
                    reader,
                )@.skip(PACKET_LEN as int),
                Err(e) => r matches Err(x) && x == e && final(reader)@ == old(reader)@,
            },
    {
        if reader.remaining() < PACKET_LEN {
            return Err(Error::TruncatedPayload);
        }
        let time = reader.read_u32_be()?;
        let zero = reader.read_u32_be()?;
        let block = reader.read(RANDOM_LEN)?;
        let mut bytes = [0u8;1528];
        let mut i: usize = 0;
        while i < RANDOM_LEN
            invariant
                i <= RANDOM_LEN,
                block@.len() == RANDOM_LEN,
                forall|j: int| 0 <= j < i ==> bytes@[j] == block@[j],
            decreases RANDOM_LEN - i,
        {
            bytes[i] = block[i];
            i += 1;
        }
        assert(bytes@ =~= old(reader)@.subrange(8, PACKET_LEN as int));
        assert(reader@ =~= old(reader)@.skip(PACKET_LEN as int));
        Ok(F1 { time, zero, bytes })
    }

    pub fn write(&self, writer: &mut Vec<u8>) -> (r: Result<(), Error>)
        ensures
            r is Ok,
            final(writer)@ == old(writer)@ + self@.encoding(),
    {
        write_u32_be(writer, self.time);
        write_u32_be(writer, self.zero);
        append(writer, self.bytes.as_slice());
        proof {
            reveal(F1View::encoding);
            assert(writer@ =~= old(writer)@ + self@.encoding());
        }
        Ok(())
    }

    /// The packet that answers this one.
    pub fn echo(&self) -> (answer: F1)
        ensures
            answer@ == self@.echo(),
    {
        F1 { time: self.time, zero: self.time.wrapping_add(ECHO_DELAY), bytes: self.bytes }
    }
}

/// `rand::RngCore::try_fill_bytes` on `rand::rngs::OsRng`: a block filled
/// by the generator of the operating system, or `None` where that fails.
/// Nothing is known of the bytes.
#[verifier::external_body]
fn random_block() -> (block: Option<[u8; 1528]>) {
    let mut block = [0u8;1528];
    match OsRng.try_fill_bytes(&mut block) {
        Ok(_) => Some(block),
        Err(_) => None,
    }
}

/// The random part of a packet of one's own: what the generator gave, as
/// `block_or_zeros` takes it. Nothing is known of the bytes, whatever the
/// generator did.
fn fresh_block() -> (block: [u8; 1528]) {
    block_or_zeros(random_block())
}

/// The random part of a packet, where `found` is what the generator gave:
/// the block it filled, or zeros where it gave none. The handshake asks
/// nothing of these bytes, so a machine without a generator sends zeros.
pub fn block_or_zeros(found: Option<[u8; 1528]>) -> (block: [u8; 1528])
    ensures
        match found {
            Some(given) => block == given,
            None => block@ == Seq::new(RANDOM_LEN as nat, |i: int| 0u8),
        },
{
    match found {
        Some(given) => given,
        None => {
            let zeros = [0u8;1528];
            assert(zeros@ =~= Seq::new(RANDOM_LEN as nat, |i: int| 0u8));
            zeros
        },
    }
}

/// A packet of one's own with the random part `random`: C1 and S1.
pub open spec fn opening(random: Seq<u8>) -> F1View {
    F1View { time: 0, zero: 0, bytes: random }
}

/// What the server sends on the C1 `c1`, where `random` is the random part
/// of its own packet: S0, S1, and S2, the echo of `c1`.
pub open spec fn server_reply(c1: F1View, random: Seq<u8>) -> Seq<u8> {
    seq![VERSION] + opening(random).encoding() + c1.echo().encoding()
}

/// What the client opens with: C0 and C1.
pub open spec fn client_opening(random: Seq<u8>) -> Seq<u8> {
    seq![VERSION] + opening(random).encoding()
}

/// Answers C0 and C1: writes S0, S1 with the random part `random`, and S2.
/// A client that asks for another version than 3 is turned away, and
/// nothing is written.
pub fn answer_client(c0: &F0, c1: &F1, random: [u8; 1528], writer: &mut Vec<u8>) -> (r: Result<
    (),
    Error,
>)
    ensures
        c0.version == VERSION ==> r is Ok && final(writer)@ == old(writer)@ + server_reply(
            c1@,
            random@,
        ),
        c0.version != VERSION ==> r == Err::<(), Error>(Error::HandshakeMismatch) && final(writer)@ == old(writer)@,
{
    if c0.version != VERSION {
        return Err(Error::HandshakeMismatch);
    }
    let s0 = F0 { version: VERSION };
    let _ = s0.write(writer);
    let s1 = F1 { time: 0, zero: 0, bytes: random };
    let _ = s1.write(writer);
    let s2 = c1.echo();
    let _ = s2.write(writer);
    assert(writer@ =~= old(writer)@ + server_reply(c1@, random@));
    Ok(())
}

/// Opens the handshake of a client: writes C0, and C1 with the random part
/// `random`. The result is C1, which the client echoes later.
pub fn open_client(random: [u8; 1528], writer: &mut Vec<u8>) -> (c1: F1)
    ensures
        c1@ == opening(random@),
        final(writer)@ == old(writer)@ + client_opening(random@),
{
    let c0 = F0 { version: VERSION };
    let _ = c0.write(writer);
    let c1 = F1 { time: 0, zero: 0, bytes: random };
    let _ = c1.write(writer);
    assert(writer@ =~= old(writer)@ + client_opening(random@));
    c1
}

/// Answers S0 and S1 on the side of the client, whose own packet was `c1`:
/// writes C2, the echo of `c1`. A server that answers in another version
/// than 3 is turned away, and nothing is written.
pub fn answer_server(s0: &F0, c1: &F1, writer: &mut Vec<u8>) -> (r: Result<(), Error>)
    ensures
        s0.version == VERSION ==> r is Ok && final(writer)@ == old(writer)@
            + c1@.echo().encoding(),
        s0.version != VERSION ==> r == Err::<(), Error>(Error::HandshakeMismatch) && final(writer)@ == old(writer)@,
{
    if s0.version != VERSION {
        return Err(Error::HandshakeMismatch);
    }
    let c2 = c1.echo();
    let _ = c2.write(writer);
    Ok(())
}

/// What the server side makes of an exchange whose incoming half is
/// `input`: an error, or the client's C1 and the number of bytes that the
/// exchange takes from `input`.
pub open spec fn server_exchange(input: Seq<u8>) -> Result<(F1View, nat), Error> {
    if input.len() < 1 + PACKET_LEN {
        Err(Error::TruncatedPayload)
    } else if input[0] != VERSION {
        Err(Error::HandshakeMismatch)
    } else if input.len() < 1 + 2 * PACKET_LEN {
        Err(Error::TruncatedPayload)
    } else {
        Ok((F1::decoding(input.skip(1))->Ok_0, (1 + 2 * PACKET_LEN) as nat))
    }
}

/// What the client side makes of an exchange whose incoming half is
/// `input`: an error, or the number of bytes that the exchange takes from
/// `input`.
pub open spec fn client_exchange(input: Seq<u8>) -> Result<nat, Error> {
    if input.len() < 1 + PACKET_LEN {
        Err(Error::TruncatedPayload)
    } else if input[0] != VERSION {
        Err(Error::HandshakeMismatch)
    } else if input.len() < 1 + 2 * PACKET_LEN {
        Err(Error::TruncatedPayload)
    } else {
        Ok((1 + 2 * PACKET_LEN) as nat)
    }
}

/// Whether `input` opens with a version byte of 3 and a whole packet: the
/// opening that a side answers.
pub open spec fn opening_accepted(input: Seq<u8>) -> bool {
    input.len() >= 1 + PACKET_LEN && input[0] == VERSION
}

/// What the server writes in an exchange whose incoming half is `input`,
/// where `random` is the random part of its own packet: S0, S1 and S2 once
/// it has accepted the opening of the client, and nothing before.
pub open spec fn server_writes(input: Seq<u8>, random: Seq<u8>) -> Seq<u8> {
    if opening_accepted(input) {
        server_reply(F1::decoding(input.skip(1))->Ok_0, random)
    } else {
        Seq::empty()
    }
}

/// What the client writes in an exchange whose incoming half is `input`,
/// where `random` is the random part of its own packet: C0 and C1
/// whatever comes in, and C2 once it has accepted the opening of the
/// server.
pub open spec fn client_writes(input: Seq<u8>, random: Seq<u8>) -> Seq<u8> {
    if opening_accepted(input) {
        client_opening(random) + opening(random).echo().encoding()
    } else {
        client_opening(random)
    }
}

/// The handshake of a server on an exchange whose incoming half, C0, C1
/// and C2, is in the reader. It reads C0 and C1, writes S0, S1 with a
/// fresh random part and S2, and then reads C2, which it does not look
/// at. A client whose opening is cut short or of another version gets no
/// answer. Where C2 is cut short the answer has been written all the
/// same. On an error the reader is where it was.
pub fn do_server_handshaking(reader: &mut SliceReader, writer: &mut Vec<u8>) -> (r: Result<
    (),
    Error,
>)
    ensures
        exists|random: Seq<u8>|
            random.len() == RANDOM_LEN && final(writer)@ == old(writer)@
                + #[trigger] server_writes(old(reader)@, random),
        match server_exchange(old(reader)@) {
            Ok((_, n)) => r is Ok && final(reader)@ == old(reader)@.skip(n as int),
            Err(e) => r == Err::<(), Error>(e) && final(reader)@ == old(reader)@,
        },
{
    let start = *reader;
    let ghost none = Seq::new(RANDOM_LEN as nat, |i: int| 0u8);
    let c0 = match F0::read(reader) {
        Ok(c0) => c0,
        Err(e) => {
            assert(writer@ =~= old(writer)@ + server_writes(start@, none));
            return Err(e);
        },
    };
    let c1 = match F1::read(reader) {
        Ok(c1) => c1,
        Err(e) => {
            *reader = start;
            assert(writer@ =~= old(writer)@ + server_writes(start@, none));
            return Err(e);
        },
    };
    let random = fresh_block();
    match answer_client(&c0, &c1, random, writer) {
        Ok(_) => {},
        Err(e) => {
            *reader = start;
            assert(writer@ =~= old(writer)@ + server_writes(start@, none));
            return Err(e);
        },
    }
    proof {
        assert(c1@ == F1::decoding(start@.skip(1))->Ok_0);
        assert(random@.len() == RANDOM_LEN && writer@ == old(writer)@ + server_writes(
            start@,
            random@,
        ));
    }
    match F1::read(reader) {
        Ok(_) => {
            assert(reader@ =~= start@.skip(1 + 2 * PACKET_LEN));
            Ok(())
        },
        Err(e) => {
            *reader = start;
            Err(e)
        },
    }
}

/// The handshake of a client on an exchange whose incoming half, S0, S1
/// and S2, is in the reader. It writes C0 and C1 with a fresh random
/// part before it reads anything, then reads S0 and S1, writes C2, the
/// echo of its C1, and reads S2, which it does not look at. A server
/// whose opening is cut short or of another version gets no C2. On an
/// error the reader is where it was; what was written stays.
pub fn do_client_handshaking(reader: &mut SliceReader, writer: &mut Vec<u8>) -> (r: Result<
    (),
    Error,
>)
    ensures
        exists|random: Seq<u8>|
            random.len() == RANDOM_LEN && final(writer)@ == old(writer)@
                + #[trigger] client_writes(old(reader)@, random),
        match client_exchange(old(reader)@) {
            Ok(n) => r is Ok && final(reader)@ == old(reader)@.skip(n as int),
            Err(e) => r == Err::<(), Error>(e) && final(reader)@ == old(reader)@,
        },
{
    let start = *reader;
    let random = fresh_block();
    let c1 = open_client(random, writer);
    let ghost opened = writer@;
    let s0 = match F0::read(reader) {
        Ok(s0) => s0,
        Err(e) => {
            assert(random@.len() == RANDOM_LEN && opened == old(writer)@ + client_writes(
                start@,
                random@,
            ));
            return Err(e);
        },
    };
    match F1::read(reader) {
        Ok(_) => {},
        Err(e) => {
            *reader = start;
            assert(random@.len() == RANDOM_LEN && opened == old(writer)@ + client_writes(
                start@,
                random@,
            ));
            return Err(e);
        },
    }
    match answer_server(&s0, &c1, writer) {
        Ok(_) => {},
        Err(e) => {
            *reader = start;
            assert(random@.len() == RANDOM_LEN && opened == old(writer)@ + client_writes(
                start@,
                random@,
            ));
            return Err(e);
        },
    }
    proof {
        assert(writer@ =~= old(writer)@ + (client_opening(random@) + opening(
            random@,
        ).echo().encoding()));
        assert(random@.len() == RANDOM_LEN && writer@ == old(writer)@ + client_writes(
            start@,
            random@,
        ));
    }
    match F1::read(reader) {
        Ok(_) => {
            assert(reader@ =~= start@.skip(1 + 2 * PACKET_LEN));
            Ok(())
        },
        Err(e) => {
            *reader = start;
            Err(e)
        },
    }
}

/// Reading what `write` wrote gives the packet back, whatever follows.
pub proof fn lemma_packet_round_trip(packet: F1View, rest: Seq<u8>)
    requires
        packet.bytes.len() == RANDOM_LEN,
    ensures
        packet.encoding().len() == PACKET_LEN,
        F1::decoding(packet.encoding() + rest) == Ok::<F1View, Error>(packet),
{
    reveal(F1View::encoding);
    let bytes = packet.encoding() + rest;
    lemma_be_round_trip(0, 0, packet.time);
    lemma_be_round_trip(0, 0, packet.zero);
    assert(bytes.subrange(0, 4) =~= u32_be_bytes(packet.time));
    assert(bytes.skip(4).subrange(0, 4) =~= u32_be_bytes(packet.zero));
    assert(be_u32(bytes) == be_u32(bytes.subrange(0, 4)));
    assert(be_u32(bytes.skip(4)) == be_u32(bytes.skip(4).subrange(0, 4)));
    assert(bytes.subrange(8, PACKET_LEN as int) =~= packet.bytes);
}

/// What the server sends reads as S0 with version 3, S1 with the server's
/// own random part, and S2; and S2 echoes C1: it has the time of C1, a
/// second field that is ahead of that time by 2000, counted modulo 2^32,
/// and the random part of C1.
pub proof fn lemma_server_echoes(c1: F1View, random: Seq<u8>)
    requires
        c1.bytes.len() == RANDOM_LEN,
        random.len() == RANDOM_LEN,
    ensures
        server_reply(c1, random).len() == 1 + 2 * PACKET_LEN,
        server_reply(c1, random)[0] == VERSION,
        F1::decoding(server_reply(c1, random).skip(1)) == Ok::<F1View, Error>(opening(random)),
        F1::decoding(server_reply(c1, random).skip(1 + PACKET_LEN)) == Ok::<F1View, Error>(
            c1.echo(),
        ),
        c1.echo().time == c1.time,
        c1.echo().zero == (c1.time + ECHO_DELAY) % 0x1_0000_0000,
        c1.echo().bytes == c1.bytes,
{
    let s1 = opening(random).encoding();
    let s2 = c1.echo().encoding();
    let reply = server_reply(c1, random);
    lemma_packet_round_trip(opening(random), s2);
    lemma_packet_round_trip(c1.echo(), Seq::empty());
    assert(reply == seq![VERSION] + s1 + s2);
    assert(reply.skip(1) =~= s1 + s2);
    assert(reply.skip(1 + PACKET_LEN) =~= s2 + Seq::<u8>::empty());
}

/// What the client sends reads as C0 with version 3, C1, and C2; and C2
/// echoes C1 as the server's S2 does.
pub proof fn lemma_client_echoes(random: Seq<u8>)
    requires
        random.len() == RANDOM_LEN,
    ensures
        client_opening(random)[0] == VERSION,
        F1::decoding(client_opening(random).skip(1)) == Ok::<F1View, Error>(opening(random)),
        F1::decoding(opening(random).echo().encoding()) == Ok::<F1View, Error>(
            opening(random).echo(),
        ),
        opening(random).echo().time == 0,
        opening(random).echo().zero == ECHO_DELAY,
        opening(random).echo().bytes == random,
{
    let c1 = opening(random).encoding();
    let c2 = opening(random).echo().encoding();
    lemma_packet_round_trip(opening(random), Seq::empty());
    lemma_packet_round_trip(opening(random).echo(), Seq::empty());
    assert(client_opening(random).skip(1) =~= c1 + Seq::<u8>::empty());
    assert(c2 + Seq::<u8>::empty() =~= c2);
}

} // verus!
