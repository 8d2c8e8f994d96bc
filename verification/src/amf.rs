//! The boundary to the AMF codec. Command and data payloads are sequences
//! of AMF0 values. This layer does not look into a value: it asks the codec
//! where a value ends and what kind it is, and carries the value as the
//! bytes that encode it.

use crate::bytes::{u16_be_bytes, u32_be_bytes, u64_be_bytes, write_u64_be};
use crate::error::{AmfError, Error};
use amf::amf0::{Decoder, Value};
use amf::error::DecodeError;
use std::io::Cursor;
use vstd::prelude::*;
use vstd::slice::{slice_subrange, slice_to_vec};
use vstd::string::StringSliceAdditionalSpecFns;
use vstd::utf8::encode_utf8;

verus! {

/// The first byte of an encoded value says what kind it is.
pub const MARKER_NUMBER: u8 = 0x00;

pub const MARKER_STRING: u8 = 0x02;

pub const MARKER_LONG_STRING: u8 = 0x0C;

/// The longest string, in bytes of UTF-8, that has an encoding.
pub const MAX_STRING_LEN: usize = 0xFFFF_FFFF;

/// How many bytes that can open a nested value a buffer may hold for the
/// codec to be asked about it. The codec goes one call deeper with each
/// level of nesting, and each level takes such a byte from the buffer, so
/// this bounds how deep it goes: 256 levels have room on a stack of one
/// megabyte.
pub const MAX_NESTING: usize = 256;

/// What the codec finds at the front of a buffer.
#[derive(Clone, Debug, PartialEq, Eq)]
pub enum AmfFront {
    /// A number, as the bits of its IEEE-754 double.
    Number(u64),
    /// A string, short or long.
    String(String),
    /// An object, anonymous or typed.
    Object,
    Null,
    /// A value of any other kind.
    Other,
    /// The buffer ended before a value was complete; an empty buffer too.
    End,
    /// The bytes are not a value that the codec accepts.
    Malformed,
}

/// An [`AmfFront`] as contracts speak of it.
pub enum AmfFrontView {
    Number(u64),
    String(Seq<char>),
    Object,
    Null,
    Other,
    End,
    Malformed,
}

impl View for AmfFront {
    type V = AmfFrontView;

    open spec fn view(&self) -> AmfFrontView {
        match self {
            AmfFront::Number(bits) => AmfFrontView::Number(*bits),
            AmfFront::String(text) => AmfFrontView::String(text@),
            AmfFront::Object => AmfFrontView::Object,
            AmfFront::Null => AmfFrontView::Null,
            AmfFront::Other => AmfFrontView::Other,
            AmfFront::End => AmfFrontView::End,
            AmfFront::Malformed => AmfFrontView::Malformed,
        }
    }
}

/// Whether a value that holds other values can begin with `byte`: the
/// markers of objects, arrays, typed objects and AVM+ values in AMF0, and
/// of arrays, objects, object vectors and dictionaries in AMF3.
pub open spec fn opens_nested(byte: u8) -> bool {
    byte == 0x03 || byte == 0x08 || byte == 0x09 || byte == 0x0A || byte == 0x10 || byte == 0x11
}

/// How many bytes of `bytes` can open a nested value.
pub open spec fn openers(bytes: Seq<u8>) -> nat
    decreases bytes.len(),
{
    if bytes.len() == 0 {
        0
    } else if opens_nested(bytes.last()) {
        openers(bytes.drop_last()) + 1
    } else {
        openers(bytes.drop_last())
    }
}

/// The openers of two buffers end to end are those of both.
pub proof fn lemma_openers_add(a: Seq<u8>, b: Seq<u8>)
    ensures
        openers(a + b) == openers(a) + openers(b),
    decreases b.len(),
{
    if b.len() == 0 {
        assert(a + b =~= a);
    } else {
        lemma_openers_add(a, b.drop_last());
        assert((a + b).drop_last() =~= a + b.drop_last());
    }
}

/// What is left of a buffer holds no more openers than the buffer.
pub proof fn lemma_openers_skip(bytes: Seq<u8>, n: int)
    requires
        0 <= n <= bytes.len(),
    ensures
        openers(bytes.skip(n)) <= openers(bytes),
{
    lemma_openers_add(bytes.subrange(0, n), bytes.skip(n));
    assert(bytes.subrange(0, n) + bytes.skip(n) =~= bytes);
}

/// What the codec makes of the front of `bytes`, and how many bytes it
/// read to find out.
pub uninterp spec fn amf_front(bytes: Seq<u8>) -> (AmfFrontView, nat);

/// `amf::amf0::Decoder::decode` on a cursor over `bytes`, and then the
/// cursor's position. The decoder reads from nothing but the cursor, so the
/// outcome is a function of `bytes`; the contract gives that function a
/// name and claims nothing else of it. Any I/O error of the decoder is
/// given as `End`: a cursor over a slice fails only by running out.
///
/// The decoder calls itself once for each level of nesting, without a
/// limit of its own, and so do the copy and the release of the value it
/// builds. It goes a level deeper only behind a marker byte that
/// `opens_nested` holds of, and a value that stands for an earlier one
/// is no deeper than that one; so the buffers that `requires` admits
/// keep it within `MAX_NESTING` levels. The decoder also allocates what a
/// length field announces before it reads that much.
#[verifier::external_body]
fn decode_front(bytes: &[u8]) -> (r: (AmfFront, usize))
    requires
        openers(bytes@) <= MAX_NESTING,
    ensures
        (r.0@, r.1 as nat) == amf_front(bytes@),
{
    let mut cursor = Cursor::new(bytes);
    let front = match Decoder::new(&mut cursor).decode() {
        Ok(Value::Number(number)) => AmfFront::Number(number.to_bits()),
        Ok(Value::String(text)) => AmfFront::String(text),
        Ok(Value::Object { .. }) => AmfFront::Object,
        Ok(Value::Null) => AmfFront::Null,
        Ok(_) => AmfFront::Other,
        Err(DecodeError::Io(_)) => AmfFront::End,
        Err(_) => AmfFront::Malformed,
    };
    (front, cursor.position() as usize)
}

/// The AMF0 encoding of a string: the marker of a short string and two
/// bytes of length where the UTF-8 form has at most 65535 bytes, else the
/// marker of a long string and four bytes of length; then the UTF-8 form.
pub open spec fn string_encoding(text: Seq<char>) -> Seq<u8>
    recommends
        encode_utf8(text).len() <= MAX_STRING_LEN,
{
    if encode_utf8(text).len() <= 0xFFFF {
        seq![MARKER_STRING] + u16_be_bytes(encode_utf8(text).len() as u16) + encode_utf8(text)
    } else {
        seq![MARKER_LONG_STRING] + u32_be_bytes(encode_utf8(text).len() as u32) + encode_utf8(
            text,
        )
    }
}

/// The AMF0 encoding of the number with the given bits: the marker of a
/// number, then the eight bytes of the double, most significant first.
pub open spec fn number_encoding(bits: u64) -> Seq<u8> {
    seq![MARKER_NUMBER] + u64_be_bytes(bits)
}

/// `amf::amf0::Value::write_to` on a string value, into an empty vector,
/// which never fails. The encoder panics on a string of more than
/// 4294967295 bytes.
#[verifier::external_body]
fn encode_string(text: &str) -> (r: Vec<u8>)
    requires
        text.spec_bytes().len() <= MAX_STRING_LEN,
    ensures
        r@ == string_encoding(text@),
{
    let mut buffer = Vec::new();
    let _ = Value::String(text.to_string()).write_to(&mut buffer);
    buffer
}

/// One AMF0 value, held as the bytes that encode it.
#[derive(Clone, Debug, PartialEq, Eq)]
pub struct AmfValue {
    pub bytes: Vec<u8>,
}

impl View for AmfValue {
    type V = Seq<u8>;

    open spec fn view(&self) -> Seq<u8> {
        self.bytes@
    }
}

/// The encodings of a sequence of values, one by one.
pub open spec fn encodings(values: Seq<AmfValue>) -> Seq<Seq<u8>> {
    Seq::new(values.len(), |i: int| values[i]@)
}

/// The encodings of a sequence of values, end to end.
pub open spec fn concatenation(values: Seq<Seq<u8>>) -> Seq<u8>
    decreases values.len(),
{
    if values.len() == 0 {
        Seq::empty()
    } else {
        concatenation(values.drop_last()) + values.last()
    }
}

/// What the codec finds at the front of `bytes`, where a value that is said
/// to be empty or to reach beyond `bytes` counts as malformed.
pub open spec fn vetted(front: AmfFrontView, len: nat, available: nat) -> AmfFrontView {
    match front {
        AmfFrontView::End => front,
        AmfFrontView::Malformed => front,
        _ => if 1 <= len <= available {
            front
        } else {
            AmfFrontView::Malformed
        },
    }
}

/// The first value of `bytes`: what it is, and how long its encoding is.
/// A buffer with more than `MAX_NESTING` bytes that can open a nested
/// value is not shown to the codec, and counts as malformed.
pub open spec fn front(bytes: Seq<u8>) -> (AmfFrontView, nat) {
    if openers(bytes) > MAX_NESTING {
        (AmfFrontView::Malformed, 0)
    } else {
        (vetted(amf_front(bytes).0, amf_front(bytes).1, bytes.len()), amf_front(bytes).1)
    }
}

/// The values that `bytes` is made of, each as its encoding. The sequence
/// ends where the codec finds the buffer at its end.
pub open spec fn values(bytes: Seq<u8>) -> Result<Seq<Seq<u8>>, Error>
    decreases bytes.len(),
{
    match front(bytes) {
        (AmfFrontView::End, _) => Ok(Seq::empty()),
        (AmfFrontView::Malformed, _) => Err(Error::AmfDecodeError(AmfError::Malformed)),
        (_, len) => if 1 <= len <= bytes.len() {
            match values(bytes.skip(len as int)) {
                Ok(rest) => Ok(seq![bytes.subrange(0, len as int)] + rest),
                Err(e) => Err(e),
            }
        } else {
            Err(Error::AmfDecodeError(AmfError::Malformed))
        },
    }
}

impl AmfValue {
    /// Holds the codec's answer against the buffer it was given.
    pub fn vet(front: AmfFront, len: usize, available: usize) -> (r: AmfFront)
        ensures
            r@ == vetted(front@, len as nat, available as nat),
    {
        match front {
            AmfFront::End => AmfFront::End,
            AmfFront::Malformed => AmfFront::Malformed,
            other => if 1 <= len && len <= available {
                other
            } else {
                AmfFront::Malformed
            },
        }
    }

    /// Counts the bytes of `bytes` that can open a nested value.
    pub fn count_openers(bytes: &[u8]) -> (n: usize)
        ensures
            n == openers(bytes@),
    {
        let mut n: usize = 0;
        let mut i: usize = 0;
        while i < bytes.len()
            invariant
                i <= bytes@.len(),
                n <= i,
                n == openers(bytes@.subrange(0, i as int)),
            decreases bytes@.len() - i,
        {
            let byte = bytes[i];
            assert(bytes@.subrange(0, i + 1).drop_last() =~= bytes@.subrange(0, i as int));
            if byte == 0x03 || byte == 0x08 || byte == 0x09 || byte == 0x0A || byte == 0x10 || byte
                == 0x11 {
                n += 1;
            }
            i += 1;
        }
        assert(bytes@.subrange(0, i as int) =~= bytes@);
        n
    }

    /// Asks the codec for the first value of a buffer that is within the
    /// limit of nesting.
    fn front_within(bytes: &[u8]) -> (r: (AmfFront, usize))
        requires
            openers(bytes@) <= MAX_NESTING,
        ensures
            (r.0@, r.1 as nat) == front(bytes@),
            !(r.0 is End) && !(r.0 is Malformed) ==> 1 <= r.1 <= bytes@.len(),
    {
        let (found, len) = decode_front(bytes);
        (Self::vet(found, len, bytes.len()), len)
    }

    /// Asks the codec for the first value of `bytes`, where `bytes` is
    /// within the limit of nesting; beyond it the answer is `Malformed`.
    pub fn front(bytes: &[u8]) -> (r: (AmfFront, usize))
        ensures
            (r.0@, r.1 as nat) == front(bytes@),
            !(r.0 is End) && !(r.0 is Malformed) ==> 1 <= r.1 <= bytes@.len(),
            openers(bytes@) > MAX_NESTING ==> r.0 is Malformed,
    {
        if Self::count_openers(bytes) > MAX_NESTING {
            (AmfFront::Malformed, 0)
        } else {
            Self::front_within(bytes)
        }
    }

    /// The encoding of a string, or `None` where the string is too long to
    /// have one.
    pub fn string(text: &str) -> (r: Option<AmfValue>)
        ensures
            match r {
                Some(value) => encode_utf8(text@).len() <= MAX_STRING_LEN && value@
                    == string_encoding(text@),
                None => encode_utf8(text@).len() > MAX_STRING_LEN,
            },
    {
        if text.as_bytes().len() > MAX_STRING_LEN {
            None
        } else {
            Some(AmfValue { bytes: encode_string(text) })
        }
    }

    /// The encoding of the number whose double has the given bits.
    pub fn number(bits: u64) -> (r: AmfValue)
        ensures
            r@ == number_encoding(bits),
    {
        let mut bytes: Vec<u8> = Vec::new();
        bytes.push(MARKER_NUMBER);
        write_u64_be(&mut bytes, bits);
        AmfValue { bytes }
    }

    /// Splits `bytes` into the values it is made of. The bytes that can
    /// open a nested value are counted once, for the whole of `bytes`.
    pub fn read_all(bytes: &[u8]) -> (r: Result<Vec<AmfValue>, Error>)
        ensures
            match values(bytes@) {
                Ok(found) => r matches Ok(v) && encodings(v@) == found,
                Err(e) => r matches Err(x) && x == e,
            },
    {
        let mut found: Vec<AmfValue> = Vec::new();
        let mut rest = bytes;
        if Self::count_openers(bytes) > MAX_NESTING {
            return Err(Error::AmfDecodeError(AmfError::Malformed));
        }
        loop
            invariant
                openers(rest@) <= MAX_NESTING,
                match values(rest@) {
                    Ok(more) => values(bytes@) == Ok::<Seq<Seq<u8>>, Error>(encodings(found@) + more),
                    Err(e) => values(bytes@) == Err::<Seq<Seq<u8>>, Error>(e),
                },
            decreases rest@.len(),
        {
            let (first, len) = Self::front_within(rest);
            match first {
                AmfFront::End => {
                    assert(encodings(found@) + Seq::<Seq<u8>>::empty() =~= encodings(found@));
                    return Ok(found);
                },
                AmfFront::Malformed => {
                    return Err(Error::AmfDecodeError(AmfError::Malformed));
                },
                _ => {
                    let ghost before = encodings(found@);
                    let ghost whole = rest@;
                    found.push(AmfValue { bytes: slice_to_vec(slice_subrange(rest, 0, len)) });
                    rest = slice_subrange(rest, len, rest.len());
                    proof {
                        lemma_openers_skip(whole, len as int);
                        assert(rest@ =~= whole.skip(len as int));
                        assert(encodings(found@) =~= before.push(whole.subrange(0, len as int)));
                        if let Ok(more) = values(rest@) {
                            assert(encodings(found@) + more =~= before + (seq![
                                whole.subrange(0, len as int),
                            ] + more));
                        }
                    }
                },
            }
        }
    }
}

} // verus!
