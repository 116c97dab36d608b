use vstd::prelude::*;

use crate::crypto::string_from_utf8;
use crate::error::{Error, ErrorView};
use vstd::utf8::{decode_utf8, valid_utf8};

verus! {

/// Block size of the cipher; every field is padded to a multiple of it.
pub const BLOCK_SIZE: usize = 16;

/// The little-endian 32-bit integer stored at `b[i..i + 4]`.
pub open spec fn le_u32_at(b: Seq<u8>, i: int) -> int {
    b[i] + 256 * b[i + 1] + 65536 * b[i + 2] + 16777216 * b[i + 3]
}

/// Size on the wire of a field holding `len` data bytes: the four length
/// bytes, the type byte and the data, rounded up to a whole cipher block.
pub open spec fn padded_size(len: int) -> int {
    let raw = 5 + len;
    if raw % 16 == 0 {
        raw
    } else {
        raw + (16 - raw % 16)
    }
}

/// A field decoded from the start of `b`: its type, its data and the number of
/// bytes it takes, or `None` where its declared size exceeds `b`.
pub open spec fn parse_field(b: Seq<u8>) -> Option<(u8, Seq<u8>, int)> {
    if b.len() < 5 {
        None
    } else {
        let size = le_u32_at(b, 0);
        let total = padded_size(size);
        if total > b.len() {
            None
        } else {
            Some((b[4], b.subrange(5, 5 + size), total))
        }
    }
}

/// The four little-endian bytes of `n`.
pub open spec fn u32_le_bytes(n: int) -> Seq<u8> {
    seq![
        (n % 256) as u8,
        (n / 256 % 256) as u8,
        (n / 256 / 256 % 256) as u8,
        (n / 256 / 256 / 256 % 256) as u8,
    ]
}

/// The framing and data of a field of type `t` holding `d`, before its padding.
pub open spec fn encode_field(t: u8, d: Seq<u8>) -> Seq<u8> {
    u32_le_bytes(d.len() as int) + seq![t] + d
}

/// Parsing undoes encoding: a field written as its length, type, data and
/// padding to a whole block, followed by anything, is read back with the same
/// type and data, and takes exactly the bytes that were written for it.
pub proof fn lemma_field_round_trip(t: u8, d: Seq<u8>, pad: Seq<u8>, rest: Seq<u8>)
    requires
        d.len() <= u32::MAX,
        5 + d.len() + pad.len() == padded_size(d.len() as int),
    ensures
        parse_field(encode_field(t, d) + pad + rest) == Some((t, d, padded_size(d.len() as int))),
{
    let n = d.len() as int;
    let b = encode_field(t, d) + pad + rest;
    let e = u32_le_bytes(n);
    assert(b[0] == e[0] && b[1] == e[1] && b[2] == e[2] && b[3] == e[3]);
    assert(le_u32_at(b, 0) == n);
    assert(b[4] == t);
    assert(b.subrange(5, 5 + n) =~= d);
}

/// Reads the little-endian `u32` at `b[at..at + 4]`.
pub fn read_u32_le(b: &[u8], at: usize) -> (r: u32)
    requires
        at + 4 <= b@.len(),
    ensures
        r as int == le_u32_at(b@, at as int),
{
    let b0 = b[at] as u32;
    let b1 = b[at + 1] as u32;
    let b2 = b[at + 2] as u32;
    let b3 = b[at + 3] as u32;
    b0 + b1 * 256 + b2 * 65536 + b3 * 16777216
}

/// Copies a slice into an array of the same length.
pub fn copy_into_array<const N: usize>(slice: &[u8]) -> (r: [u8; N])
    requires
        slice@.len() == N,
    ensures
        r@ == slice@,
{
    let mut a = [0u8; N];
    let mut i: usize = 0;
    while i < N
        invariant
            slice@.len() == N,
            i <= N,
            forall|k: int| 0 <= k < i ==> a@[k] == slice@[k],
        decreases N - i,
    {
        a[i] = slice[i];
        i = i + 1;
    }
    assert(a@ =~= slice@);
    a
}

/// One length–type–value field of the decrypted stream.
pub struct Field {
    /// Bytes the field takes, a multiple of the block size.
    pub total_size: usize,
    pub type_id: u8,
    pub data: Vec<u8>,
}

impl Field {
    /// Parses the field at the start of `bytes`.
    pub fn new(bytes: &[u8]) -> (r: Result<Field, Error>)
        ensures
            match parse_field(bytes@) {
                None => r is Err && r->Err_0@ == ErrorView::TruncatedField,
                Some((t, d, n)) => r is Ok && r->Ok_0.type_id == t && r->Ok_0.data@ == d
                    && r->Ok_0.total_size == n,
            },
    {
        if bytes.len() < 5 {
            return Err(Error::TruncatedField);
        }
        let size = read_u32_le(bytes, 0);
        let raw: u64 = 5 + size as u64;
        let rem: u64 = raw % (BLOCK_SIZE as u64);
        let total: u64 = if rem == 0 { raw } else { raw + (BLOCK_SIZE as u64 - rem) };
        if total > bytes.len() as u64 {
            return Err(Error::TruncatedField);
        }
        let size = size as usize;
        let data = vstd::slice::slice_to_vec(&bytes[5..5 + size]);
        Ok(Field { total_size: total as usize, type_id: bytes[4], data })
    }
}

/// The text held by the data `d` of a field of type `t`.
pub open spec fn text_of(d: Seq<u8>, t: u8) -> Result<Seq<char>, ErrorView> {
    if valid_utf8(d) {
        Ok(decode_utf8(d))
    } else {
        Err(ErrorView::InvalidUtf8(t))
    }
}

/// The timestamp, in seconds since the Unix epoch, held by the data `d` of a
/// field of type `t`.
pub open spec fn date_of(d: Seq<u8>, t: u8) -> Result<u32, ErrorView> {
    if d.len() == 4 {
        Ok(le_u32_at(d, 0) as u32)
    } else {
        Err(ErrorView::BadFieldLength(t))
    }
}

/// Decodes the UTF-8 data of a text field of type `t`.
pub fn decode_text(data: &[u8], t: u8) -> (r: Result<String, Error>)
    ensures
        match text_of(data@, t) {
            Ok(s) => r is Ok && r->Ok_0@ == s,
            Err(e) => r is Err && r->Err_0@ == e,
        },
{
    match string_from_utf8(vstd::slice::slice_to_vec(data)) {
        Some(s) => Ok(s),
        None => Err(Error::InvalidUtf8(t)),
    }
}

/// Decodes the little-endian seconds since the Unix epoch of a timestamp
/// field of type `t`.
pub fn pwsafe_date(data: &[u8], t: u8) -> (r: Result<u32, Error>)
    ensures
        match date_of(data@, t) {
            Ok(s) => r == Ok::<u32, Error>(s),
            Err(e) => r is Err && r->Err_0@ == e,
        },
{
    if data.len() != 4 {
        return Err(Error::BadFieldLength(t));
    }
    Ok(read_u32_le(data, 0))
}

} // verus!
