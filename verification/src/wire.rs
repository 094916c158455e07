//! Fixed-width integers on the wire, as bincode writes and reads them with a
//! fixed-int configuration: the network protocol uses big-endian order, the
//! vhci driver's control interface little-endian order.
use vstd::prelude::*;

verus! {

#[verifier::external_type_specification]
#[verifier::external_body]
pub struct ExEncodeError(bincode::error::EncodeError);

#[verifier::external_type_specification]
#[verifier::external_body]
pub struct ExDecodeError(bincode::error::DecodeError);

/// Big-endian bytes of a `u16`.
pub open spec fn be16(v: u16) -> Seq<u8> {
    seq![(v / 0x100) as u8, (v % 0x100) as u8]
}

/// Big-endian bytes of a `u32`.
pub open spec fn be32(v: u32) -> Seq<u8> {
    seq![(v / 0x1000000) as u8, ((v / 0x10000) % 0x100) as u8, ((v / 0x100) % 0x100) as u8, (v % 0x100) as u8]
}

/// Little-endian bytes of a `u16`.
pub open spec fn le16(v: u16) -> Seq<u8> {
    seq![(v % 0x100) as u8, (v / 0x100) as u8]
}

/// Little-endian bytes of a `u32`.
pub open spec fn le32(v: u32) -> Seq<u8> {
    seq![(v % 0x100) as u8, ((v / 0x100) % 0x100) as u8, ((v / 0x10000) % 0x100) as u8, (v / 0x1000000) as u8]
}

/// The `u16` whose big-endian bytes begin `b`.
pub open spec fn from_be16(b: Seq<u8>) -> u16 {
    (b[0] * 0x100 + b[1]) as u16
}

/// The `u32` whose big-endian bytes begin `b`.
pub open spec fn from_be32(b: Seq<u8>) -> u32 {
    (b[0] * 0x1000000 + b[1] * 0x10000 + b[2] * 0x100 + b[3]) as u32
}

/// The `u16` whose little-endian bytes begin `b`.
pub open spec fn from_le16(b: Seq<u8>) -> u16 {
    (b[1] * 0x100 + b[0]) as u16
}

/// The `u32` whose little-endian bytes begin `b`.
pub open spec fn from_le32(b: Seq<u8>) -> u32 {
    (b[3] * 0x1000000 + b[2] * 0x10000 + b[1] * 0x100 + b[0]) as u32
}

/// Reading back the bytes that were written gives the value that was written.
pub proof fn lemma_be16_roundtrip(v: u16)
    ensures
        from_be16(be16(v)) == v,
{
}

pub proof fn lemma_be32_roundtrip(v: u32)
    ensures
        from_be32(be32(v)) == v,
{
}

pub proof fn lemma_le16_roundtrip(v: u16)
    ensures
        from_le16(le16(v)) == v,
{
}

pub proof fn lemma_le32_roundtrip(v: u32)
    ensures
        from_le32(le32(v)) == v,
{
}

proof fn lemma_four_bytes(a: u32, b: u32, c: u32, d: u32)
    requires
        a < 0x100,
        b < 0x100,
        c < 0x100,
        d < 0x100,
    ensures
        (d * 0x1000000 + c * 0x10000 + b * 0x100 + a) % 0x100 == a,
        ((d * 0x1000000 + c * 0x10000 + b * 0x100 + a) / 0x100) % 0x100 == b,
        ((d * 0x1000000 + c * 0x10000 + b * 0x100 + a) / 0x10000) % 0x100 == c,
        (d * 0x1000000 + c * 0x10000 + b * 0x100 + a) / 0x1000000 == d,
        d * 0x1000000 + c * 0x10000 + b * 0x100 + a <= 0xffffffff,
{
    assert((d * 0x1000000 + c * 0x10000 + b * 0x100 + a) % 0x100 == a) by (bit_vector)
        requires
            a < 0x100,
            b < 0x100,
            c < 0x100,
            d < 0x100,
    ;
    assert(((d * 0x1000000 + c * 0x10000 + b * 0x100 + a) / 0x100) % 0x100 == b) by (bit_vector)
        requires
            a < 0x100,
            b < 0x100,
            c < 0x100,
            d < 0x100,
    ;
    assert(((d * 0x1000000 + c * 0x10000 + b * 0x100 + a) / 0x10000) % 0x100 == c) by (bit_vector)
        requires
            a < 0x100,
            b < 0x100,
            c < 0x100,
            d < 0x100,
    ;
    assert((d * 0x1000000 + c * 0x10000 + b * 0x100 + a) / 0x1000000 == d) by (bit_vector)
        requires
            a < 0x100,
            b < 0x100,
            c < 0x100,
            d < 0x100,
    ;
}

/// Writing the value that was read gives back the bytes it was read from.
pub proof fn lemma_be16_bytes(b: Seq<u8>)
    requires
        b.len() >= 2,
    ensures
        be16(from_be16(b)) == b.subrange(0, 2),
{
    assert(be16(from_be16(b)) =~= b.subrange(0, 2));
}

pub proof fn lemma_be32_bytes(b: Seq<u8>)
    requires
        b.len() >= 4,
    ensures
        be32(from_be32(b)) == b.subrange(0, 4),
{
    lemma_four_bytes(b[3] as u32, b[2] as u32, b[1] as u32, b[0] as u32);
    assert(be32(from_be32(b)) =~= b.subrange(0, 4));
}

pub proof fn lemma_le16_bytes(b: Seq<u8>)
    requires
        b.len() >= 2,
    ensures
        le16(from_le16(b)) == b.subrange(0, 2),
{
    assert(le16(from_le16(b)) =~= b.subrange(0, 2));
}

pub proof fn lemma_le32_bytes(b: Seq<u8>)
    requires
        b.len() >= 4,
    ensures
        le32(from_le32(b)) == b.subrange(0, 4),
{
    lemma_four_bytes(b[0] as u32, b[1] as u32, b[2] as u32, b[3] as u32);
    assert(le32(from_le32(b)) =~= b.subrange(0, 4));
}

/// `bincode::encode_to_vec` of a `u16`, fixed-width and big-endian: the two
/// bytes of `u16::to_be_bytes`; writing into a `Vec` cannot fail.
#[verifier::external_body]
fn bincode_encode_u16_be(v: u16) -> (r: Result<Vec<u8>, bincode::error::EncodeError>)
    ensures
        r is Ok,
        r matches Ok(b) ==> b@ == be16(v),
{
    bincode::encode_to_vec(
        v,
        bincode::config::standard().with_no_limit().with_big_endian().with_fixed_int_encoding(),
    )
}

/// `bincode::encode_to_vec` of a `u32`, fixed-width and big-endian: the four
/// bytes of `u32::to_be_bytes`; writing into a `Vec` cannot fail.
#[verifier::external_body]
fn bincode_encode_u32_be(v: u32) -> (r: Result<Vec<u8>, bincode::error::EncodeError>)
    ensures
        r is Ok,
        r matches Ok(b) ==> b@ == be32(v),
{
    bincode::encode_to_vec(
        v,
        bincode::config::standard().with_no_limit().with_big_endian().with_fixed_int_encoding(),
    )
}

/// `bincode::encode_to_vec` of a `u16`, fixed-width and little-endian.
#[verifier::external_body]
fn bincode_encode_u16_le(v: u16) -> (r: Result<Vec<u8>, bincode::error::EncodeError>)
    ensures
        r is Ok,
        r matches Ok(b) ==> b@ == le16(v),
{
    bincode::encode_to_vec(
        v,
        bincode::config::standard().with_little_endian().with_fixed_int_encoding().with_no_limit(),
    )
}

/// `bincode::encode_to_vec` of a `u32`, fixed-width and little-endian.
#[verifier::external_body]
fn bincode_encode_u32_le(v: u32) -> (r: Result<Vec<u8>, bincode::error::EncodeError>)
    ensures
        r is Ok,
        r matches Ok(b) ==> b@ == le32(v),
{
    bincode::encode_to_vec(
        v,
        bincode::config::standard().with_little_endian().with_fixed_int_encoding().with_no_limit(),
    )
}

/// `bincode::encode_to_vec` of an `i32`, fixed-width and little-endian: the
/// bytes of `i32::to_le_bytes`, which are those of the same bits as a `u32`.
#[verifier::external_body]
fn bincode_encode_i32_le(v: i32) -> (r: Result<Vec<u8>, bincode::error::EncodeError>)
    ensures
        r is Ok,
        r matches Ok(b) ==> b@ == le32(v as u32),
{
    bincode::encode_to_vec(
        v,
        bincode::config::standard().with_little_endian().with_fixed_int_encoding().with_no_limit(),
    )
}

/// `bincode::encode_to_vec` of a byte array: its bytes, with no length in front.
#[verifier::external_body]
fn bincode_encode_bytes<const N: usize>(v: &[u8; N]) -> (r: Result<Vec<u8>, bincode::error::EncodeError>)
    ensures
        r is Ok,
        r matches Ok(b) ==> b@ == v@,
{
    bincode::encode_to_vec(
        v,
        bincode::config::standard().with_no_limit().with_big_endian().with_fixed_int_encoding(),
    )
}

/// `bincode::decode_from_slice` of a `u16`, fixed-width and big-endian: it
/// fails exactly when fewer than two bytes are left, and reads two.
#[verifier::external_body]
fn bincode_decode_u16_be(src: &[u8]) -> (r: Result<(u16, usize), bincode::error::DecodeError>)
    ensures
        r is Ok <==> src@.len() >= 2,
        r matches Ok((v, n)) ==> n == 2 && v == from_be16(src@),
{
    bincode::decode_from_slice(
        src,
        bincode::config::standard().with_no_limit().with_big_endian().with_fixed_int_encoding(),
    )
}

/// `bincode::decode_from_slice` of a `u32`, fixed-width and big-endian.
#[verifier::external_body]
fn bincode_decode_u32_be(src: &[u8]) -> (r: Result<(u32, usize), bincode::error::DecodeError>)
    ensures
        r is Ok <==> src@.len() >= 4,
        r matches Ok((v, n)) ==> n == 4 && v == from_be32(src@),
{
    bincode::decode_from_slice(
        src,
        bincode::config::standard().with_no_limit().with_big_endian().with_fixed_int_encoding(),
    )
}

/// `bincode::decode_from_slice` of a `u16`, fixed-width and little-endian.
#[verifier::external_body]
fn bincode_decode_u16_le(src: &[u8]) -> (r: Result<(u16, usize), bincode::error::DecodeError>)
    ensures
        r is Ok <==> src@.len() >= 2,
        r matches Ok((v, n)) ==> n == 2 && v == from_le16(src@),
{
    bincode::decode_from_slice(
        src,
        bincode::config::standard().with_little_endian().with_fixed_int_encoding().with_no_limit(),
    )
}

/// `bincode::decode_from_slice` of a `u32`, fixed-width and little-endian.
#[verifier::external_body]
fn bincode_decode_u32_le(src: &[u8]) -> (r: Result<(u32, usize), bincode::error::DecodeError>)
    ensures
        r is Ok <==> src@.len() >= 4,
        r matches Ok((v, n)) ==> n == 4 && v == from_le32(src@),
{
    bincode::decode_from_slice(
        src,
        bincode::config::standard().with_little_endian().with_fixed_int_encoding().with_no_limit(),
    )
}

/// `bincode::decode_from_slice` of an `i32`, fixed-width and little-endian.
#[verifier::external_body]
fn bincode_decode_i32_le(src: &[u8]) -> (r: Result<(i32, usize), bincode::error::DecodeError>)
    ensures
        r is Ok <==> src@.len() >= 4,
        r matches Ok((v, n)) ==> n == 4 && v == from_le32(src@) as i32,
{
    bincode::decode_from_slice(
        src,
        bincode::config::standard().with_little_endian().with_fixed_int_encoding().with_no_limit(),
    )
}

/// `bincode::decode_from_slice` of a byte array: the first `N` bytes, failing
/// exactly when fewer are left.
#[verifier::external_body]
fn bincode_decode_bytes<const N: usize>(src: &[u8]) -> (r: Result<([u8; N], usize), bincode::error::DecodeError>)
    ensures
        r is Ok <==> src@.len() >= N,
        r matches Ok((v, n)) ==> n == N && v@ == src@.subrange(0, N as int),
{
    bincode::decode_from_slice(
        src,
        bincode::config::standard().with_no_limit().with_big_endian().with_fixed_int_encoding(),
    )
}

/// Why a message could not be read.
#[derive(Debug, Clone, Copy, PartialEq, Eq, Structural)]
pub enum DecodeFailure {
    /// The input ended before the message did.
    UnexpectedEnd,
    /// A field held a value that names no variant of its type.
    UnexpectedVariant { found: u32 },
    /// A string field was not valid UTF-8.
    Utf8,
}

/// Why a message could not be written.
#[derive(Debug, Clone, Copy, PartialEq, Eq, Structural)]
pub enum EncodeFailure {
    /// A field did not fit in its fixed-size slot.
    UnexpectedEnd,
}

/// Appends the big-endian bytes of `v` to `out`.
pub fn put_u16_be(out: &mut Vec<u8>, v: u16)
    ensures
        final(out)@ == old(out)@ + be16(v),
{
    match bincode_encode_u16_be(v) {
        Ok(mut b) => out.append(&mut b),
        Err(_) => {},
    }
}

/// Appends the big-endian bytes of `v` to `out`.
pub fn put_u32_be(out: &mut Vec<u8>, v: u32)
    ensures
        final(out)@ == old(out)@ + be32(v),
{
    match bincode_encode_u32_be(v) {
        Ok(mut b) => out.append(&mut b),
        Err(_) => {},
    }
}

/// Appends the little-endian bytes of `v` to `out`.
pub fn put_u16_le(out: &mut Vec<u8>, v: u16)
    ensures
        final(out)@ == old(out)@ + le16(v),
{
    match bincode_encode_u16_le(v) {
        Ok(mut b) => out.append(&mut b),
        Err(_) => {},
    }
}

/// Appends the little-endian bytes of `v` to `out`.
pub fn put_u32_le(out: &mut Vec<u8>, v: u32)
    ensures
        final(out)@ == old(out)@ + le32(v),
{
    match bincode_encode_u32_le(v) {
        Ok(mut b) => out.append(&mut b),
        Err(_) => {},
    }
}

/// Appends the little-endian bytes of `v` to `out`.
pub fn put_i32_le(out: &mut Vec<u8>, v: i32)
    ensures
        final(out)@ == old(out)@ + le32(v as u32),
{
    match bincode_encode_i32_le(v) {
        Ok(mut b) => out.append(&mut b),
        Err(_) => {},
    }
}

/// Appends the bytes of `v` to `out`.
pub fn put_bytes<const N: usize>(out: &mut Vec<u8>, v: &[u8; N])
    ensures
        final(out)@ == old(out)@ + v@,
{
    match bincode_encode_bytes(v) {
        Ok(mut b) => out.append(&mut b),
        Err(_) => {},
    }
}

/// Reads a big-endian `u16` at `pos`.
pub fn get_u16_be(src: &[u8], pos: usize) -> (r: Result<u16, DecodeFailure>)
    requires
        pos <= src@.len(),
    ensures
        r is Ok <==> pos + 2 <= src@.len(),
        r matches Ok(v) ==> v == from_be16(src@.subrange(pos as int, src@.len() as int)),
        r matches Err(e) ==> e == DecodeFailure::UnexpectedEnd,
{
    match bincode_decode_u16_be(&src[pos..src.len()]) {
        Ok((v, _)) => Ok(v),
        Err(_) => Err(DecodeFailure::UnexpectedEnd),
    }
}

/// Reads a big-endian `u32` at `pos`.
pub fn get_u32_be(src: &[u8], pos: usize) -> (r: Result<u32, DecodeFailure>)
    requires
        pos <= src@.len(),
    ensures
        r is Ok <==> pos + 4 <= src@.len(),
        r matches Ok(v) ==> v == from_be32(src@.subrange(pos as int, src@.len() as int)),
        r matches Err(e) ==> e == DecodeFailure::UnexpectedEnd,
{
    match bincode_decode_u32_be(&src[pos..src.len()]) {
        Ok((v, _)) => Ok(v),
        Err(_) => Err(DecodeFailure::UnexpectedEnd),
    }
}

/// Reads a little-endian `u16` at `pos`.
pub fn get_u16_le(src: &[u8], pos: usize) -> (r: Result<u16, DecodeFailure>)
    requires
        pos <= src@.len(),
    ensures
        r is Ok <==> pos + 2 <= src@.len(),
        r matches Ok(v) ==> v == from_le16(src@.subrange(pos as int, src@.len() as int)),
        r matches Err(e) ==> e == DecodeFailure::UnexpectedEnd,
{
    match bincode_decode_u16_le(&src[pos..src.len()]) {
        Ok((v, _)) => Ok(v),
        Err(_) => Err(DecodeFailure::UnexpectedEnd),
    }
}

/// Reads a little-endian `u32` at `pos`.
pub fn get_u32_le(src: &[u8], pos: usize) -> (r: Result<u32, DecodeFailure>)
    requires
        pos <= src@.len(),
    ensures
        r is Ok <==> pos + 4 <= src@.len(),
        r matches Ok(v) ==> v == from_le32(src@.subrange(pos as int, src@.len() as int)),
        r matches Err(e) ==> e == DecodeFailure::UnexpectedEnd,
{
    match bincode_decode_u32_le(&src[pos..src.len()]) {
        Ok((v, _)) => Ok(v),
        Err(_) => Err(DecodeFailure::UnexpectedEnd),
    }
}

/// Reads a little-endian `i32` at `pos`.
pub fn get_i32_le(src: &[u8], pos: usize) -> (r: Result<i32, DecodeFailure>)
    requires
        pos <= src@.len(),
    ensures
        r is Ok <==> pos + 4 <= src@.len(),
        r matches Ok(v) ==> v == from_le32(src@.subrange(pos as int, src@.len() as int)) as i32,
        r matches Err(e) ==> e == DecodeFailure::UnexpectedEnd,
{
    match bincode_decode_i32_le(&src[pos..src.len()]) {
        Ok((v, _)) => Ok(v),
        Err(_) => Err(DecodeFailure::UnexpectedEnd),
    }
}

/// Reads `N` bytes at `pos`.
pub fn get_bytes<const N: usize>(src: &[u8], pos: usize) -> (r: Result<[u8; N], DecodeFailure>)
    requires
        pos <= src@.len(),
    ensures
        r is Ok <==> pos + N <= src@.len(),
        r matches Ok(v) ==> v@ == src@.subrange(pos as int, pos + N),
        r matches Err(e) ==> e == DecodeFailure::UnexpectedEnd,
{
    match bincode_decode_bytes::<N>(&src[pos..src.len()]) {
        Ok((v, _)) => Ok(v),
        Err(_) => Err(DecodeFailure::UnexpectedEnd),
    }
}

} // verus!
