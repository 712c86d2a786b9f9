//! Trusted interface to the octet streams that carry wire commands, with the
//! big-endian byte order the streams use.

use vstd::prelude::*;

use flood_rs::prelude::{InOctetStream, OutOctetStream};

verus! {

use crate::protocol::StreamError;

#[verifier::external_type_specification]
#[verifier::external_body]
pub struct ExOutOctetStream(OutOctetStream);

#[verifier::external_type_specification]
#[verifier::external_body]
pub struct ExInOctetStream(InOctetStream);

/// The octets written to an output stream so far, in order.
pub uninterp spec fn out_octets(s: OutOctetStream) -> Seq<u8>;

/// The octets of an input stream that have not been read yet, in order.
pub uninterp spec fn in_octets(s: InOctetStream) -> Seq<u8>;

/// A `u16` as two big-endian octets.
pub open spec fn be16(v: u16) -> Seq<u8> {
    seq![(v >> 8u16) as u8, v as u8]
}

/// A `u32` as four big-endian octets.
pub open spec fn be32(v: u32) -> Seq<u8> {
    seq![(v >> 24u32) as u8, (v >> 16u32) as u8, (v >> 8u32) as u8, v as u8]
}

/// A `u64` as eight big-endian octets.
pub open spec fn be64(v: u64) -> Seq<u8> {
    seq![
        (v >> 56u64) as u8,
        (v >> 48u64) as u8,
        (v >> 40u64) as u8,
        (v >> 32u64) as u8,
        (v >> 24u64) as u8,
        (v >> 16u64) as u8,
        (v >> 8u64) as u8,
        v as u8,
    ]
}

/// The `u16` two big-endian octets stand for.
pub open spec fn u16_from_be(b0: u8, b1: u8) -> u16 {
    ((b0 as u16) << 8u16) | (b1 as u16)
}

/// The `u32` four big-endian octets stand for.
pub open spec fn u32_from_be(b0: u8, b1: u8, b2: u8, b3: u8) -> u32 {
    ((b0 as u32) << 24u32) | ((b1 as u32) << 16u32) | ((b2 as u32) << 8u32) | (b3 as u32)
}

/// The `u64` eight big-endian octets stand for.
pub open spec fn u64_from_be(
    b0: u8,
    b1: u8,
    b2: u8,
    b3: u8,
    b4: u8,
    b5: u8,
    b6: u8,
    b7: u8,
) -> u64 {
    ((b0 as u64) << 56u64) | ((b1 as u64) << 48u64) | ((b2 as u64) << 40u64) | ((b3 as u64)
        << 32u64) | ((b4 as u64) << 24u64) | ((b5 as u64) << 16u64) | ((b6 as u64) << 8u64) | (
    b7 as u64)
}

/// Reading back the two octets of `be16` gives the value itself.
pub proof fn lemma_u16_be_round(v: u16)
    ensures
        u16_from_be(be16(v)[0], be16(v)[1]) == v,
{
    assert((((((v >> 8u16) as u8) as u16) << 8u16) | ((v as u8) as u16)) == v) by (bit_vector);
}

/// Reading back the four octets of `be32` gives the value itself.
pub proof fn lemma_u32_be_round(v: u32)
    ensures
        u32_from_be(be32(v)[0], be32(v)[1], be32(v)[2], be32(v)[3]) == v,
{
    assert(((((v >> 24u32) as u8) as u32) << 24u32) | ((((v >> 16u32) as u8) as u32) << 16u32) | ((((v
        >> 8u32) as u8) as u32) << 8u32) | (((v as u8) as u32)) == v) by (bit_vector);
}

/// Reading back the eight octets of `be64` gives the value itself.
pub proof fn lemma_u64_be_round(v: u64)
    ensures
        u64_from_be(
            be64(v)[0],
            be64(v)[1],
            be64(v)[2],
            be64(v)[3],
            be64(v)[4],
            be64(v)[5],
            be64(v)[6],
            be64(v)[7],
        ) == v,
{
    assert(((((v >> 56u64) as u8) as u64) << 56u64) | ((((v >> 48u64) as u8) as u64) << 48u64) | ((((
    v >> 40u64) as u8) as u64) << 40u64) | ((((v >> 32u64) as u8) as u64) << 32u64) | ((((v
        >> 24u64) as u8) as u64) << 24u64) | ((((v >> 16u64) as u8) as u64) << 16u64) | ((((v
        >> 8u64) as u8) as u64) << 8u64) | (((v as u8) as u64)) == v) by (bit_vector);
}

/// Relies on flood_rs `OutOctetStream::write_u8`: appends the octet to the
/// Vec-backed stream; such a write never fails.
#[verifier::external_body]
pub(crate) fn write_u8(s: &mut OutOctetStream, v: u8)
    ensures
        out_octets(*final(s)) == out_octets(*old(s)).push(v),
{
    let _ = flood_rs::WriteOctetStream::write_u8(s, v);
}

/// Relies on flood_rs `OutOctetStream::write_u16`: appends the value as two
/// big-endian octets; such a write never fails.
#[verifier::external_body]
pub(crate) fn write_u16(s: &mut OutOctetStream, v: u16)
    ensures
        out_octets(*final(s)) == out_octets(*old(s)) + be16(v),
{
    let _ = flood_rs::WriteOctetStream::write_u16(s, v);
}

/// Relies on flood_rs `OutOctetStream::write_u32`: appends the value as four
/// big-endian octets; such a write never fails.
#[verifier::external_body]
pub(crate) fn write_u32(s: &mut OutOctetStream, v: u32)
    ensures
        out_octets(*final(s)) == out_octets(*old(s)) + be32(v),
{
    let _ = flood_rs::WriteOctetStream::write_u32(s, v);
}

/// Relies on flood_rs `OutOctetStream::write_u64`: appends the value as
/// eight big-endian octets; such a write never fails.
#[verifier::external_body]
pub(crate) fn write_u64(s: &mut OutOctetStream, v: u64)
    ensures
        out_octets(*final(s)) == out_octets(*old(s)) + be64(v),
{
    let _ = flood_rs::WriteOctetStream::write_u64(s, v);
}

/// Relies on flood_rs `OutOctetStream::write`: appends the slice unchanged;
/// such a write never fails.
#[verifier::external_body]
pub(crate) fn write_octets(s: &mut OutOctetStream, v: &[u8])
    ensures
        out_octets(*final(s)) == out_octets(*old(s)) + v@,
{
    let _ = flood_rs::WriteOctetStream::write(s, v);
}

/// Relies on flood_rs `InOctetStream::read_u8`: consumes one octet, or fails
/// past the end of the Cursor-backed stream; every failure is truncation.
#[verifier::external_body]
pub(crate) fn read_u8(s: &mut InOctetStream) -> (r: Result<u8, StreamError>)
    ensures
        match r {
            Ok(v) => {
                &&& in_octets(*old(s)).len() >= 1
                &&& v == in_octets(*old(s))[0]
                &&& in_octets(*final(s)) == in_octets(*old(s)).skip(1)
            },
            Err(e) => in_octets(*old(s)).len() < 1 && e == StreamError::Truncated,
        },
{
    flood_rs::ReadOctetStream::read_u8(s).map_err(|_| StreamError::Truncated)
}

/// Relies on flood_rs `InOctetStream::read_u16`: consumes two octets read
/// big-endian, or fails past the end; every failure is truncation.
#[verifier::external_body]
pub(crate) fn read_u16(s: &mut InOctetStream) -> (r: Result<u16, StreamError>)
    ensures
        match r {
            Ok(v) => {
                &&& in_octets(*old(s)).len() >= 2
                &&& v == u16_from_be(in_octets(*old(s))[0], in_octets(*old(s))[1])
                &&& in_octets(*final(s)) == in_octets(*old(s)).skip(2)
            },
            Err(e) => in_octets(*old(s)).len() < 2 && e == StreamError::Truncated,
        },
{
    flood_rs::ReadOctetStream::read_u16(s).map_err(|_| StreamError::Truncated)
}

/// Relies on flood_rs `InOctetStream::read_u32`: consumes four octets read
/// big-endian, or fails past the end; every failure is truncation.
#[verifier::external_body]
pub(crate) fn read_u32(s: &mut InOctetStream) -> (r: Result<u32, StreamError>)
    ensures
        match r {
            Ok(v) => {
                &&& in_octets(*old(s)).len() >= 4
                &&& v == u32_from_be(
                    in_octets(*old(s))[0],
                    in_octets(*old(s))[1],
                    in_octets(*old(s))[2],
                    in_octets(*old(s))[3],
                )
                &&& in_octets(*final(s)) == in_octets(*old(s)).skip(4)
            },
            Err(e) => in_octets(*old(s)).len() < 4 && e == StreamError::Truncated,
        },
{
    flood_rs::ReadOctetStream::read_u32(s).map_err(|_| StreamError::Truncated)
}

/// Relies on flood_rs `InOctetStream::read_u64`: consumes eight octets read
/// big-endian, or fails past the end; every failure is truncation.
#[verifier::external_body]
pub(crate) fn read_u64(s: &mut InOctetStream) -> (r: Result<u64, StreamError>)
    ensures
        match r {
            Ok(v) => {
                &&& in_octets(*old(s)).len() >= 8
                &&& v == u64_from_be(
                    in_octets(*old(s))[0],
                    in_octets(*old(s))[1],
                    in_octets(*old(s))[2],
                    in_octets(*old(s))[3],
                    in_octets(*old(s))[4],
                    in_octets(*old(s))[5],
                    in_octets(*old(s))[6],
                    in_octets(*old(s))[7],
                )
                &&& in_octets(*final(s)) == in_octets(*old(s)).skip(8)
            },
            Err(e) => in_octets(*old(s)).len() < 8 && e == StreamError::Truncated,
        },
{
    flood_rs::ReadOctetStream::read_u64(s).map_err(|_| StreamError::Truncated)
}

/// Relies on flood_rs `InOctetStream::read`: fills a buffer of `n` octets
/// from the stream, or fails past the end; every failure is truncation.
#[verifier::external_body]
pub(crate) fn read_octets(s: &mut InOctetStream, n: usize) -> (r: Result<Vec<u8>, StreamError>)
    ensures
        match r {
            Ok(v) => {
                &&& in_octets(*old(s)).len() >= n
                &&& v@ == in_octets(*old(s)).take(n as int)
                &&& in_octets(*final(s)) == in_octets(*old(s)).skip(n as int)
            },
            Err(e) => in_octets(*old(s)).len() < n && e == StreamError::Truncated,
        },
{
    let mut buf = vec![0u8; n];
    match flood_rs::ReadOctetStream::read(s, &mut buf) {
        Ok(()) => Ok(buf),
        Err(_) => Err(StreamError::Truncated),
    }
}

} // verus!
