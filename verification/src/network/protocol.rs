//! Frames: four bytes with the length of the payload, most significant byte
//! first, and the payload.

use bytes::{BufMut, BytesMut};
use vstd::prelude::*;
use vstd::string::StringExecFns;

use crate::numbers;
use crate::numbers::decimal;

verus! {

/// The longest payload that is read: sixteen mebibytes.
pub const MAX_FRAME_LEN: u32 = 16_777_216;

/// The growing byte buffer of the `bytes` crate.
#[verifier::external_type_specification]
#[verifier::external_body]
pub struct ExBytesMut(BytesMut);

/// What the buffer holds.
pub uninterp spec fn bytes_in(b: BytesMut) -> Seq<u8>;

/// `BytesMut::with_capacity`: a buffer that holds nothing.
#[verifier::external_body]
fn buffer_with_capacity(capacity: usize) -> (r: BytesMut)
    requires
        capacity <= isize::MAX,
    ensures
        bytes_in(r) == Seq::<u8>::empty(),
{
    BytesMut::with_capacity(capacity)
}

/// `BufMut::put_u32`: the number goes to the end, most significant byte first.
#[verifier::external_body]
fn buffer_put_u32(b: &mut BytesMut, n: u32)
    requires
        bytes_in(*old(b)).len() + 4 <= isize::MAX / 2,
    ensures
        bytes_in(*final(b)) == bytes_in(*old(b)) + big_endian(n),
{
    b.put_u32(n)
}

/// `BufMut::put_slice`: the bytes go to the end.
#[verifier::external_body]
fn buffer_put_slice(b: &mut BytesMut, bytes: &[u8])
    requires
        bytes_in(*old(b)).len() + bytes@.len() <= isize::MAX / 2,
    ensures
        bytes_in(*final(b)) == bytes_in(*old(b)) + bytes@,
{
    b.put_slice(bytes)
}

/// `BytesMut` as a slice, copied: what the buffer holds.
#[verifier::external_body]
fn buffer_to_vec(b: &BytesMut) -> (r: Vec<u8>)
    ensures
        r@ == bytes_in(*b),
{
    b.to_vec()
}

/// The four bytes of a number, most significant first.
pub open spec fn big_endian(n: u32) -> Seq<u8> {
    seq![
        (n / 0x100_0000) as u8,
        (n / 0x1_0000 % 0x100) as u8,
        (n / 0x100 % 0x100) as u8,
        (n % 0x100) as u8,
    ]
}

/// The number that four bytes make, most significant first.
pub open spec fn big_endian_value(b: Seq<u8>) -> int {
    b[0] * 0x100_0000 + b[1] * 0x1_0000 + b[2] * 0x100 + b[3]
}

/// The frame of a payload.
pub open spec fn frame_of(payload: Seq<u8>) -> Seq<u8> {
    big_endian(payload.len() as u32) + payload
}

/// Why a frame is not read.
#[derive(Clone, Copy, Debug, PartialEq, Eq, Structural)]
pub enum FrameError {
    /// The payload would be longer than is read.
    TooLarge(u32),
}

impl FrameError {
    /// What is wrong, in words.
    pub fn message(&self) -> (r: String)
        ensures
            match self {
                FrameError::TooLarge(len) => r@ == "frame too large: "@ + numbers::decimal_text(
                    *len as nat,
                ) + " bytes"@,
            },
    {
        match self {
            FrameError::TooLarge(len) => {
                let mut r = "frame too large: ".to_owned();
                r.append(decimal(*len as u64).as_str());
                r.append(" bytes");
                r
            },
        }
    }
}

/// Put a payload into a frame.
pub fn frame(payload: &[u8]) -> (r: Vec<u8>)
    requires
        payload@.len() <= u32::MAX,
        payload@.len() + 4 <= isize::MAX / 2,
    ensures
        r@ == frame_of(payload@),
{
    let mut buffer = buffer_with_capacity(4 + payload.len());
    buffer_put_u32(&mut buffer, payload.len() as u32);
    buffer_put_slice(&mut buffer, payload);
    let r = buffer_to_vec(&buffer);
    assert(r@ =~= frame_of(payload@));
    r
}

/// The length that the first four bytes of a frame tell.
pub fn payload_len(header: &[u8; 4]) -> (r: u32)
    ensures
        r == big_endian_value(header@),
{
    let a: u32 = header[0] as u32;
    let b: u32 = header[1] as u32;
    let c: u32 = header[2] as u32;
    let d: u32 = header[3] as u32;
    a * 0x100_0000 + b * 0x1_0000 + c * 0x100 + d
}

/// The length of the payload to read between replicas, unless it is too long.
pub fn frame_len(header: &[u8; 4]) -> (r: Result<u32, FrameError>)
    ensures
        match r {
            Ok(len) => len == big_endian_value(header@) && len <= MAX_FRAME_LEN,
            Err(FrameError::TooLarge(len)) => len == big_endian_value(header@) && len
                > MAX_FRAME_LEN,
        },
{
    let len = payload_len(header);
    if len > MAX_FRAME_LEN {
        Err(FrameError::TooLarge(len))
    } else {
        Ok(len)
    }
}

/// A frame tells the length of its payload, and holds it.
pub proof fn law_frame_reads_back(payload: Seq<u8>)
    requires
        payload.len() <= u32::MAX,
    ensures
        frame_of(payload).len() == payload.len() + 4,
        big_endian_value(frame_of(payload).take(4)) == payload.len(),
        frame_of(payload).skip(4) == payload,
{
    let n = payload.len() as u32;
    let f = frame_of(payload);
    assert(f.skip(4) =~= payload);
    assert(f.take(4) =~= big_endian(n));
    law_big_endian_reads_back(n);
}

/// The bytes of a number make the number.
pub proof fn law_big_endian_reads_back(n: u32)
    ensures
        big_endian_value(big_endian(n)) == n,
{
    let a = n / 0x100_0000;
    let b = n / 0x1_0000 % 0x100;
    let c = n / 0x100 % 0x100;
    let d = n % 0x100;
    assert(a < 0x100 && b < 0x100 && c < 0x100 && d < 0x100);
    assert(n == a * 0x100_0000 + b * 0x1_0000 + c * 0x100 + d);
}

} // verus!
