//! The byte buffers of the `bytes` crate, and UTF-8 text in them.
//!
//! The items of this file that reach into `bytes` and `std` are trusted: their
//! contracts state what those crates do, and the rest of the library is proved from
//! these statements.

use bytes::{Buf, BufMut, Bytes, BytesMut};
use vstd::prelude::*;
use vstd::slice::slice_to_vec;
use vstd::utf8::{decode_utf8, valid_utf8};

verus! {

/// A growable buffer of bytes.
#[verifier::external_type_specification]
#[verifier::external_body]
pub struct ExBytesMut(bytes::BytesMut);

/// An immutable run of bytes.
#[verifier::external_type_specification]
#[verifier::external_body]
pub struct ExBytes(bytes::Bytes);

/// The bytes that a buffer holds.
pub uninterp spec fn buffered(b: bytes::BytesMut) -> Seq<u8>;

/// The bytes of an immutable run.
pub uninterp spec fn held(b: bytes::Bytes) -> Seq<u8>;

/// A buffer can grow to `n` bytes. Growing doubles an allocation that may begin up to
/// `n` bytes before the buffer's first byte, and an allocation is at most `isize::MAX`
/// bytes large.
pub open spec fn can_hold(n: nat) -> bool {
    4 * n <= isize::MAX
}

/// Trusted: `BytesMut::len` gives the number of bytes in the buffer.
pub assume_specification[ bytes::BytesMut::len ](b: &BytesMut) -> (n: usize)
    ensures
        n == buffered(*b).len(),
;

/// Trusted: `BytesMut::reserve` makes room for more bytes and leaves the contents alone.
/// It panics when the new capacity is too large, which `can_hold` rules out.
pub assume_specification[ bytes::BytesMut::reserve ](b: &mut BytesMut, additional: usize)
    requires
        can_hold(buffered(*old(b)).len() + additional as nat),
    ensures
        buffered(*final(b)) == buffered(*old(b)),
;

/// Trusted: `BytesMut::split_to` takes the first `at` bytes out of the buffer and
/// returns them; the rest stays. It panics when the buffer holds fewer bytes.
pub assume_specification[ bytes::BytesMut::split_to ](b: &mut BytesMut, at: usize) -> (head:
    BytesMut)
    requires
        at <= buffered(*old(b)).len(),
    ensures
        buffered(head) == buffered(*old(b)).take(at as int),
        buffered(*final(b)) == buffered(*old(b)).skip(at as int),
;

/// Trusted: `BytesMut::extend_from_slice` appends the bytes of the slice.
pub assume_specification[ bytes::BytesMut::extend_from_slice ](b: &mut BytesMut, extend: &[u8])
    requires
        can_hold(buffered(*old(b)).len() + extend@.len()),
    ensures
        buffered(*final(b)) == buffered(*old(b)) + extend@,
;

/// Trusted: `BytesMut::freeze` turns the buffer into an immutable run of the same bytes.
pub assume_specification[ bytes::BytesMut::freeze ](b: BytesMut) -> (r: Bytes)
    ensures
        held(r) == buffered(b),
;

/// Trusted: `Bytes::copy_from_slice` makes a run that holds the bytes of the slice.
pub assume_specification[ bytes::Bytes::copy_from_slice ](data: &[u8]) -> (r: Bytes)
    ensures
        held(r) == data@,
;

/// Trusted: cloning a `Bytes` gives a second handle on the same bytes.
pub assume_specification[ <bytes::Bytes as Clone>::clone ](b: &Bytes) -> (r: Bytes)
    ensures
        held(r) == held(*b),
;

/// Trusted: a `BytesMut` dereferences to the slice of its bytes.
#[verifier::external_body]
pub(crate) fn buffered_slice(b: &BytesMut) -> (s: &[u8])
    ensures
        s@ == buffered(*b),
{
    b
}

/// The byte at a place in the buffer.
pub(crate) fn byte_at(b: &BytesMut, i: usize) -> (r: u8)
    requires
        i < buffered(*b).len(),
    ensures
        r == buffered(*b)[i as int],
{
    buffered_slice(b)[i]
}

/// A copy of the bytes in the buffer.
pub(crate) fn buffered_vec(b: &BytesMut) -> (v: Vec<u8>)
    ensures
        v@ == buffered(*b),
{
    slice_to_vec(buffered_slice(b))
}

/// Trusted: a `Bytes` dereferences to the slice of its bytes.
#[verifier::external_body]
pub(crate) fn run_slice(b: &Bytes) -> (s: &[u8])
    ensures
        s@ == held(*b),
{
    b
}

/// Trusted: `Buf::advance` on a `BytesMut` drops the first `n` bytes. It panics when the
/// buffer holds fewer.
#[verifier::external_body]
pub(crate) fn drop_front(b: &mut BytesMut, n: usize)
    requires
        n <= buffered(*old(b)).len(),
    ensures
        buffered(*final(b)) == buffered(*old(b)).skip(n as int),
{
    b.advance(n)
}

/// The two bytes of a number, the most significant first.
pub open spec fn be16(n: int) -> Seq<u8> {
    seq![(n / 0x100 % 0x100) as u8, (n % 0x100) as u8]
}

/// The four bytes of a number, the most significant first.
pub open spec fn be32(n: int) -> Seq<u8> {
    seq![
        (n / 0x1000000 % 0x100) as u8,
        (n / 0x10000 % 0x100) as u8,
        (n / 0x100 % 0x100) as u8,
        (n % 0x100) as u8,
    ]
}

/// The unsigned number with the same 32 bits, in two's complement.
pub open spec fn as_unsigned(n: int) -> int {
    if n < 0 {
        n + 0x1_0000_0000
    } else {
        n
    }
}

/// Trusted: `BufMut::put_u8` on a `BytesMut` appends the byte.
#[verifier::external_body]
pub(crate) fn append_u8(b: &mut BytesMut, n: u8)
    requires
        can_hold(buffered(*old(b)).len() + 1),
    ensures
        buffered(*final(b)) == buffered(*old(b)).push(n),
{
    b.put_u8(n)
}

/// Trusted: `BufMut::put_u16` on a `BytesMut` appends the number in big-endian order.
#[verifier::external_body]
pub(crate) fn append_u16(b: &mut BytesMut, n: u16)
    requires
        can_hold(buffered(*old(b)).len() + 2),
    ensures
        buffered(*final(b)) == buffered(*old(b)) + be16(n as int),
{
    b.put_u16(n)
}

/// Trusted: `BufMut::put_u32` on a `BytesMut` appends the number in big-endian order.
#[verifier::external_body]
pub(crate) fn append_u32(b: &mut BytesMut, n: u32)
    requires
        can_hold(buffered(*old(b)).len() + 4),
    ensures
        buffered(*final(b)) == buffered(*old(b)) + be32(n as int),
{
    b.put_u32(n)
}

/// Trusted: `BufMut::put_i32` on a `BytesMut` appends the number's two's complement in
/// big-endian order.
#[verifier::external_body]
pub(crate) fn append_i32(b: &mut BytesMut, n: i32)
    requires
        can_hold(buffered(*old(b)).len() + 4),
    ensures
        buffered(*final(b)) == buffered(*old(b)) + be32(as_unsigned(n as int)),
{
    b.put_i32(n)
}

/// What the standard library says about bytes that are not UTF-8.
pub uninterp spec fn utf8_complaint(bytes: Seq<u8>) -> Seq<char>;

/// Trusted: `String::from_utf8` succeeds exactly on valid UTF-8 and then holds the
/// encoded characters. Its error is handed on as the text that it displays.
#[verifier::external_body]
pub(crate) fn text_from_utf8(bytes: Vec<u8>) -> (r: Result<String, String>)
    ensures
        match r {
            Ok(s) => valid_utf8(bytes@) && s@ == decode_utf8(bytes@),
            Err(e) => !valid_utf8(bytes@) && e@ == utf8_complaint(bytes@),
        },
{
    String::from_utf8(bytes).map_err(|e| e.to_string())
}

/// The text of bytes in which invalid UTF-8 has been replaced.
pub uninterp spec fn lossy(bytes: Seq<u8>) -> Seq<char>;

/// Trusted: `String::from_utf8_lossy` decodes valid UTF-8, and replaces what is invalid
/// with the replacement character.
#[verifier::external_body]
pub(crate) fn text_from_utf8_lossy(bytes: &[u8]) -> (s: String)
    ensures
        s@ == lossy(bytes@),
        valid_utf8(bytes@) ==> s@ == decode_utf8(bytes@),
{
    String::from_utf8_lossy(bytes).into_owned()
}

/// The text of bytes: what they encode, and where they are no UTF-8, the text in which what
/// is invalid has been replaced.
pub open spec fn lossy_text(bytes: Seq<u8>) -> Seq<char> {
    if valid_utf8(bytes) {
        decode_utf8(bytes)
    } else {
        lossy(bytes)
    }
}

/// The number that two bytes denote, the most significant first.
pub open spec fn be16_value(b: Seq<u8>) -> int {
    b[0] * 0x100 + b[1]
}

/// The number that four bytes denote, the most significant first.
pub open spec fn be32_value(b: Seq<u8>) -> int {
    b[0] * 0x1000000 + b[1] * 0x10000 + b[2] * 0x100 + b[3]
}

/// The signed number with the same 32 bits, in two's complement.
pub open spec fn as_signed(n: int) -> int {
    if n >= 0x8000_0000 {
        n - 0x1_0000_0000
    } else {
        n
    }
}

/// The number that the four bytes from `at` on denote.
pub(crate) fn read_u32(b: &BytesMut, at: usize) -> (n: u32)
    requires
        at + 4 <= buffered(*b).len() <= usize::MAX,
    ensures
        n == be32_value(buffered(*b).skip(at as int)),
{
    let b0: u8 = byte_at(b, at);
    let b1: u8 = byte_at(b, at + 1);
    let b2: u8 = byte_at(b, at + 2);
    let b3: u8 = byte_at(b, at + 3);
    b0 as u32 * 0x1000000 + b1 as u32 * 0x10000 + b2 as u32 * 0x100 + b3 as u32
}

/// The number that the two bytes from `at` on denote.
pub(crate) fn read_u16(b: &BytesMut, at: usize) -> (n: u16)
    requires
        at + 2 <= buffered(*b).len() <= usize::MAX,
    ensures
        n == be16_value(buffered(*b).skip(at as int)),
{
    let b0: u8 = byte_at(b, at);
    let b1: u8 = byte_at(b, at + 1);
    b0 as u16 * 0x100 + b1 as u16
}

/// The signed number that the four bytes from `at` on denote.
pub(crate) fn read_i32(b: &BytesMut, at: usize) -> (n: i32)
    requires
        at + 4 <= buffered(*b).len() <= usize::MAX,
    ensures
        n == as_signed(be32_value(buffered(*b).skip(at as int))),
{
    let u: u32 = read_u32(b, at);
    let wide: i64 = u as i64;
    if wide >= 0x8000_0000 {
        (wide - 0x1_0000_0000) as i32
    } else {
        wide as i32
    }
}

proof fn lemma_low_byte_3(n: int)
    requires
        0 <= n,
    ensures
        n % 0x1_0000_0000 / 0x1000000 % 0x100 == n / 0x1000000 % 0x100,
{
    let q = n / 0x1_0000_0000;
    let a = n % 0x1_0000_0000 / 0x1000000;
    let b = n % 0x1_0000_0000 % 0x1000000;
    assert(n == 0x1000000 * (q * 0x100 + a) + b);
    assert(n / 0x1000000 == q * 0x100 + a);
}

proof fn lemma_low_byte_2(n: int)
    requires
        0 <= n,
    ensures
        n % 0x1_0000_0000 / 0x10000 % 0x100 == n / 0x10000 % 0x100,
{
    let q = n / 0x1_0000_0000;
    let a = n % 0x1_0000_0000 / 0x10000;
    let b = n % 0x1_0000_0000 % 0x10000;
    assert(n == 0x10000 * (q * 0x10000 + a) + b);
    assert(n / 0x10000 == q * 0x10000 + a);
    assert(q * 0x10000 + a == 0x100 * (q * 0x100) + a);
}

proof fn lemma_low_byte_1(n: int)
    requires
        0 <= n,
    ensures
        n % 0x1_0000_0000 / 0x100 % 0x100 == n / 0x100 % 0x100,
{
    let q = n / 0x1_0000_0000;
    let a = n % 0x1_0000_0000 / 0x100;
    let b = n % 0x1_0000_0000 % 0x100;
    assert(n == 0x100 * (q * 0x1000000 + a) + b);
    assert(n / 0x100 == q * 0x1000000 + a);
    assert(q * 0x1000000 + a == 0x100 * (q * 0x10000) + a);
}

proof fn lemma_low_byte_0(n: int)
    requires
        0 <= n,
    ensures
        n % 0x1_0000_0000 % 0x100 == n % 0x100,
{
    let q = n / 0x1_0000_0000;
    let r = n % 0x1_0000_0000;
    assert(n == 0x100 * (q * 0x1000000) + r);
}

/// The four bytes of a number depend on its lowest 32 bits alone.
pub proof fn lemma_be32_low(n: int)
    requires
        0 <= n,
    ensures
        be32(n % 0x1_0000_0000) == be32(n),
{
    lemma_low_byte_3(n);
    lemma_low_byte_2(n);
    lemma_low_byte_1(n);
    lemma_low_byte_0(n);
}

/// Reading four bytes back gives the number that they were made of.
pub proof fn lemma_be32(n: int)
    requires
        0 <= n < 0x1_0000_0000,
    ensures
        be32_value(be32(n)) == n,
{
}

/// Reading two bytes back gives the number that they were made of.
pub proof fn lemma_be16(n: int)
    requires
        0 <= n < 0x10000,
    ensures
        be16_value(be16(n)) == n,
{
}

/// A signed number survives the way through its two's complement.
pub proof fn lemma_signed(n: i32)
    ensures
        0 <= as_unsigned(n as int) < 0x1_0000_0000,
        as_signed(as_unsigned(n as int)) == n,
{
}

} // verus!
