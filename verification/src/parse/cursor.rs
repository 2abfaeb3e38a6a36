//! A forward-only reader over an in-memory byte buffer.

use vstd::prelude::*;
use bytes::{Buf, Bytes};
use super::Error;

verus! {

/// `bytes::Bytes`, a cheaply cloned buffer of bytes that is read from the
/// front. Nothing of its inside is known here; what it holds is named by
/// [`unread`].
#[verifier::external_type_specification]
#[verifier::external_body]
pub struct ExBytes(bytes::Bytes);

/// The bytes that a `bytes::Bytes` has not handed out yet, in reading order.
pub uninterp spec fn unread(b: Bytes) -> Seq<u8>;

/// The unsigned number that two bytes spell in little-endian order.
pub open spec fn le16(b0: u8, b1: u8) -> int {
    b0 as int + 256 * (b1 as int)
}

/// The unsigned number that four bytes spell in little-endian order.
pub open spec fn le32(b0: u8, b1: u8, b2: u8, b3: u8) -> int {
    b0 as int + 256 * (b1 as int) + 65536 * (b2 as int) + 16777216 * (b3 as int)
}

/// `Bytes::from(Vec<u8>)`: the new buffer holds exactly the vector's bytes.
#[verifier::external_body]
fn bytes_from_vec(data: Vec<u8>) -> (b: Bytes)
    ensures
        unread(b) == data@,
{
    Bytes::from(data)
}

/// `Buf::remaining` on `Bytes`: the number of bytes not yet read.
#[verifier::external_body]
fn bytes_remaining(b: &Bytes) -> (n: usize)
    ensures
        n == unread(*b).len(),
{
    b.remaining()
}

/// `Clone::clone` on `Bytes`: a second handle on the same unread bytes.
#[verifier::external_body]
fn bytes_clone(b: &Bytes) -> (c: Bytes)
    ensures
        unread(c) == unread(*b),
{
    b.clone()
}

/// `Buf::advance` on `Bytes`: drops the first `count` unread bytes. The
/// outside method panics when fewer remain, which `requires` rules out.
#[verifier::external_body]
fn bytes_advance(b: &mut Bytes, count: usize)
    requires
        count <= unread(*old(b)).len(),
    ensures
        unread(*final(b)) == unread(*old(b)).skip(count as int),
{
    b.advance(count)
}

/// `Buf::get_u8` on `Bytes`: hands out the first unread byte. The outside
/// method panics on an empty buffer, which `requires` rules out.
#[verifier::external_body]
fn bytes_get_u8(b: &mut Bytes) -> (value: u8)
    requires
        unread(*old(b)).len() >= 1,
    ensures
        value == unread(*old(b))[0],
        unread(*final(b)) == unread(*old(b)).skip(1),
{
    b.get_u8()
}

/// `Buf::get_u16_le` on `Bytes`: reads two bytes as a little-endian number.
/// The outside method panics when fewer remain, which `requires` rules out.
#[verifier::external_body]
fn bytes_get_u16_le(b: &mut Bytes) -> (value: u16)
    requires
        unread(*old(b)).len() >= 2,
    ensures
        value == le16(unread(*old(b))[0], unread(*old(b))[1]),
        unread(*final(b)) == unread(*old(b)).skip(2),
{
    b.get_u16_le()
}

/// `Buf::get_u32_le` on `Bytes`: reads four bytes as a little-endian number.
/// The outside method panics when fewer remain, which `requires` rules out.
#[verifier::external_body]
fn bytes_get_u32_le(b: &mut Bytes) -> (value: u32)
    requires
        unread(*old(b)).len() >= 4,
    ensures
        value == le32(
            unread(*old(b))[0],
            unread(*old(b))[1],
            unread(*old(b))[2],
            unread(*old(b))[3],
        ),
        unread(*final(b)) == unread(*old(b)).skip(4),
{
    b.get_u32_le()
}

/// `Buf::copy_to_slice` on `Bytes`, into a fresh vector of `count` bytes:
/// hands out the first `count` unread bytes. The outside method panics when
/// fewer remain, which `requires` rules out.
#[verifier::external_body]
fn bytes_copy_out(b: &mut Bytes, count: usize) -> (out: Vec<u8>)
    requires
        count <= unread(*old(b)).len(),
    ensures
        out@ == unread(*old(b)).take(count as int),
        unread(*final(b)) == unread(*old(b)).skip(count as int),
{
    let mut out = vec![0u8; count];
    b.copy_to_slice(&mut out);
    out
}

/// The text that `String::from_utf8_lossy` makes of `bytes`: what is
/// valid UTF-8 as it stands, what is not as U+FFFD.
pub uninterp spec fn utf8_lossy(bytes: Seq<u8>) -> Seq<char>;

/// `String::from_utf8_lossy`, made an owned `String`: the result is a
/// function of the bytes alone, named [`utf8_lossy`].
#[verifier::external_body]
fn string_from_utf8_lossy(bytes: &Vec<u8>) -> (text: String)
    ensures
        text@ == utf8_lossy(bytes@),
{
    String::from_utf8_lossy(bytes).into_owned()
}

/// What reading one byte from `s` gives: the byte and the bytes after it.
pub open spec fn take_u8(s: Seq<u8>) -> Result<(u8, Seq<u8>), Error> {
    if s.len() >= 1 {
        Ok((s[0], s.skip(1)))
    } else {
        Err(Error::Truncated)
    }
}

/// What reading a little-endian `u16` from `s` gives.
pub open spec fn take_u16(s: Seq<u8>) -> Result<(u16, Seq<u8>), Error> {
    if s.len() >= 2 {
        Ok((le16(s[0], s[1]) as u16, s.skip(2)))
    } else {
        Err(Error::Truncated)
    }
}

/// What reading a little-endian `u32` from `s` gives.
pub open spec fn take_u32(s: Seq<u8>) -> Result<(u32, Seq<u8>), Error> {
    if s.len() >= 4 {
        Ok((le32(s[0], s[1], s[2], s[3]) as u32, s.skip(4)))
    } else {
        Err(Error::Truncated)
    }
}

/// What reading `n` raw bytes from `s` gives.
pub open spec fn take_bytes(s: Seq<u8>, n: int) -> Result<(Seq<u8>, Seq<u8>), Error> {
    if 0 <= n <= s.len() {
        Ok((s.take(n), s.skip(n)))
    } else {
        Err(Error::Truncated)
    }
}

/// What reading a string from `s` gives: a `u16` length, then that many
/// bytes, decoded lossily as text.
pub open spec fn take_string(s: Seq<u8>) -> Result<(Seq<char>, Seq<u8>), Error> {
    match take_u16(s) {
        Err(e) => Err(e),
        Ok((n, rest)) => match take_bytes(rest, n as int) {
            Err(e) => Err(e),
            Ok((raw, rest2)) => Ok((utf8_lossy(raw), rest2)),
        },
    }
}

/// A read that succeeded leaves the value `v` and the cursor at `rest`; one
/// that failed reports the error `e`.
pub open spec fn outcome<T>(
    expected: Result<(T, Seq<u8>), Error>,
    got: Result<T, Error>,
    rest: Seq<u8>,
) -> bool {
    match expected {
        Ok((v, r)) => got == Ok::<T, Error>(v) && rest == r,
        Err(e) => got == Err::<T, Error>(e),
    }
}

/// As [`outcome`], for a value that is compared by its view.
pub open spec fn outcome_view<T: View>(
    expected: Result<(T::V, Seq<u8>), Error>,
    got: Result<T, Error>,
    rest: Seq<u8>,
) -> bool {
    match (expected, got) {
        (Ok((v, r)), Ok(t)) => t@ == v && rest == r,
        (Err(e), Err(x)) => x == e,
        _ => false,
    }
}

/// A whole document decoded to the value `v`, or refused with the error `e`.
pub open spec fn decoded<T: View>(expected: Result<T::V, Error>, got: Result<T, Error>) -> bool {
    match (expected, got) {
        (Ok(v), Ok(t)) => t@ == v,
        (Err(e), Err(x)) => x == e,
        _ => false,
    }
}

/// A forward-only reader over a byte buffer. Its view is the sequence of
/// bytes not yet read.
pub struct ByteCursor {
    bytes: Bytes,
}

impl View for ByteCursor {
    type V = Seq<u8>;

    closed spec fn view(&self) -> Seq<u8> {
        unread(self.bytes)
    }
}

impl ByteCursor {
    /// A cursor at the start of `data`.
    pub fn new(data: Vec<u8>) -> (c: Self)
        ensures
            c@ == data@,
    {
        ByteCursor { bytes: bytes_from_vec(data) }
    }

    /// A second cursor at the same place over the same bytes.
    pub fn fork(&self) -> (c: Self)
        ensures
            c@ == self@,
    {
        ByteCursor { bytes: bytes_clone(&self.bytes) }
    }

    /// The number of bytes not yet read.
    pub fn remaining(&self) -> (n: usize)
        ensures
            n == self@.len(),
    {
        bytes_remaining(&self.bytes)
    }

    /// Whether any byte is left.
    pub fn has_remaining(&self) -> (b: bool)
        ensures
            b == (self@.len() > 0),
    {
        bytes_remaining(&self.bytes) > 0
    }

    /// Reads one byte, or fails with `Truncated` and stays in place.
    pub fn read_u8(&mut self) -> (r: Result<u8, Error>)
        ensures
            outcome(take_u8(old(self)@), r, final(self)@),
            r is Err ==> final(self)@ == old(self)@,
    {
        if bytes_remaining(&self.bytes) < 1 {
            return Err(Error::Truncated);
        }
        Ok(bytes_get_u8(&mut self.bytes))
    }

    /// Reads a little-endian `u16`, or fails with `Truncated` and stays in
    /// place.
    pub fn read_u16_le(&mut self) -> (r: Result<u16, Error>)
        ensures
            outcome(take_u16(old(self)@), r, final(self)@),
            r is Err ==> final(self)@ == old(self)@,
    {
        if bytes_remaining(&self.bytes) < 2 {
            return Err(Error::Truncated);
        }
        Ok(bytes_get_u16_le(&mut self.bytes))
    }

    /// Reads a little-endian `u32`, or fails with `Truncated` and stays in
    /// place.
    pub fn read_u32_le(&mut self) -> (r: Result<u32, Error>)
        ensures
            outcome(take_u32(old(self)@), r, final(self)@),
            r is Err ==> final(self)@ == old(self)@,
    {
        if bytes_remaining(&self.bytes) < 4 {
            return Err(Error::Truncated);
        }
        Ok(bytes_get_u32_le(&mut self.bytes))
    }

    /// Hands out the next `n` bytes, or `None` (staying in place) when fewer
    /// than `n` remain.
    pub fn read_slice(&mut self, n: usize) -> (r: Option<Vec<u8>>)
        ensures
            match r {
                Some(v) => n <= old(self)@.len() && v@ == old(self)@.take(n as int)
                    && final(self)@ == old(self)@.skip(n as int),
                None => n > old(self)@.len() && final(self)@ == old(self)@,
            },
    {
        if bytes_remaining(&self.bytes) < n {
            return None;
        }
        Some(bytes_copy_out(&mut self.bytes, n))
    }

    /// Reads a string: a `u16` length, then that many bytes, decoded lossily
    /// as text. Fails with `Truncated` when the bytes run out.
    pub fn read_string(&mut self) -> (r: Result<String, Error>)
        ensures
            outcome_view(take_string(old(self)@), r, final(self)@),
    {
        let n = self.read_u16_le()?;
        match self.read_slice(n as usize) {
            Some(raw) => Ok(string_from_utf8_lossy(&raw)),
            None => Err(Error::Truncated),
        }
    }

    /// Moves past the next `n` bytes, or fails with `Truncated` and stays in
    /// place when fewer than `n` remain.
    pub fn skip(&mut self, n: usize) -> (r: Result<(), Error>)
        ensures
            n <= old(self)@.len() ==> r is Ok && final(self)@ == old(self)@.skip(n as int),
            n > old(self)@.len() ==> r == Err::<(), Error>(Error::Truncated)
                && final(self)@ == old(self)@,
    {
        if bytes_remaining(&self.bytes) < n {
            return Err(Error::Truncated);
        }
        bytes_advance(&mut self.bytes, n);
        Ok(())
    }
}

} // verus!
