//! The scalar fields of the format and the padding between its blocks.

use byteorder::{LittleEndian, WriteBytesExt};
use vstd::prelude::*;
use vstd::utf8::encode_utf8;
use crate::error::{Error, ErrorView};

verus! {

/// The two bytes of `n`, least significant first.
pub open spec fn u16_le(n: u16) -> Seq<u8> {
    seq![(n % 256) as u8, (n / 256) as u8]
}

/// The four bytes of `n`, least significant first.
pub open spec fn u32_le(n: u32) -> Seq<u8> {
    seq![
        (n % 256) as u8,
        (n / 256 % 256) as u8,
        (n / 65536 % 256) as u8,
        (n / 16777216) as u8,
    ]
}

/// The two bytes of `n` in two's complement, least significant first.
pub open spec fn i16_le(n: i16) -> Seq<u8> {
    if n >= 0 {
        u16_le(n as u16)
    } else {
        u16_le((n + 65536) as u16)
    }
}

/// The four bytes of `n` in two's complement, least significant first.
pub open spec fn i32_le(n: i32) -> Seq<u8> {
    if n >= 0 {
        u32_le(n as u32)
    } else {
        u32_le((n + 4294967296) as u32)
    }
}

/// `n` zero bytes.
pub open spec fn zeros(n: nat) -> Seq<u8> {
    Seq::new(n, |i: int| 0u8)
}

/// The bytes of a sequence of 32-bit words, each least significant byte first.
pub open spec fn words_le(words: Seq<u32>) -> Seq<u8>
    decreases words.len(),
{
    if words.len() == 0 {
        Seq::empty()
    } else {
        words_le(words.drop_last()) + u32_le(words.last())
    }
}

/// How many bytes bring a length of `len` up to a multiple of sixteen.
pub open spec fn padding(len: nat) -> nat {
    ((16 - len % 16) % 16) as nat
}

/// `buf` followed by the zero bytes that bring it to a multiple of sixteen bytes.
pub open spec fn pad16(buf: Seq<u8>) -> Seq<u8> {
    buf + zeros(padding(buf.len()))
}

/// A fixed field of `size` bytes that holds `bytes` and is filled up with zero bytes.
pub open spec fn char_array(bytes: Seq<u8>, size: nat) -> Seq<u8> {
    bytes + zeros((size - bytes.len()) as nat)
}

/// Appends one byte through `WriteBytesExt::write_u8` of byteorder, which hands
/// the byte to `write_all`; on a `Vec<u8>` that appends it and cannot fail.
#[verifier::external_body]
pub(crate) fn put_u8(out: &mut Vec<u8>, n: u8)
    ensures
        final(out)@ == old(out)@.push(n),
{
    let _ = out.write_u8(n);
}

/// Appends `n` through `WriteBytesExt::write_u16::<LittleEndian>` of byteorder,
/// which writes the two bytes of `n.to_le_bytes()`; on a `Vec<u8>` that
/// appends them and cannot fail.
#[verifier::external_body]
pub(crate) fn put_u16(out: &mut Vec<u8>, n: u16)
    ensures
        final(out)@ == old(out)@ + u16_le(n),
{
    let _ = out.write_u16::<LittleEndian>(n);
}

/// Appends `n` through `WriteBytesExt::write_i16::<LittleEndian>` of byteorder,
/// which writes `n` reinterpreted as an unsigned number of the same width.
#[verifier::external_body]
pub(crate) fn put_i16(out: &mut Vec<u8>, n: i16)
    ensures
        final(out)@ == old(out)@ + i16_le(n),
{
    let _ = out.write_i16::<LittleEndian>(n);
}

/// Appends `n` through `WriteBytesExt::write_u32::<LittleEndian>` of byteorder,
/// which writes the four bytes of `n.to_le_bytes()`; on a `Vec<u8>` that
/// appends them and cannot fail.
#[verifier::external_body]
pub(crate) fn put_u32(out: &mut Vec<u8>, n: u32)
    ensures
        final(out)@ == old(out)@ + u32_le(n),
{
    let _ = out.write_u32::<LittleEndian>(n);
}

/// Appends `n` through `WriteBytesExt::write_i32::<LittleEndian>` of byteorder,
/// which writes `n` reinterpreted as an unsigned number of the same width.
#[verifier::external_body]
pub(crate) fn put_i32(out: &mut Vec<u8>, n: i32)
    ensures
        final(out)@ == old(out)@ + i32_le(n),
{
    let _ = out.write_i32::<LittleEndian>(n);
}

/// Appends `n` zero bytes.
pub fn write_zeros(wrt: &mut Vec<u8>, n: usize)
    ensures
        final(wrt)@ == old(wrt)@ + zeros(n as nat),
{
    let mut i: usize = 0;
    while i < n
        invariant
            i <= n,
            wrt@ == old(wrt)@ + zeros(i as nat),
        decreases n - i,
    {
        wrt.push(0u8);
        i += 1;
        assert(wrt@ == old(wrt)@ + zeros(i as nat));
    }
}

/// Appends each word of `slice`, least significant byte first.
pub fn write_f32_slice(wrt: &mut Vec<u8>, slice: &[u32])
    ensures
        final(wrt)@ == old(wrt)@ + words_le(slice@),
{
    let mut i: usize = 0;
    while i < slice.len()
        invariant
            i <= slice.len(),
            wrt@ == old(wrt)@ + words_le(slice@.take(i as int)),
        decreases slice.len() - i,
    {
        put_u32(wrt, slice[i]);
        proof {
            assert(slice@.take(i + 1).drop_last() == slice@.take(i as int));
        }
        i += 1;
    }
    assert(slice@.take(i as int) == slice@);
}

/// Pads the buffer with zero bytes up to the next multiple of sixteen bytes.
pub fn write_v3d_mesh_data_padding(wrt: &mut Vec<u8>)
    ensures
        final(wrt)@ == pad16(old(wrt)@),
        final(wrt)@.len() % 16 == 0,
{
    while wrt.len() % 16 != 0
        invariant
            wrt@.len() >= old(wrt)@.len(),
            wrt@.len() - old(wrt)@.len() <= padding(old(wrt)@.len()),
            wrt@ == old(wrt)@ + zeros((wrt@.len() - old(wrt)@.len()) as nat),
        decreases padding(wrt@.len()),
    {
        put_u8(wrt, 0);
    }
}

/// Writes `string` into a field of `size` bytes, filled up with zero bytes.
/// The field keeps room for at least one zero byte after the string.
pub fn write_char_array(wrt: &mut Vec<u8>, string: &str, size: usize) -> (r: Result<(), Error>)
    requires
        size > 0,
    ensures
        encode_utf8(string@).len() < size ==> r is Ok && final(wrt)@ == old(wrt)@ + char_array(
            encode_utf8(string@),
            size as nat,
        ),
        encode_utf8(string@).len() >= size ==> final(wrt)@ == old(wrt)@ && (r matches Err(e) && e@
            == ErrorView::NameTooLong { name: string@, max: (size - 1) as usize }),
{
    let bytes = string.as_bytes();
    if bytes.len() >= size {
        return Err(Error::NameTooLong { name: string.to_owned(), max: size - 1 });
    }
    let mut i: usize = 0;
    while i < bytes.len()
        invariant
            i <= bytes.len(),
            wrt@ == old(wrt)@ + bytes@.take(i as int),
        decreases bytes.len() - i,
    {
        wrt.push(bytes[i]);
        i += 1;
    }
    assert(bytes@.take(i as int) == bytes@);
    write_zeros(wrt, size - bytes.len());
    Ok(())
}

} // verus!
