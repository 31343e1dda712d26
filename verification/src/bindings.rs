//! What the library takes on trust from `std` and from the `bytes` crate.
//!
//! The types declared here are opaque to the verifier. What a value holds is
//! spoken of through the spec functions [`cursor_data`], [`cursor_offset`],
//! [`bytes_data`], [`bytes_mut_data`] and [`io_slice_data`]; each wrapper
//! states over them what one function of `std` or `bytes` does. Running out
//! of memory is not modelled.

use std::io::{Cursor, IoSlice, Write};

use bytes::{Buf, BufMut, Bytes, BytesMut};
use vstd::prelude::*;

verus! {

/// `std::io::Cursor`.
#[verifier::external_type_specification]
#[verifier::external_body]
#[verifier::reject_recursive_types(T)]
pub struct ExCursor<T>(std::io::Cursor<T>);

/// `std::io::IoSlice`.
#[verifier::external_type_specification]
#[verifier::external_body]
pub struct ExIoSlice<'a>(std::io::IoSlice<'a>);

/// `std::io::Error`. The library only carries such errors along.
#[verifier::external_type_specification]
#[verifier::external_body]
pub struct ExIoError(std::io::Error);

/// `bytes::Bytes`.
#[verifier::external_type_specification]
#[verifier::external_body]
pub struct ExBytes(bytes::Bytes);

/// `bytes::BytesMut`.
#[verifier::external_type_specification]
#[verifier::external_body]
pub struct ExBytesMut(bytes::BytesMut);

/// The bytes that a cursor runs over, those before its position included.
pub uninterp spec fn cursor_data(cursor: Cursor<Vec<u8>>) -> Seq<u8>;

/// The position of a cursor, which may lie past the end of its bytes.
pub uninterp spec fn cursor_offset(cursor: Cursor<Vec<u8>>) -> u64;

/// The bytes that a `Bytes` handle gives access to.
pub uninterp spec fn bytes_data(bytes: Bytes) -> Seq<u8>;

/// The bytes that have been written to a `BytesMut`.
pub uninterp spec fn bytes_mut_data(bytes: BytesMut) -> Seq<u8>;

/// The bytes that an `IoSlice` points to.
pub uninterp spec fn io_slice_data(slice: IoSlice<'_>) -> Seq<u8>;

/// The bytes of a cursor from its position on; none if the position lies past
/// the end.
pub open spec fn cursor_rest(cursor: Cursor<Vec<u8>>) -> Seq<u8> {
    if cursor_offset(cursor) <= cursor_data(cursor).len() {
        cursor_data(cursor).skip(cursor_offset(cursor) as int)
    } else {
        Seq::empty()
    }
}

/// `Cursor::new`: a cursor over `data` that stands at its start.
#[verifier::external_body]
pub(crate) fn cursor_new(data: Vec<u8>) -> (cursor: Cursor<Vec<u8>>)
    ensures
        cursor_data(cursor) == data@,
        cursor_offset(cursor) == 0,
{
    Cursor::new(data)
}

/// `Cursor::position`: the position of the cursor.
#[verifier::external_body]
pub(crate) fn cursor_position(cursor: &Cursor<Vec<u8>>) -> (position: u64)
    ensures
        position == cursor_offset(*cursor),
{
    cursor.position()
}

/// `Cursor::set_position`: moves the cursor and leaves its bytes alone.
#[verifier::external_body]
pub(crate) fn cursor_set_position(cursor: &mut Cursor<Vec<u8>>, position: u64)
    ensures
        cursor_data(*final(cursor)) == cursor_data(*old(cursor)),
        cursor_offset(*final(cursor)) == position,
{
    cursor.set_position(position)
}

/// `Cursor::get_ref`: the vector under the cursor.
#[verifier::external_body]
pub(crate) fn cursor_get_ref(cursor: &Cursor<Vec<u8>>) -> (data: &Vec<u8>)
    ensures
        data@ == cursor_data(*cursor),
{
    cursor.get_ref()
}

/// `Cursor::get_mut`: the vector under the cursor, to be changed in place; the
/// position stays where it is.
#[verifier::external_body]
pub(crate) fn cursor_get_mut(cursor: &mut Cursor<Vec<u8>>) -> (data: &mut Vec<u8>)
    ensures
        data@ == cursor_data(*old(cursor)),
        cursor_data(*final(cursor)) == final(data)@,
        cursor_offset(*final(cursor)) == cursor_offset(*old(cursor)),
{
    cursor.get_mut()
}

/// `Cursor::into_inner`: the vector under the cursor.
#[verifier::external_body]
pub(crate) fn cursor_into_inner(cursor: Cursor<Vec<u8>>) -> (data: Vec<u8>)
    ensures
        data@ == cursor_data(cursor),
{
    cursor.into_inner()
}

/// `Buf::remaining` of `bytes`, on a cursor: how many bytes lie between the
/// position and the end, none if the position lies past the end.
#[verifier::external_body]
pub(crate) fn cursor_remaining(cursor: &Cursor<Vec<u8>>) -> (remaining: usize)
    ensures
        remaining == cursor_rest(*cursor).len(),
{
    Buf::remaining(cursor)
}

/// `Buf::chunk` of `bytes`, on a cursor: the bytes between the position and
/// the end.
#[verifier::external_body]
pub(crate) fn cursor_chunk(cursor: &Cursor<Vec<u8>>) -> (chunk: &[u8])
    ensures
        chunk@ == cursor_rest(*cursor),
{
    Buf::chunk(cursor)
}

/// `Buf::advance` of `bytes`, on a cursor: moves the position forward. It
/// panics if fewer than `cnt` bytes are left.
#[verifier::external_body]
pub(crate) fn cursor_advance(cursor: &mut Cursor<Vec<u8>>, cnt: usize)
    requires
        cnt <= cursor_rest(*old(cursor)).len(),
    ensures
        cursor_data(*final(cursor)) == cursor_data(*old(cursor)),
        cursor_offset(*final(cursor)) == cursor_offset(*old(cursor)) + cnt,
{
    Buf::advance(cursor, cnt)
}

/// `Vec::drain`, on the first `cnt` elements and with the drained elements
/// dropped at once. It panics if there are fewer than `cnt`.
#[verifier::external_body]
pub(crate) fn vec_drain_front<T>(vec: &mut Vec<T>, cnt: usize)
    requires
        cnt <= old(vec)@.len(),
    ensures
        final(vec)@ == old(vec)@.skip(cnt as int),
{
    vec.drain(..cnt);
}

/// `IoSlice::new`: a slice that points to `data`. On Windows it panics if
/// `data` is longer than a 32-bit length can say.
#[verifier::external_body]
pub(crate) fn io_slice_new<'a>(data: &'a [u8]) -> (slice: IoSlice<'a>)
    requires
        data@.len() <= u32::MAX,
    ensures
        io_slice_data(slice) == data@,
{
    IoSlice::new(data)
}

/// `Bytes::len`: the number of bytes.
#[verifier::external_body]
pub(crate) fn bytes_len(bytes: &Bytes) -> (len: usize)
    ensures
        len == bytes_data(*bytes).len(),
{
    bytes.len()
}

/// `Deref::deref` of `Bytes`: the bytes as a slice.
#[verifier::external_body]
pub(crate) fn bytes_as_slice(bytes: &Bytes) -> (slice: &[u8])
    ensures
        slice@ == bytes_data(*bytes),
{
    std::ops::Deref::deref(bytes)
}

/// `Clone::clone` of `Bytes`: another handle to the same bytes.
#[verifier::external_body]
pub(crate) fn bytes_clone(bytes: &Bytes) -> (copy: Bytes)
    ensures
        bytes_data(copy) == bytes_data(*bytes),
{
    bytes.clone()
}

/// `Buf::advance` of `Bytes`: drops bytes from the front. It panics if there
/// are fewer than `cnt`.
#[verifier::external_body]
pub(crate) fn bytes_advance(bytes: &mut Bytes, cnt: usize)
    requires
        cnt <= bytes_data(*old(bytes)).len(),
    ensures
        bytes_data(*final(bytes)) == bytes_data(*old(bytes)).skip(cnt as int),
{
    bytes.advance(cnt)
}

/// `BytesMut::new`: an empty buffer.
#[verifier::external_body]
pub(crate) fn bytes_mut_new() -> (bytes: BytesMut)
    ensures
        bytes_mut_data(bytes) == Seq::<u8>::empty(),
{
    BytesMut::new()
}

/// `BytesMut::reserve`: makes room for `additional` more bytes and changes
/// none that are there. It panics if the buffer would have to be larger than
/// an allocation can be.
#[verifier::external_body]
pub(crate) fn bytes_mut_reserve(bytes: &mut BytesMut, additional: usize)
    requires
        bytes_mut_data(*old(bytes)).len() + additional <= isize::MAX,
    ensures
        bytes_mut_data(*final(bytes)) == bytes_mut_data(*old(bytes)),
{
    bytes.reserve(additional)
}

/// `Write::write_all` on the `BufMut::writer` of a `BytesMut`: appends all of
/// `data`, and does not fail while the buffer stays as small as an allocation
/// has to be.
#[verifier::external_body]
pub(crate) fn bytes_mut_write_all(bytes: &mut BytesMut, data: &[u8]) -> (result: Result<
    (),
    std::io::Error,
>)
    requires
        bytes_mut_data(*old(bytes)).len() + data@.len() <= isize::MAX,
    ensures
        result is Ok,
        bytes_mut_data(*final(bytes)) == bytes_mut_data(*old(bytes)) + data@,
{
    bytes.writer().write_all(data)
}

/// `BytesMut::split`: hands out what has been written and leaves the buffer
/// empty.
#[verifier::external_body]
pub(crate) fn bytes_mut_split(bytes: &mut BytesMut) -> (written: BytesMut)
    ensures
        bytes_mut_data(written) == bytes_mut_data(*old(bytes)),
        bytes_mut_data(*final(bytes)) == Seq::<u8>::empty(),
{
    bytes.split()
}

/// `BytesMut::freeze`: the same bytes as an immutable handle.
#[verifier::external_body]
pub(crate) fn bytes_mut_freeze(bytes: BytesMut) -> (frozen: Bytes)
    ensures
        bytes_data(frozen) == bytes_mut_data(bytes),
{
    bytes.freeze()
}

} // verus!
