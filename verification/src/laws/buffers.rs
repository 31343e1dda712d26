//! The buffers.

use std::io::{Cursor, IoSlice};

use bytes::Bytes;
use vstd::prelude::*;

use super::writing;
use crate::bindings;
use crate::buffer::{self, BytesList, ReadBuffer};

verus! {

/// A buffer is made with the bytes that were read before and nothing else, and
/// its cursor stands at their start.
pub proof fn law_made<const CHUNK_SIZE: usize>(
    part: Vec<u8>,
    capacity: usize,
    made: ReadBuffer<CHUNK_SIZE>,
    empty: ReadBuffer<CHUNK_SIZE>,
    roomy: ReadBuffer<CHUNK_SIZE>,
    default: ReadBuffer<CHUNK_SIZE>,
)
    requires
        call_ensures(<ReadBuffer<CHUNK_SIZE> as Default>::default, (), default),
        call_ensures(ReadBuffer::<CHUNK_SIZE>::from_partially_read, (part,), made),
        call_ensures(ReadBuffer::<CHUNK_SIZE>::new, (), empty),
        call_ensures(ReadBuffer::<CHUNK_SIZE>::with_capacity, (capacity,), roomy),
    ensures
        bindings::cursor_data(made.cursor()) == part@,
        bindings::cursor_offset(made.cursor()) == 0,
        bindings::cursor_data(empty.cursor()).len() == 0,
        bindings::cursor_offset(empty.cursor()) == 0,
        bindings::cursor_data(roomy.cursor()).len() == 0,
        bindings::cursor_offset(roomy.cursor()) == 0,
        bindings::cursor_data(default.cursor()).len() == 0,
        bindings::cursor_offset(default.cursor()) == 0,
        default.space().len() == CHUNK_SIZE,
        made.space().len() == CHUNK_SIZE,
        empty.space().len() == CHUNK_SIZE,
        roomy.space().len() == CHUNK_SIZE,
        forall|i: int| 0 <= i < CHUNK_SIZE ==> #[trigger] default.space()[i] == 0,
        forall|i: int| 0 <= i < CHUNK_SIZE ==> #[trigger] made.space()[i] == 0,
        forall|i: int| 0 <= i < CHUNK_SIZE ==> #[trigger] empty.space()[i] == 0,
        forall|i: int| 0 <= i < CHUNK_SIZE ==> #[trigger] roomy.space()[i] == 0,
{
}

/// What can be seen of a buffer are the bytes from its cursor on, and how many
/// there are; past the end there are none.
pub proof fn law_look<const CHUNK_SIZE: usize>(
    buffer: &ReadBuffer<CHUNK_SIZE>,
    cursor: &Cursor<Vec<u8>>,
    chunk: &[u8],
    remaining: usize,
)
    requires
        call_ensures(ReadBuffer::<CHUNK_SIZE>::as_cursor, (buffer,), cursor),
        call_ensures(ReadBuffer::<CHUNK_SIZE>::chunk, (buffer,), chunk),
        call_ensures(ReadBuffer::<CHUNK_SIZE>::remaining, (buffer,), remaining),
    ensures
        *cursor == buffer.cursor(),
        remaining == chunk@.len(),
        ({
            let data = bindings::cursor_data(*cursor);
            let start = bindings::cursor_offset(*cursor) as int;
            if start <= data.len() {
                &&& chunk@.len() == data.len() - start
                &&& forall|i: int| 0 <= i < chunk@.len() ==> #[trigger] chunk@[i] == data[start + i]
            } else {
                chunk@.len() == 0
            }
        }),
        buffer.unread() == chunk@,
{
}

/// What was read comes after the bytes that were to be seen before, and those
/// that the cursor has passed are gone. A failed read brings nothing. The
/// outcome of the read is handed on.
pub proof fn law_read_from<const CHUNK_SIZE: usize, E>(
    buffer: &mut ReadBuffer<CHUNK_SIZE>,
    read: Result<usize, E>,
    result: Result<usize, E>,
)
    requires
        call_ensures(ReadBuffer::<CHUNK_SIZE>::read_from::<E>, (buffer, read), result),
        bindings::cursor_offset(old(buffer).cursor()) <= bindings::cursor_data(
            old(buffer).cursor(),
        ).len() <= usize::MAX,
        read matches Ok(size) ==> size <= old(buffer).space().len(),
    ensures
        ({
            let data = bindings::cursor_data(old(buffer).cursor());
            let start = bindings::cursor_offset(old(buffer).cursor()) as int;
            let after = bindings::cursor_data(final(buffer).cursor());
            let size: int = match read {
                Ok(size) => size as int,
                Err(_) => 0,
            };
            &&& result == read
            &&& bindings::cursor_offset(final(buffer).cursor()) == 0
            &&& after.len() == data.len() - start + size
            &&& forall|i: int|
                0 <= i < data.len() - start ==> #[trigger] after[i] == data[start + i]
            &&& forall|i: int|
                #![trigger old(buffer).space()[i]]
                0 <= i < size ==> after[data.len() - start + i] == old(buffer).space()[i]
        }),
        final(buffer).space() == old(buffer).space(),
{
    let data = bindings::cursor_data(old(buffer).cursor());
    let start = bindings::cursor_offset(old(buffer).cursor()) as int;
    let after = bindings::cursor_data(final(buffer).cursor());
    assert(old(buffer).consumed() == start);
    assert(old(buffer).stored() == data);
    assert(after =~= data.skip(start) + buffer::received(old(buffer).space(), read));
}

/// Advancing moves the cursor and nothing else.
pub proof fn law_advance<const CHUNK_SIZE: usize>(
    buffer: &mut ReadBuffer<CHUNK_SIZE>,
    cnt: usize,
)
    requires
        call_ensures(ReadBuffer::<CHUNK_SIZE>::advance, (buffer, cnt), ()),
    ensures
        bindings::cursor_data(final(buffer).cursor()) == bindings::cursor_data(
            old(buffer).cursor(),
        ),
        bindings::cursor_offset(final(buffer).cursor()) == bindings::cursor_offset(
            old(buffer).cursor(),
        ) + cnt,
        final(buffer).space() == old(buffer).space(),
{
}

/// Seen from outside, a buffer is a queue: a read puts bytes behind those that
/// are to be seen, advancing takes them off the front, and at the end the bytes
/// that are to be seen are handed out.
pub proof fn law_seen_from_outside<const CHUNK_SIZE: usize, E>(
    filled: &mut ReadBuffer<CHUNK_SIZE>,
    read: Result<usize, E>,
    result: Result<usize, E>,
    advanced: &mut ReadBuffer<CHUNK_SIZE>,
    cnt: usize,
    ended: ReadBuffer<CHUNK_SIZE>,
    rest: Vec<u8>,
)
    requires
        old(filled).wf(),
        ended.wf(),
        read matches Ok(size) ==> size <= old(filled).space().len(),
        cnt <= old(advanced).unread().len(),
        call_ensures(ReadBuffer::<CHUNK_SIZE>::read_from::<E>, (filled, read), result),
        call_ensures(ReadBuffer::<CHUNK_SIZE>::advance, (advanced, cnt), ()),
        call_ensures(ReadBuffer::<CHUNK_SIZE>::into_vec, (ended,), rest),
    ensures
        read matches Ok(size) ==> final(filled).unread() == old(filled).unread() + old(
            filled).space().subrange(0, size as int),
        read is Err ==> final(filled).unread() == old(filled).unread(),
        final(advanced).unread() == old(advanced).unread().subrange(
            cnt as int,
            old(advanced).unread().len() as int,
        ),
        rest@ == ended.unread(),
{
    if let Ok(size) = read {
        assert(old(filled).space().take(size as int) =~= old(filled).space().subrange(
            0,
            size as int,
        ));
    } else {
        assert(old(filled).unread() + Seq::<u8>::empty() =~= old(filled).unread());
    }
    assert(old(advanced).unread().skip(cnt as int) =~= old(advanced).unread().subrange(
        cnt as int,
        old(advanced).unread().len() as int,
    ));
}

/// At the end the stored bytes are handed out, without those that the cursor
/// has passed.
pub proof fn law_into_vec<const CHUNK_SIZE: usize>(
    buffer: ReadBuffer<CHUNK_SIZE>,
    rest: Vec<u8>,
)
    requires
        call_ensures(ReadBuffer::<CHUNK_SIZE>::into_vec, (buffer,), rest),
        bindings::cursor_offset(buffer.cursor()) <= bindings::cursor_data(buffer.cursor()).len(),
    ensures
        rest@.len() == bindings::cursor_data(buffer.cursor()).len() - bindings::cursor_offset(
            buffer.cursor(),
        ),
        forall|i: int|
            0 <= i < rest@.len() ==> #[trigger] rest@[i] == bindings::cursor_data(
                buffer.cursor(),
            )[bindings::cursor_offset(buffer.cursor()) + i],
{
}

/// The cursor and the read space that are handed out are those of the buffer,
/// and what becomes of one leaves the other alone.
pub proof fn law_lent<const CHUNK_SIZE: usize>(
    buffer: &mut ReadBuffer<CHUNK_SIZE>,
    cursor: &mut Cursor<Vec<u8>>,
    other: &mut ReadBuffer<CHUNK_SIZE>,
    space: &mut [u8],
)
    requires
        call_ensures(ReadBuffer::<CHUNK_SIZE>::as_cursor_mut, (buffer,), cursor),
        call_ensures(ReadBuffer::<CHUNK_SIZE>::read_space, (other,), space),
    ensures
        *old(cursor) == old(buffer).cursor(),
        final(buffer).cursor() == *final(cursor),
        final(buffer).space() == old(buffer).space(),
        old(space)@ == old(other).space(),
        final(other).space() == final(space)@,
        final(other).cursor() == old(other).cursor(),
{
}

/// A list has no chunks to begin with.
pub proof fn law_new_list(list: BytesList)
    requires
        call_ensures(<BytesList as Default>::default, (), list),
    ensures
        list.wf(),
        list.chunks().len() == 0,
{
}

/// A chunk is pushed behind the others, as it is.
pub proof fn law_push(list: &mut BytesList, bytes: Bytes)
    requires
        call_ensures(BytesList::push, (list, bytes), ()),
    ensures
        final(list).chunks().len() == old(list).chunks().len() + 1,
        final(list).chunks().drop_last() == old(list).chunks(),
        final(list).chunks().last() == bindings::bytes_data(bytes),
        final(list).wf(),
{
    assert(final(list).chunks().drop_last() =~= old(list).chunks());
}

/// What remains in a list are the bytes of all its chunks, and the chunk to be
/// seen is the first.
pub proof fn law_list_look(list: &BytesList, remaining: usize, chunk: &[u8])
    requires
        call_ensures(BytesList::remaining, (list,), remaining),
        call_ensures(BytesList::chunk, (list,), chunk),
    ensures
        remaining == list.chunks().flatten().len(),
        list.chunks().len() > 0 ==> chunk@ == list.chunks()[0],
        list.chunks().len() == 0 ==> chunk@.len() == 0,
{
}

/// Advancing takes as many bytes off the front of a list as it is told to: whole
/// chunks, and a part of the next one.
pub proof fn law_list_advance(list: &mut BytesList, cnt: usize)
    requires
        call_ensures(BytesList::advance, (list, cnt), ()),
        cnt <= old(list).chunks().flatten().len(),
    ensures
        final(list).chunks().flatten() == old(list).chunks().flatten().subrange(
            cnt as int,
            old(list).chunks().flatten().len() as int,
        ),
        final(list).wf(),
        exists|gone: int, cut: int|
            writing::takes_off(old(list).chunks(), cnt as nat, final(list).chunks(), gone, cut),
{
    let all = old(list).chunks().flatten();
    assert(all.skip(cnt as int) =~= all.subrange(cnt as int, all.len() as int));
    let (gone, cut) = writing::lemma_takes_off(old(list).chunks(), cnt as nat);
    assert(writing::takes_off(old(list).chunks(), cnt as nat, final(list).chunks(), gone, cut));
}

/// The slices that are filled point to the chunks of the list from its front
/// on, as many as there is room for, and the others stay as they are.
pub proof fn law_chunks_vectored<'a>(list: &'a BytesList, dst: &mut [IoSlice<'a>], len: usize)
    requires
        call_ensures(BytesList::chunks_vectored, (list, dst), len),
    ensures
        len <= list.chunks().len(),
        len <= old(dst)@.len(),
        len == list.chunks().len() || len == old(dst)@.len(),
        final(dst)@.len() == old(dst)@.len(),
        forall|i: int|
            0 <= i < len ==> bindings::io_slice_data(#[trigger] final(dst)@[i])
                == list.chunks()[i],
        forall|i: int| len <= i < old(dst)@.len() ==> #[trigger] final(dst)@[i] == old(dst)@[i],
{
}

/// The first chunks fit in slices exactly if each is at most as long as a
/// 32-bit length can say.
pub proof fn law_fits_slices(list: &BytesList, count: usize, fits: bool)
    requires
        call_ensures(BytesList::fits_slices, (list, count), fits),
    ensures
        fits <==> forall|i: int|
            0 <= i < list.chunks().len() && i < count ==> (#[trigger] list.chunks()[i]).len()
                <= 0xffff_ffff,
{
}

} // verus!
