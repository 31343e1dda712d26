//! Buffers between the frame codec and the network.
//!
//! [`ReadBuffer`] is a buffer of bytes similar to a first-in, first-out queue.
//! It is filled with what was read from a stream and is then accessible as a
//! cursor for reading bytes. [`BytesList`] queues chunks of bytes that are to
//! be written to a stream.

use std::io::{Cursor, IoSlice};

use bytes::Bytes;
use vstd::prelude::*;

use crate::bindings::{
    self,     bytes_advance, bytes_as_slice, bytes_len, cursor_advance, cursor_chunk, cursor_get_mut,
    cursor_into_inner, cursor_new, cursor_position, cursor_remaining, cursor_set_position,
    io_slice_new, vec_drain_front,
};

verus! {

broadcast use vstd::array::group_array_axioms;

/// A FIFO buffer for reading packets from the network.
///
/// Of the stored bytes, those before the cursor have been read; the others are
/// the buffer's [`unread`](ReadBuffer::unread) bytes.
#[derive(Debug)]
pub struct ReadBuffer<const CHUNK_SIZE: usize> {
    storage: Cursor<Vec<u8>>,
    chunk: Box<[u8; CHUNK_SIZE]>,
}

impl<const CHUNK_SIZE: usize> ReadBuffer<CHUNK_SIZE> {
    /// The cursor over the stored bytes.
    pub closed spec fn cursor(self) -> Cursor<Vec<u8>> {
        self.storage
    }

    /// The space that a stream reads into.
    pub closed spec fn space(self) -> Seq<u8> {
        self.chunk@
    }

    /// The stored bytes, those already read included.
    pub open spec fn stored(self) -> Seq<u8> {
        bindings::cursor_data(self.cursor())
    }

    /// The position of the cursor as an index into the stored bytes.
    pub open spec fn consumed(self) -> usize {
        bindings::cursor_offset(self.cursor()) as usize
    }

    /// The cursor does not stand past the end of the stored bytes.
    pub open spec fn wf(self) -> bool {
        bindings::cursor_offset(self.cursor()) <= self.stored().len()
    }

    /// The bytes that have come in and have not been read yet.
    pub open spec fn unread(self) -> Seq<u8> {
        bindings::cursor_rest(self.cursor())
    }

    /// Create a new empty input buffer.
    pub fn new() -> (buffer: Self)
        ensures
            buffer.wf(),
            buffer.stored() == Seq::<u8>::empty(),
            buffer.unread() == Seq::<u8>::empty(),
            buffer.space() == blank(CHUNK_SIZE as nat),
    {
        Self::from_partially_read(Vec::with_capacity(CHUNK_SIZE))
    }

    /// Create a new empty input buffer with a given `capacity`.
    pub fn with_capacity(capacity: usize) -> (buffer: Self)
        requires
            capacity <= isize::MAX,
        ensures
            buffer.wf(),
            buffer.stored() == Seq::<u8>::empty(),
            buffer.unread() == Seq::<u8>::empty(),
            buffer.space() == blank(CHUNK_SIZE as nat),
    {
        Self::from_partially_read(Vec::with_capacity(capacity))
    }

    /// Create a input buffer filled with previously read data.
    pub fn from_partially_read(part: Vec<u8>) -> (buffer: Self)
        ensures
            buffer.wf(),
            buffer.stored() == part@,
            buffer.unread() == part@,
            buffer.space() == blank(CHUNK_SIZE as nat),
    {
        Self { storage: cursor_new(part), chunk: Box::new([0; CHUNK_SIZE]) }
    }

    /// Get a cursor to the data storage.
    pub fn as_cursor(&self) -> (cursor: &Cursor<Vec<u8>>)
        ensures
            *cursor == self.cursor(),
    {
        &self.storage
    }

    /// Get a cursor to the mutable data storage.
    pub fn as_cursor_mut(&mut self) -> (cursor: &mut Cursor<Vec<u8>>)
        ensures
            *cursor == old(self).cursor(),
            final(self).cursor() == *final(cursor),
            final(self).space() == old(self).space(),
    {
        &mut self.storage
    }

    /// Consume the `ReadBuffer` and get the bytes that have not been read.
    pub fn into_vec(self) -> (rest: Vec<u8>)
        requires
            self.consumed() <= self.stored().len(),
        ensures
            rest@ == self.stored().skip(self.consumed() as int),
            self.wf() ==> rest@ == self.unread(),
    {
        let mut buffer = self;
        // What the cursor has passed is dropped.
        buffer.clean_up();
        cursor_into_inner(buffer.storage)
    }

    /// The space that the next portion of data is to be read into.
    pub fn read_space(&mut self) -> (space: &mut [u8])
        ensures
            space@ == old(self).space(),
            space@.len() == CHUNK_SIZE,
            final(self).space() == final(space)@,
            final(self).space().len() == CHUNK_SIZE,
            final(self).cursor() == old(self).cursor(),
    {
        let chunk: &mut [u8; CHUNK_SIZE] = &mut *self.chunk;
        chunk
    }

    /// Take in the next portion of data, which a stream has read into the
    /// [`read_space`](ReadBuffer::read_space): `read` is what the read gave back.
    pub fn read_from<E>(&mut self, read: Result<usize, E>) -> (result: Result<usize, E>)
        requires
            old(self).consumed() <= old(self).stored().len(),
            read matches Ok(size) ==> size <= old(self).space().len(),
        ensures
            result == read,
            final(self).wf(),
            final(self).space() == old(self).space(),
            final(self).unread() == final(self).stored(),
            final(self).stored() == old(self).stored().skip(old(self).consumed() as int) + received(
                old(self).space(),
                read,
            ),
            old(self).wf() ==> final(self).unread() == old(self).unread() + received(
                old(self).space(),
                read,
            ),
    {
        self.clean_up();
        match read {
            Ok(size) => {
                let chunk: &[u8] = &*self.chunk;
                let portion = vstd::slice::slice_subrange(chunk, 0, size);
                cursor_get_mut(&mut self.storage).extend_from_slice(portion);
                Ok(size)
            },
            Err(error) => Err(error),
        }
    }

    /// Cleans up the part of the vector that has been already read by the cursor.
    fn clean_up(&mut self)
        requires
            old(self).consumed() <= old(self).stored().len(),
        ensures
            final(self).stored() == old(self).stored().skip(old(self).consumed() as int),
            old(self).wf() ==> final(self).stored() == old(self).unread(),
            bindings::cursor_offset(final(self).cursor()) == 0,
            final(self).space() == old(self).space(),
    {
        let pos: usize = cursor_position(&self.storage) as usize;
        let data = cursor_get_mut(&mut self.storage);
        assert(data@.len() == data.len());
        vec_drain_front(data, pos);
        cursor_set_position(&mut self.storage, 0);
    }

    /// The number of bytes that have not been read yet.
    pub fn remaining(&self) -> (remaining: usize)
        ensures
            remaining == self.unread().len(),
    {
        cursor_remaining(self.as_cursor())
    }

    /// The bytes that have not been read yet.
    pub fn chunk(&self) -> (chunk: &[u8])
        ensures
            chunk@ == self.unread(),
    {
        cursor_chunk(self.as_cursor())
    }

    /// Moves the cursor past the next `cnt` bytes.
    pub fn advance(&mut self, cnt: usize)
        requires
            cnt <= old(self).unread().len(),
        ensures
            final(self).stored() == old(self).stored(),
            bindings::cursor_offset(final(self).cursor())
                == bindings::cursor_offset(old(self).cursor()) + cnt,
            final(self).unread() == old(self).unread().skip(cnt as int),
            final(self).wf() == old(self).wf(),
            final(self).space() == old(self).space(),
    {
        cursor_advance(self.as_cursor_mut(), cnt)
    }
}

/// Space of `size` bytes into which nothing has been read.
pub open spec fn blank(size: nat) -> Seq<u8> {
    Seq::new(size, |i: int| 0u8)
}

/// What a read has put into `space`: nothing if it failed.
pub open spec fn received<E>(space: Seq<u8>, read: Result<usize, E>) -> Seq<u8> {
    match read {
        Ok(size) => space.take(size as int),
        Err(_) => Seq::empty(),
    }
}

impl<const CHUNK_SIZE: usize> Default for ReadBuffer<CHUNK_SIZE> {
    fn default() -> (buffer: Self)
        ensures
            buffer.wf(),
            buffer.stored() == Seq::<u8>::empty(),
            buffer.unread() == Seq::<u8>::empty(),
            buffer.space() == blank(CHUNK_SIZE as nat),
    {
        Self::new()
    }
}

/// What is done to a buffer.
pub enum BufferOp {
    /// Bytes come in at the end, as with [`ReadBuffer::read_from`] and
    /// [`BytesList::push`].
    Append(Seq<u8>),
    /// Bytes go out at the front, as with [`ReadBuffer::advance`] and
    /// [`BytesList::advance`].
    Advance(nat),
}

/// All that comes in with `ops`.
pub open spec fn appended(ops: Seq<BufferOp>) -> Seq<u8>
    decreases ops.len(),
{
    if ops.len() == 0 {
        Seq::empty()
    } else {
        (match ops[0] {
            BufferOp::Append(bytes) => bytes,
            BufferOp::Advance(_) => Seq::empty(),
        }) + appended(ops.drop_first())
    }
}

/// What has gone out of a buffer that holds `held`, and what it holds then,
/// after `ops`. There is no result if more was to go out than was there.
pub open spec fn run_ops(held: Seq<u8>, ops: Seq<BufferOp>) -> Option<(Seq<u8>, Seq<u8>)>
    decreases ops.len(),
{
    if ops.len() == 0 {
        Some((Seq::empty(), held))
    } else {
        match ops[0] {
            BufferOp::Append(bytes) => run_ops(held + bytes, ops.drop_first()),
            BufferOp::Advance(cnt) => if cnt <= held.len() {
                match run_ops(held.skip(cnt as int), ops.drop_first()) {
                    Some((out, left)) => Some((held.take(cnt as int) + out, left)),
                    None => None,
                }
            } else {
                None
            },
        }
    }
}

/// The buffers are first-in, first-out: what has gone out, followed by what is
/// held, is what was held at first, followed by all that came in.
pub proof fn law_fifo(held: Seq<u8>, ops: Seq<BufferOp>)
    ensures
        run_ops(held, ops) matches Some((out, left)) ==> out + left == held + appended(ops),
    decreases ops.len(),
{
    if ops.len() == 0 {
        assert(Seq::<u8>::empty() + held =~= held + appended(ops));
    } else {
        let rest = ops.drop_first();
        match ops[0] {
            BufferOp::Append(bytes) => {
                law_fifo(held + bytes, rest);
                assert(held + bytes + appended(rest) =~= held + appended(ops));
            },
            BufferOp::Advance(cnt) => {
                if cnt <= held.len() {
                    law_fifo(held.skip(cnt as int), rest);
                    if let Some((out, left)) = run_ops(held.skip(cnt as int), rest) {
                        assert(held.take(cnt as int) + out + left =~= held.take(cnt as int) + (out
                            + left));
                        assert(held.take(cnt as int) + (held.skip(cnt as int) + appended(rest))
                            =~= held + appended(ops));
                    }
                }
            },
        }
    }
}

/// What each of `list` holds.
pub open spec fn chunk_data(list: Seq<Bytes>) -> Seq<Seq<u8>> {
    list.map_values(|bytes: Bytes| bindings::bytes_data(bytes))
}

/// None of the first `count` chunks is too long for an `IoSlice`.
pub open spec fn sliceable(chunks: Seq<Seq<u8>>, count: nat) -> bool {
    forall|i: int|
        0 <= i < chunks.len() && i < count ==> (#[trigger] chunks[i]).len() <= u32::MAX
}

/// What is left of a list of chunks when `cnt` bytes have been dropped from
/// its front. A chunk goes as soon as all its bytes are dropped; an empty
/// chunk goes with bytes that come after it.
pub open spec fn drop_bytes(chunks: Seq<Seq<u8>>, cnt: nat) -> Seq<Seq<u8>>
    decreases chunks.len(),
{
    if cnt == 0 || chunks.len() == 0 {
        chunks
    } else if cnt < chunks[0].len() {
        chunks.update(0, chunks[0].skip(cnt as int))
    } else {
        drop_bytes(chunks.drop_first(), (cnt - chunks[0].len()) as nat)
    }
}

/// Dropping bytes from a list of chunks drops them from the bytes in a row.
pub proof fn lemma_drop_bytes(chunks: Seq<Seq<u8>>, cnt: nat)
    requires
        cnt <= chunks.flatten().len(),
    ensures
        drop_bytes(chunks, cnt).flatten() == chunks.flatten().skip(cnt as int),
    decreases chunks.len(),
{
    if cnt == 0 || chunks.len() == 0 {
        assert(chunks.flatten().skip(0) =~= chunks.flatten());
    } else if cnt < chunks[0].len() {
        let left = chunks.update(0, chunks[0].skip(cnt as int));
        assert(left.drop_first() =~= chunks.drop_first());
        assert(left.flatten() =~= chunks.flatten().skip(cnt as int));
    } else {
        let rest = chunks.drop_first();
        lemma_drop_bytes(rest, (cnt - chunks[0].len()) as nat);
        assert(rest.flatten().skip(cnt - chunks[0].len()) =~= chunks.flatten().skip(cnt as int));
    }
}

/// Represents a list of chained `Bytes`, and gives access to the entire sequence.
#[derive(Debug)]
pub struct BytesList {
    list: Vec<Bytes>,
    len: usize,
}

impl BytesList {
    /// What the chunks of the list hold, one by one.
    pub closed spec fn chunks(self) -> Seq<Seq<u8>> {
        chunk_data(self.list@)
    }

    /// The bytes of all chunks in a row.
    pub open spec fn contents(self) -> Seq<u8> {
        self.chunks().flatten()
    }

    /// The recorded length is that of the contents.
    pub closed spec fn wf(self) -> bool {
        self.len == self.contents().len()
    }

    /// Pushes a chunk to the end of the list.
    pub fn push(&mut self, bytes: Bytes)
        requires
            old(self).wf(),
            old(self).contents().len() + bindings::bytes_data(bytes).len() <= usize::MAX,
        ensures
            final(self).wf(),
            final(self).chunks() == old(self).chunks().push(bindings::bytes_data(bytes)),
            final(self).contents() == old(self).contents() + bindings::bytes_data(bytes),
    {
        proof {
            old(self).chunks().lemma_flatten_push(bindings::bytes_data(bytes));
        }
        self.len = self.len + bytes_len(&bytes);
        self.list.push(bytes);
        assert(self.chunks() =~= old(self).chunks().push(bindings::bytes_data(bytes)));
    }

    /// The number of bytes in the list.
    pub fn remaining(&self) -> (remaining: usize)
        requires
            self.wf(),
        ensures
            remaining == self.contents().len(),
    {
        self.len
    }

    /// The first chunk; an empty slice if there is none.
    pub fn chunk(&self) -> (chunk: &[u8])
        ensures
            chunk@ == (if self.chunks().len() > 0 {
                self.chunks()[0]
            } else {
                Seq::<u8>::empty()
            }),
    {
        if self.list.len() > 0 {
            bytes_as_slice(&self.list[0])
        } else {
            &[]
        }
    }

    /// None of the first `count` chunks is too long for an `IoSlice`.
    pub fn fits_slices(&self, count: usize) -> (fits: bool)
        ensures
            fits == sliceable(self.chunks(), count as nat),
    {
        let mut idx: usize = 0;
        while idx < self.list.len() && idx < count
            invariant
                idx <= self.list.len(),
                idx <= count,
                sliceable(self.chunks(), idx as nat),
            decreases self.list.len() - idx,
        {
            if bytes_len(&self.list[idx]) > u32::MAX as usize {
                assert(self.chunks()[idx as int].len() > u32::MAX);
                return false;
            }
            idx = idx + 1;
        }
        true
    }

    /// Lets the slices in `dst` point to the chunks of the list, from its front
    /// on, and returns how many do.
    pub fn chunks_vectored<'a>(&'a self, dst: &mut [IoSlice<'a>]) -> (len: usize)
        requires
            sliceable(self.chunks(), old(dst)@.len()),
        ensures
            len == (if self.chunks().len() <= old(dst)@.len() {
                self.chunks().len()
            } else {
                old(dst)@.len()
            }),
            final(dst)@.len() == old(dst)@.len(),
            forall|i: int|
                0 <= i < len ==> bindings::io_slice_data(#[trigger] final(dst)@[i])
                    == self.chunks()[i],
            forall|i: int| len <= i < old(dst)@.len() ==> final(dst)@[i] == old(dst)@[i],
    {
        let mut len: usize = 0;
        while len < self.list.len() && len < dst.len()
            invariant
                len <= self.list.len(),
                len <= dst@.len(),
                dst@.len() == old(dst)@.len(),
                sliceable(self.chunks(), old(dst)@.len()),
                forall|i: int|
                    0 <= i < len ==> bindings::io_slice_data(#[trigger] dst@[i])
                        == self.chunks()[i],
                forall|i: int| len <= i < dst@.len() ==> dst@[i] == old(dst)@[i],
            decreases self.list.len() - len,
        {
            assert(self.chunks()[len as int].len() <= u32::MAX);
            dst[len] = io_slice_new(bytes_as_slice(&self.list[len]));
            len = len + 1;
        }
        len
    }

    /// Drops the next `cnt` bytes, and each chunk of which nothing is left.
    pub fn advance(&mut self, cnt: usize)
        requires
            old(self).wf(),
            cnt <= old(self).contents().len(),
        ensures
            final(self).wf(),
            final(self).chunks() == drop_bytes(old(self).chunks(), cnt as nat),
            final(self).contents() == old(self).contents().skip(cnt as int),
    {
        proof {
            lemma_drop_bytes(self.chunks(), cnt as nat);
        }
        let ghost target = drop_bytes(self.chunks(), cnt as nat);
        let mut cnt: usize = cnt;
        let mut idx: usize = 0;
        assert(self.chunks().skip(0) =~= self.chunks());
        while cnt > 0
            invariant_except_break
                drop_bytes(self.chunks().skip(idx as int), cnt as nat) == target,
                cnt <= self.len,
            invariant
                idx <= self.list.len(),
                self.len == self.chunks().skip(idx as int).flatten().len(),
            ensures
                self.chunks().skip(idx as int) == target,
            decreases self.list@.len() - idx,
        {
            let ghost left = self.chunks().skip(idx as int);
            assert(left.drop_first() =~= self.chunks().skip(idx + 1));
            let len: usize = bytes_len(&self.list[idx]);
            if cnt < len {
                bytes_advance(&mut self.list[idx], cnt);
                self.len = self.len - cnt;
                assert(self.chunks().skip(idx as int) =~= target);
                proof {
                    lemma_drop_bytes(left, cnt as nat);
                }
                break ;
            } else {
                idx = idx + 1;
                self.len = self.len - len;
                cnt = cnt - len;
            }
        }
        if idx > 0 {
            let ghost list = self.list@;
            vec_drain_front(&mut self.list, idx);
            assert(self.chunks() =~= chunk_data(list).skip(idx as int));
        } else {
            assert(self.chunks().skip(0) =~= self.chunks());
        }
    }
}

impl Default for BytesList {
    fn default() -> (list: Self)
        ensures
            list.wf(),
            list.chunks() == Seq::<Seq<u8>>::empty(),
            list.contents() == Seq::<u8>::empty(),
    {
        let list = BytesList { list: Vec::new(), len: 0 };
        assert(list.chunks() =~= Seq::<Seq<u8>>::empty());
        list
    }
}

} // verus!
