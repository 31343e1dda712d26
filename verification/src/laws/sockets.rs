//! Sockets and codecs from their making to their end.

use std::io::IoSlice;

use vstd::prelude::*;

use crate::bindings;
use crate::protocol::frame::{FrameCodec, FrameSocket, WRITE_SLICES};

verus! {

/// A new codec has read nothing and has nothing to write; one that is made of
/// data read before has that data to begin with.
pub proof fn law_new_codec(codec: FrameCodec, part: Vec<u8>, with_part: FrameCodec)
    requires
        call_ensures(FrameCodec::new, (), codec),
        call_ensures(FrameCodec::from_partially_read, (part,), with_part),
    ensures
        codec.wf() && with_part.wf(),
        codec@.input.unread.len() == 0,
        codec@.input.header is None,
        codec@.queue.len() == 0,
        with_part@.input.unread == part@,
        with_part@.input.header is None,
        with_part@.queue.len() == 0,
        codec.space().len() == 4096,
        with_part.space().len() == 4096,
        forall|i: int| 0 <= i < 4096 ==> #[trigger] codec.space()[i] == 0,
        forall|i: int| 0 <= i < 4096 ==> #[trigger] with_part.space()[i] == 0,
{
}

/// A new socket has its stream, has read nothing and has nothing to write; one
/// that is made of data read before has that data to begin with.
pub proof fn law_new_socket<Stream>(
    stream: Stream,
    socket: FrameSocket<Stream>,
    part: Vec<u8>,
    with_part: FrameSocket<Stream>,
)
    requires
        call_ensures(FrameSocket::<Stream>::new, (stream,), socket),
        call_ensures(FrameSocket::<Stream>::from_partially_read, (stream, part), with_part),
    ensures
        socket.wf() && with_part.wf(),
        socket.inner() == stream,
        socket@.input.unread.len() == 0,
        socket@.input.header is None,
        socket@.queue.len() == 0,
        with_part.inner() == stream,
        with_part@.input.unread == part@,
        with_part@.input.header is None,
        with_part@.queue.len() == 0,
        socket.space().len() == 4096,
        with_part.space().len() == 4096,
        forall|i: int| 0 <= i < 4096 ==> #[trigger] socket.space()[i] == 0,
        forall|i: int| 0 <= i < 4096 ==> #[trigger] with_part.space()[i] == 0,
{
}

/// What a socket was made of can be had back.
pub proof fn law_made_and_unmade<Stream>(
    stream: Stream,
    part: Vec<u8>,
    socket: FrameSocket<Stream>,
    inner: (Stream, Vec<u8>),
    seen: &Stream,
)
    requires
        call_ensures(FrameSocket::<Stream>::from_partially_read, (stream, part), socket),
        call_ensures(FrameSocket::<Stream>::into_inner, (socket,), inner),
        call_ensures(FrameSocket::<Stream>::get_ref, (&socket,), seen),
    ensures
        inner.0 == stream,
        inner.1@ == part@,
        *seen == stream,
{
}

/// At its end a socket hands out its stream and the input that belongs to no
/// frame or header read so far.
pub proof fn law_into_inner<Stream>(socket: FrameSocket<Stream>, inner: (Stream, Vec<u8>))
    requires
        call_ensures(FrameSocket::<Stream>::into_inner, (socket,), inner),
    ensures
        inner.0 == socket.inner(),
        inner.1@ == socket@.input.unread,
{
}

/// The stream that is lent is that of the socket, and nothing else changes.
pub proof fn law_get_mut<Stream>(socket: &mut FrameSocket<Stream>, stream: &mut Stream)
    requires
        call_ensures(FrameSocket::<Stream>::get_mut, (socket,), stream),
    ensures
        *old(stream) == old(socket).inner(),
        final(socket).inner() == *final(stream),
        final(socket)@ == old(socket)@,
        final(socket).space() == old(socket).space(),
        final(socket).wf() == old(socket).wf(),
{
}

/// What is lent for a read is the stream and the space of the socket.
pub proof fn law_read_parts<Stream>(
    socket: &mut FrameSocket<Stream>,
    parts: (&mut Stream, &mut [u8]),
)
    requires
        call_ensures(FrameSocket::<Stream>::read_parts, (socket,), parts),
    ensures
        *old(parts.0) == old(socket).inner(),
        old(parts.1)@ == old(socket).space(),
        final(socket).inner() == *final(parts.0),
        final(socket).space() == final(parts.1)@,
        old(parts.1)@.len() == 4096,
        final(socket)@ == old(socket)@,
        final(socket).wf(),
{
}

/// What is lent for a write is the stream and the first 32 chunks of the queue,
/// or all if there are fewer, in order.
pub proof fn law_write_parts<Stream>(
    socket: &mut FrameSocket<Stream>,
    parts: (&mut Stream, [IoSlice<'_>; WRITE_SLICES], usize),
)
    requires
        call_ensures(FrameSocket::<Stream>::write_parts, (socket,), parts),
    ensures
        *old(parts.0) == old(socket).inner(),
        final(socket).inner() == *final(parts.0),
        final(socket)@ == old(socket)@,
        parts.2 <= 32,
        parts.2 <= old(socket)@.queue.len(),
        parts.2 == 32 || parts.2 == old(socket)@.queue.len(),
        forall|i: int|
            0 <= i < parts.2 ==> bindings::io_slice_data(#[trigger] parts.1@[i])
                == old(socket)@.queue[i],
        forall|i: int|
            parts.2 <= i < 32 ==> bindings::io_slice_data(#[trigger] parts.1@[i]).len() == 0,
        final(socket).space() == old(socket).space(),
        final(socket).wf() == old(socket).wf(),
{
}

/// The first chunk that is lent is that of the queue, and the number of pending
/// bytes is that of all its chunks.
pub proof fn law_pending<Stream>(
    socket: &mut FrameSocket<Stream>,
    parts: (&mut Stream, &[u8]),
    other: &FrameSocket<Stream>,
    len: usize,
    fits: bool,
)
    requires
        call_ensures(FrameSocket::<Stream>::write_front, (socket,), parts),
        call_ensures(FrameSocket::<Stream>::pending_len, (other,), len),
        call_ensures(FrameSocket::<Stream>::fits_slices, (other,), fits),
    ensures
        *old(parts.0) == old(socket).inner(),
        final(socket).inner() == *final(parts.0),
        final(socket)@ == old(socket)@,
        final(socket).space() == old(socket).space(),
        final(socket).wf() == old(socket).wf(),
        old(socket)@.queue.len() > 0 ==> parts.1@ == old(socket)@.queue[0],
        old(socket)@.queue.len() == 0 ==> parts.1@.len() == 0,
        len == other@.queue.flatten().len(),
        fits <==> forall|i: int|
            0 <= i < other@.queue.len() && i < 32 ==> (#[trigger] other@.queue[i]).len()
                <= 0xffff_ffff,
{
}

/// The same of a codec.
pub proof fn law_codec_pending(
    codec: &FrameCodec,
    front: &[u8],
    len: usize,
    fits: bool,
    slices: ([IoSlice<'_>; WRITE_SLICES], usize),
)
    requires
        call_ensures(FrameCodec::front, (codec,), front),
        call_ensures(FrameCodec::pending_len, (codec,), len),
        call_ensures(FrameCodec::fits_slices, (codec,), fits),
        call_ensures(FrameCodec::io_slices, (codec,), slices),
    ensures
        codec@.queue.len() > 0 ==> front@ == codec@.queue[0],
        codec@.queue.len() == 0 ==> front@.len() == 0,
        len == codec@.queue.flatten().len(),
        fits <==> forall|i: int|
            0 <= i < codec@.queue.len() && i < 32 ==> (#[trigger] codec@.queue[i]).len()
                <= 0xffff_ffff,
        slices.1 <= 32,
        slices.1 <= codec@.queue.len(),
        slices.1 == 32 || slices.1 == codec@.queue.len(),
        forall|i: int|
            0 <= i < slices.1 ==> bindings::io_slice_data(#[trigger] slices.0@[i])
                == codec@.queue[i],
        forall|i: int|
            slices.1 <= i < 32 ==> bindings::io_slice_data(#[trigger] slices.0@[i]).len() == 0,
{
}

/// The space that a codec lends is its own, and nothing else changes.
pub proof fn law_codec_read_space(codec: &mut FrameCodec, space: &mut [u8])
    requires
        call_ensures(FrameCodec::read_space, (codec,), space),
    ensures
        old(space)@ == old(codec).space(),
        old(space)@.len() == 4096,
        final(codec).space() == final(space)@,
        final(codec)@ == old(codec)@,
        final(codec).wf(),
{
}

} // verus!
