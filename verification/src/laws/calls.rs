//! What may be asked for: the calls that are in order.

use std::io::Cursor;

use bytes::{Bytes, BytesMut};
use vstd::prelude::*;

use crate::bindings;
use crate::buffer::{BytesList, ReadBuffer};
use crate::protocol::frame::coding::{self, OpCode};
use crate::protocol::frame::frame::{Frame, FrameHeader, PreparedFrame};
use crate::protocol::frame::mask;
use crate::protocol::frame::{FrameCodec, FrameSocket, ReadEvent, WriteEvent};

verus! {

/// A codec can be asked for a frame at any time, with any limit. It can be told
/// of any read that did not give more bytes than there was space for, a failed
/// one too.
pub proof fn law_may_read(codec: &mut FrameCodec, max_size: Option<usize>, event: ReadEvent)
    requires
        codec.wf(),
        event matches ReadEvent::Received(Ok(size)) ==> size <= codec.space().len(),
    ensures
        call_requires(FrameCodec::read_frame, (codec, max_size, event)),
{
}

/// The same of a socket.
pub proof fn law_socket_may_read<Stream>(
    socket: &mut FrameSocket<Stream>,
    max_size: Option<usize>,
    event: ReadEvent,
)
    requires
        socket.wf(),
        event matches ReadEvent::Received(Ok(size)) ==> size <= socket.space().len(),
    ensures
        call_requires(FrameSocket::<Stream>::read_frame, (socket, max_size, event)),
{
}

/// A codec can be told of any write that did not take more bytes than were
/// pending, and of any flush.
pub proof fn law_may_write(codec: &mut FrameCodec, event: WriteEvent)
    requires
        codec.wf(),
        event matches WriteEvent::Written(Ok(len)) ==> len <= codec@.queue.flatten().len(),
    ensures
        call_requires(FrameCodec::write_pending, (codec, event)),
{
}

/// The same of a socket.
pub proof fn law_socket_may_write<Stream>(socket: &mut FrameSocket<Stream>, event: WriteEvent)
    requires
        socket.wf(),
        event matches WriteEvent::Written(Ok(len)) ==> len <= socket@.queue.flatten().len(),
    ensures
        call_requires(FrameSocket::<Stream>::write_pending, (socket, event)),
{
}

/// Any frame can be queued, as long as an allocation can hold it on the wire and
/// the number of pending bytes stays a `usize`. A header has at most 14 bytes.
pub proof fn law_may_queue(codec: &mut FrameCodec, sent: Frame, prepared: &PreparedFrame)
    requires
        codec.wf(),
        sent@.payload.len() + 14 <= isize::MAX,
        codec@.queue.flatten().len() + sent@.payload.len() + 14 <= usize::MAX,
        codec@.queue.flatten().len() + prepared.wire_header().len()
            + prepared.wire_payload().len() <= usize::MAX,
    ensures
        call_requires(FrameCodec::write_frame, (codec, sent)),
        call_requires(FrameCodec::write_prepared_frame, (codec, prepared)),
        call_requires(Frame::len, (&sent,)),
        call_requires(PreparedFrame::new, (sent,)),
{
    lemma_frame_size(sent);
}

/// The same of a socket.
pub proof fn law_socket_may_queue<Stream>(
    socket: &mut FrameSocket<Stream>,
    sent: Frame,
    prepared: &PreparedFrame,
)
    requires
        socket.wf(),
        sent@.payload.len() + 14 <= isize::MAX,
        socket@.queue.flatten().len() + sent@.payload.len() + 14 <= usize::MAX,
        socket@.queue.flatten().len() + prepared.wire_header().len()
            + prepared.wire_payload().len() <= usize::MAX,
    ensures
        call_requires(FrameSocket::<Stream>::write_frame, (socket, sent)),
        call_requires(FrameSocket::<Stream>::write_prepared_frame, (socket, prepared)),
{
    lemma_frame_size(sent);
}

/// A header can be read off any bytes. A header and a frame can be written as
/// long as an allocation can hold what was there and what is written, and any
/// payload can be masked.
pub proof fn law_may_code(
    cursor: &mut Cursor<Vec<u8>>,
    header: &FrameHeader,
    length: u64,
    output: &mut BytesMut,
    sent: Frame,
    payload: &mut Vec<u8>,
    key: [u8; 4],
    code: u8,
)
    requires
        bindings::bytes_mut_data(*output).len() + sent@.payload.len() + 14 <= isize::MAX,
    ensures
        call_requires(FrameHeader::parse, (cursor,)),
        call_requires(FrameHeader::len, (header, length)),
        call_requires(FrameHeader::format, (header, length, output)),
        call_requires(Frame::format, (sent, output)),
        call_requires(mask::apply_mask, (payload, key)),
        call_requires(OpCode::from_code, (code,)),
        call_requires(OpCode::to_code, (header.opcode,)),
{
    lemma_frame_size(sent);
    coding::lemma_be_bytes_len(
        length as nat,
        crate::protocol::frame::frame::length_size(
            crate::protocol::frame::frame::short_length(length),
        ),
    );
}

/// A buffer can take in any read that did not give more bytes than there was
/// space for, as long as its cursor does not stand past its end. It can be
/// advanced by as many bytes as are left.
pub proof fn law_may_fill<const CHUNK_SIZE: usize, E>(
    buffer: &mut ReadBuffer<CHUNK_SIZE>,
    read: Result<usize, E>,
    cnt: usize,
)
    requires
        buffer.wf(),
        buffer.stored().len() <= usize::MAX,
        read matches Ok(size) ==> size <= buffer.space().len(),
        cnt <= buffer.unread().len(),
    ensures
        call_requires(ReadBuffer::<CHUNK_SIZE>::read_from::<E>, (buffer, read)),
        call_requires(ReadBuffer::<CHUNK_SIZE>::advance, (buffer, cnt)),
        call_requires(ReadBuffer::<CHUNK_SIZE>::into_vec, (*old(buffer),)),
{
}

/// Any chunk can be pushed to a list as long as the number of its bytes stays a
/// `usize`, and the list can be advanced by as many bytes as it has.
pub proof fn law_may_queue_bytes(list: &mut BytesList, bytes: Bytes, cnt: usize)
    requires
        list.wf(),
        list.chunks().flatten().len() + bindings::bytes_data(bytes).len() <= usize::MAX,
        cnt <= list.chunks().flatten().len(),
    ensures
        call_requires(BytesList::push, (list, bytes)),
        call_requires(BytesList::advance, (list, cnt)),
{
}

proof fn lemma_frame_size(sent: Frame)
    ensures
        crate::protocol::frame::frame::frame_bytes(sent@).len() <= sent@.payload.len() + 14,
{
    let length = sent@.payload.len() as u64;
    coding::lemma_be_bytes_len(
        length as nat,
        crate::protocol::frame::frame::length_size(
            crate::protocol::frame::frame::short_length(length),
        ),
    );
}

} // verus!
