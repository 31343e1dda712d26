//! Utilities to work with raw WebSocket frames.
//!
//! The codec does no I/O. Where it needs some, it returns an action that says
//! what is to be done; the caller does it and hands the outcome back as an
//! event, until the action is to return.

pub mod coding;
#[allow(clippy::module_inception)]
pub mod frame;
pub mod laws;
pub mod mask;

use std::io::IoSlice;

use bytes::{Bytes, BytesMut};
use vstd::prelude::*;

pub use self::frame::{Frame, FrameHeader, PreparedFrame};
use crate::bindings::{
    self, bytes_clone, bytes_len, bytes_mut_freeze, bytes_mut_new, bytes_mut_reserve, bytes_mut_split,
    cursor_get_ref, cursor_position, cursor_set_position, io_slice_new,
};
use crate::buffer::{self, BytesList};
use crate::error::{CapacityError, Error, ProtocolError};
use crate::ReadBuffer;

verus! {

broadcast use vstd::array::group_array_axioms;

/// How many chunks are offered to the stream in one write.
pub const WRITE_SLICES: usize = 32;

/// What has become of the input.
#[verifier::ext_equal]
pub struct ReadState {
    /// The bytes that came in and do not belong to a frame or header read so
    /// far.
    pub unread: Seq<u8>,
    /// The header of the frame that is being read, and the length of its
    /// payload.
    pub header: Option<(FrameHeader, u64)>,
}

/// What the input comes to.
pub enum Attempt {
    /// The frame is not complete.
    NeedInput,
    /// A frame.
    Complete(frame::FrameView),
    /// A frame with a reserved opcode.
    InvalidOpcode(u8),
    /// A frame with a payload of this length, which is more than it may be.
    TooLong(u64),
}

/// Takes the payload off the front of `rest`, when the header has been read.
pub open spec fn take_payload(
    rest: Seq<u8>,
    header: FrameHeader,
    length: u64,
    max_size: usize,
) -> (ReadState, Attempt) {
    if length > max_size {
        (ReadState { unread: rest, header: Some((header, length)) }, Attempt::TooLong(length))
    } else if length <= rest.len() {
        (
            ReadState { unread: rest.skip(length as int), header: None },
            Attempt::Complete(frame::FrameView { header, payload: rest.take(length as int) }),
        )
    } else {
        (ReadState { unread: rest, header: Some((header, length)) }, Attempt::NeedInput)
    }
}

/// Takes a frame off the front of the input.
pub open spec fn take_frame(state: ReadState, max_size: usize) -> (ReadState, Attempt) {
    match state.header {
        Some((header, length)) => take_payload(state.unread, header, length, max_size),
        None => match frame::decode_header(state.unread) {
            frame::HeaderParse::Incomplete => (state, Attempt::NeedInput),
            frame::HeaderParse::Invalid { code, size } => (
                ReadState { unread: state.unread.skip(size as int), header: None },
                Attempt::InvalidOpcode(code),
            ),
            frame::HeaderParse::Complete { header, length, size } => take_payload(
                state.unread.skip(size as int),
                header,
                length,
                max_size,
            ),
        },
    }
}

/// The largest payload that a frame may have.
pub open spec fn size_limit(max_size: Option<usize>) -> usize {
    match max_size {
        Some(size) => size,
        None => usize::MAX,
    }
}

/// What happened to the input stream.
#[derive(Debug)]
pub enum ReadEvent {
    /// A frame is asked for.
    Begin,
    /// The stream was read once, into the space that the codec offers.
    Received(Result<usize, std::io::Error>),
}

/// What is to be done next to read a frame.
#[derive(Debug)]
pub enum ReadAction {
    /// Read from the stream once, into the space that the codec offers.
    Read,
    /// Return this result. Without a frame, the stream has come to its end.
    Return(Result<Option<Frame>, Error>),
}

/// What happened to the output stream.
#[derive(Debug)]
pub enum WriteEvent {
    /// The pending chunks are to be written.
    Begin,
    /// The chunks that the codec offers were written once.
    Written(Result<usize, std::io::Error>),
    /// The stream was flushed.
    Flushed(Result<(), std::io::Error>),
}

/// What is to be done next to write what is pending.
#[derive(Debug)]
pub enum WriteAction {
    /// Write the chunks that the codec offers to the stream once.
    Write,
    /// Flush the stream.
    Flush,
    /// Return this result.
    Return(Result<(), Error>),
}

/// The action that follows from what the input comes to.
pub open spec fn reports(action: ReadAction, attempt: Attempt, max_size: usize) -> bool {
    match attempt {
        Attempt::NeedInput => action == ReadAction::Read,
        Attempt::Complete(view) => {
            action matches ReadAction::Return(Ok(Some(frame))) && frame@ == view
        },
        Attempt::InvalidOpcode(code) => action == ReadAction::Return(
            Err(Error::Protocol(ProtocolError::InvalidOpcode(code))),
        ),
        Attempt::TooLong(length) => action == ReadAction::Return(
            Err(
                Error::Capacity(
                    CapacityError::MessageTooLong { size: length as usize, max_size },
                ),
            ),
        ),
    }
}

/// The input with `bytes` at its end.
pub open spec fn feed(state: ReadState, bytes: Seq<u8>) -> ReadState {
    ReadState { unread: state.unread + bytes, header: state.header }
}

/// What has become of the input after `event`, given what stands in the space
/// that the stream reads into.
pub open spec fn input_after(
    input: ReadState,
    space: Seq<u8>,
    max_size: usize,
    event: ReadEvent,
) -> ReadState {
    match event {
        ReadEvent::Begin => take_frame(input, max_size).0,
        ReadEvent::Received(Ok(size)) => if size == 0 {
            input
        } else {
            take_frame(feed(input, space.take(size as int)), max_size).0
        },
        ReadEvent::Received(Err(_)) => input,
    }
}

/// The action that follows from `event`.
pub open spec fn read_reports(
    action: ReadAction,
    input: ReadState,
    space: Seq<u8>,
    max_size: usize,
    event: ReadEvent,
) -> bool {
    match event {
        ReadEvent::Begin => reports(action, take_frame(input, max_size).1, max_size),
        ReadEvent::Received(Ok(size)) => if size == 0 {
            action == ReadAction::Return(Ok(None))
        } else {
            reports(
                action,
                take_frame(feed(input, space.take(size as int)), max_size).1,
                max_size,
            )
        },
        ReadEvent::Received(Err(error)) => action == ReadAction::Return(Err(Error::Io(error))),
    }
}

/// The action that follows from what is pending.
pub open spec fn next_write(queue: Seq<Seq<u8>>) -> WriteAction {
    if queue.len() == 0 {
        WriteAction::Flush
    } else {
        WriteAction::Write
    }
}

/// What is pending when `bytes` have been queued: they are a chunk of their
/// own, unless there are none.
pub open spec fn push_bytes(queue: Seq<Seq<u8>>, bytes: Seq<u8>) -> Seq<Seq<u8>> {
    if bytes.len() == 0 {
        queue
    } else {
        queue.push(bytes)
    }
}

/// No chunk of the queue is empty.
pub open spec fn no_empty_chunk(queue: Seq<Seq<u8>>) -> bool {
    forall|i: int| 0 <= i < queue.len() ==> (#[trigger] queue[i]).len() > 0
}

/// The state of the codec.
#[verifier::ext_equal]
pub struct CodecView {
    /// What has become of the input.
    pub input: ReadState,
    /// The chunks that are to be written.
    pub queue: Seq<Seq<u8>>,
}

/// A codec for WebSocket frames.
#[derive(Debug)]
pub struct FrameCodec {
    /// Buffer to read data from the stream.
    in_buffer: ReadBuffer,
    /// Queue of buffers to write to the stream.
    /// Can contain a mix of slices from scratch_buffer and PreparedFrames.
    out_buffer: BytesList,
    /// Buffer used to prepare frames to write to the stream.
    /// As slices are released from out_buffer, BytesMut should be able to reuse allocations.
    scratch_buffer: BytesMut,
    /// Header and remaining size of the incoming packet being processed.
    header: Option<(FrameHeader, u64)>,
}

impl View for FrameCodec {
    type V = CodecView;

    closed spec fn view(&self) -> CodecView {
        CodecView {
            input: ReadState { unread: self.in_buffer.unread(), header: self.header },
            queue: self.out_buffer.chunks(),
        }
    }
}

impl FrameCodec {
    /// The buffers are well-formed, no chunk that is to be written is empty, and
    /// the scratch buffer is empty between calls.
    pub closed spec fn wf(self) -> bool {
        &&& self.in_buffer.wf()
        &&& self.out_buffer.wf()
        &&& no_empty_chunk(self.out_buffer.chunks())
        &&& bindings::bytes_mut_data(self.scratch_buffer) == Seq::<u8>::empty()
    }

    /// The space that the stream reads into.
    pub closed spec fn space(self) -> Seq<u8> {
        self.in_buffer.space()
    }

    /// A codec never has an empty chunk to write.
    pub proof fn law_no_empty_chunk(self)
        requires
            self.wf(),
        ensures
            no_empty_chunk(self@.queue),
    {
    }

    /// Create a new frame codec.
    pub fn new() -> (codec: Self)
        ensures
            codec.wf(),
            codec@.input == (ReadState { unread: Seq::empty(), header: None }),
            codec@.queue == Seq::<Seq<u8>>::empty(),
            codec.space() == buffer::blank(crate::READ_BUFFER_CHUNK_SIZE as nat),
    {
        Self {
            in_buffer: ReadBuffer::new(),
            out_buffer: BytesList::default(),
            scratch_buffer: bytes_mut_new(),
            header: None,
        }
    }

    /// Create a new frame codec from partially read data.
    pub fn from_partially_read(part: Vec<u8>) -> (codec: Self)
        ensures
            codec.wf(),
            codec@.input == (ReadState { unread: part@, header: None }),
            codec@.queue == Seq::<Seq<u8>>::empty(),
            codec.space() == buffer::blank(crate::READ_BUFFER_CHUNK_SIZE as nat),
    {
        Self {
            in_buffer: ReadBuffer::from_partially_read(part),
            out_buffer: BytesList::default(),
            scratch_buffer: bytes_mut_new(),
            header: None,
        }
    }

    /// Take a frame off the front of the buffered input.
    fn take_frame(&mut self, max_size: usize) -> (action: ReadAction)
        requires
            old(self).wf(),
        ensures
            final(self).wf(),
            final(self).space() == old(self).space(),
            final(self)@.queue == old(self)@.queue,
            final(self)@.input == take_frame(old(self)@.input, max_size).0,
            reports(action, take_frame(old(self)@.input, max_size).1, max_size),
    {
        let cursor = self.in_buffer.as_cursor_mut();
        if self.header.is_none() {
            match FrameHeader::parse(cursor) {
                Ok(header) => {
                    self.header = header;
                },
                Err(error) => {
                    return ReadAction::Return(Err(error));
                },
            }
        }
        match self.header {
            Some((header, length)) => {
                // Enforce frame size limit early and make sure `length`
                // is not too big (fits into `usize`).
                if length > max_size as u64 {
                    return ReadAction::Return(
                        Err(
                            Error::Capacity(
                                CapacityError::MessageTooLong { size: length as usize, max_size },
                            ),
                        ),
                    );
                }
                let ghost rest = bindings::cursor_rest(*cursor);
                let start: u64 = cursor_position(cursor);
                let input_size: u64 = cursor_get_ref(cursor).len() as u64 - start;
                if length <= input_size {
                    // No truncation here since `length` is checked above.
                    let end: u64 = start + length;
                    let payload = vstd::slice::slice_to_vec(
                        vstd::slice::slice_subrange(
                            cursor_get_ref(cursor).as_slice(),
                            start as usize,
                            end as usize,
                        ),
                    );
                    assert(payload@ =~= rest.take(length as int));
                    cursor_set_position(cursor, end);
                    self.header = None;
                    ReadAction::Return(Ok(Some(Frame::from_payload(header, payload))))
                } else {
                    ReadAction::Read
                }
            },
            None => ReadAction::Read,
        }
    }

    /// Read a frame.
    pub fn read_frame(&mut self, max_size: Option<usize>, event: ReadEvent) -> (action: ReadAction)
        requires
            old(self).wf(),
            event matches ReadEvent::Received(Ok(size)) ==> size <= old(self).space().len(),
        ensures
            final(self).wf(),
            final(self).space() == old(self).space(),
            final(self)@.queue == old(self)@.queue,
            final(self)@.input == input_after(
                old(self)@.input,
                old(self).space(),
                size_limit(max_size),
                event,
            ),
            read_reports(
                action,
                old(self)@.input,
                old(self).space(),
                size_limit(max_size),
                event,
            ),
    {
        let max_size: usize = match max_size {
            Some(size) => size,
            None => usize::MAX,
        };
        match event {
            ReadEvent::Begin => self.take_frame(max_size),
            ReadEvent::Received(read) => {
                // There was not enough data in the buffer.
                match self.in_buffer.read_from(read) {
                    Ok(size) => {
                        if size == 0 {
                            ReadAction::Return(Ok(None))
                        } else {
                            self.take_frame(max_size)
                        }
                    },
                    Err(error) => ReadAction::Return(Err(Error::Io(error))),
                }
            },
        }
    }

    /// The space that the stream is to be read into.
    pub fn read_space(&mut self) -> (space: &mut [u8])
        requires
            old(self).wf(),
        ensures
            space@ == old(self).space(),
            space@.len() == crate::READ_BUFFER_CHUNK_SIZE,
            final(self).space() == final(space)@,
            final(self).space().len() == crate::READ_BUFFER_CHUNK_SIZE,
            final(self).wf(),
            final(self)@ == old(self)@,
    {
        self.in_buffer.read_space()
    }

    /// The number of bytes that are to be written.
    pub fn pending_len(&self) -> (len: usize)
        requires
            self.wf(),
        ensures
            len == self@.queue.flatten().len(),
    {
        self.out_buffer.remaining()
    }

    /// Write a frame: queue it, and go on to write what is pending.
    pub fn write_frame(&mut self, frame: Frame) -> (action: WriteAction)
        requires
            old(self).wf(),
            frame::frame_bytes(frame@).len() <= isize::MAX,
            old(self)@.queue.flatten().len() + frame::frame_bytes(frame@).len() <= usize::MAX,
        ensures
            final(self).wf(),
            final(self).space() == old(self).space(),
            final(self)@.input == old(self)@.input,
            final(self)@.queue == old(self)@.queue.push(frame::frame_bytes(frame@)),
            action == WriteAction::Write,
    {
        bytes_mut_reserve(&mut self.scratch_buffer, frame.len());
        frame.format(&mut self.scratch_buffer);
        self.out_buffer.push(bytes_mut_freeze(bytes_mut_split(&mut self.scratch_buffer)));
        self.write_pending(WriteEvent::Begin)
    }

    /// Queue bytes, if there are any.
    fn queue_bytes(&mut self, bytes: &Bytes)
        requires
            old(self).wf(),
            old(self)@.queue.flatten().len() + bindings::bytes_data(*bytes).len() <= usize::MAX,
        ensures
            final(self).wf(),
            final(self).space() == old(self).space(),
            final(self)@.input == old(self)@.input,
            final(self)@.queue == push_bytes(old(self)@.queue, bindings::bytes_data(*bytes)),
            final(self)@.queue.flatten() == old(self)@.queue.flatten() + bindings::bytes_data(
                *bytes,
            ),
    {
        if bytes_len(bytes) > 0 {
            self.out_buffer.push(bytes_clone(bytes));
        }
    }

    /// Write a prepared frame: queue it, and go on to write what is pending.
    pub fn write_prepared_frame(&mut self, frame: &PreparedFrame) -> (action: WriteAction)
        requires
            old(self).wf(),
            old(self)@.queue.flatten().len() + frame.wire_header().len()
                + frame.wire_payload().len() <= usize::MAX,
        ensures
            final(self).wf(),
            final(self).space() == old(self).space(),
            final(self)@.input == old(self)@.input,
            final(self)@.queue == push_bytes(
                push_bytes(old(self)@.queue, frame.wire_header()),
                frame.wire_payload(),
            ),
            action == next_write(final(self)@.queue),
    {
        self.queue_bytes(frame.header());
        self.queue_bytes(frame.payload());
        self.write_pending(WriteEvent::Begin)
    }

    /// Complete pending write, if any.
    pub fn write_pending(&mut self, event: WriteEvent) -> (action: WriteAction)
        requires
            old(self).wf(),
            event matches WriteEvent::Written(Ok(len)) ==> len
                <= old(self)@.queue.flatten().len(),
        ensures
            final(self).wf(),
            final(self).space() == old(self).space(),
            final(self)@.input == old(self)@.input,
            final(self)@.queue == queue_after(old(self)@.queue, event),
            action == write_action(old(self)@.queue, event),
    {
        match event {
            WriteEvent::Begin => self.next_write(),
            WriteEvent::Written(Ok(len)) => {
                if len == 0 {
                    // This is the same as "Connection reset by peer".
                    WriteAction::Return(Err(Error::ConnectionReset))
                } else {
                    proof {
                        laws::lemma_drop_no_empty_chunk(self@.queue, len as nat);
                    }
                    self.out_buffer.advance(len);
                    self.next_write()
                }
            },
            WriteEvent::Written(Err(error)) => WriteAction::Return(Err(Error::Io(error))),
            WriteEvent::Flushed(Ok(())) => WriteAction::Return(Ok(())),
            WriteEvent::Flushed(Err(error)) => WriteAction::Return(Err(Error::Io(error))),
        }
    }

    fn next_write(&self) -> (action: WriteAction)
        requires
            self.wf(),
        ensures
            action == next_write(self@.queue),
    {
        proof {
            laws::law_write_until_done(self@.queue);
        }
        if self.out_buffer.remaining() == 0 {
            WriteAction::Flush
        } else {
            WriteAction::Write
        }
    }

    /// The first of the chunks that are to be written; an empty slice if there
    /// is none.
    pub fn front(&self) -> (chunk: &[u8])
        ensures
            chunk@ == (if self@.queue.len() > 0 {
                self@.queue[0]
            } else {
                Seq::<u8>::empty()
            }),
    {
        self.out_buffer.chunk()
    }

    /// None of the chunks that are to be written at once is too long for an
    /// `IoSlice`.
    pub fn fits_slices(&self) -> (fits: bool)
        ensures
            fits == buffer::sliceable(self@.queue, WRITE_SLICES as nat),
    {
        self.out_buffer.fits_slices(WRITE_SLICES)
    }

    /// The chunks that are to be written to the stream at once: the first of
    /// the slices, as many as the second component says.
    pub fn io_slices(&self) -> (slices: ([IoSlice<'_>; WRITE_SLICES], usize))
        requires
            buffer::sliceable(self@.queue, WRITE_SLICES as nat),
        ensures
            slices.1 == (if self@.queue.len() <= WRITE_SLICES {
                self@.queue.len()
            } else {
                WRITE_SLICES as nat
            }),
            forall|i: int|
                0 <= i < slices.1 ==> bindings::io_slice_data(#[trigger] slices.0@[i])
                    == self@.queue[i],
            forall|i: int|
                slices.1 <= i < WRITE_SLICES ==> bindings::io_slice_data(
                    #[trigger] slices.0@[i],
                ) == Seq::<u8>::empty(),
    {
        let mut ioslices = [io_slice_new(&[]); WRITE_SLICES];
        let num_ioslices: usize = self.out_buffer.chunks_vectored(&mut ioslices);
        (ioslices, num_ioslices)
    }
}

/// What is pending after `event`.
pub open spec fn queue_after(queue: Seq<Seq<u8>>, event: WriteEvent) -> Seq<Seq<u8>> {
    match event {
        WriteEvent::Written(Ok(len)) => buffer::drop_bytes(queue, len as nat),
        _ => queue,
    }
}

/// What is to be done after `event`.
pub open spec fn write_action(queue: Seq<Seq<u8>>, event: WriteEvent) -> WriteAction {
    match event {
        WriteEvent::Begin => next_write(queue),
        WriteEvent::Written(Ok(len)) => if len == 0 {
            WriteAction::Return(Err(Error::ConnectionReset))
        } else {
            next_write(queue_after(queue, event))
        },
        WriteEvent::Written(Err(error)) => WriteAction::Return(Err(Error::Io(error))),
        WriteEvent::Flushed(Ok(_)) => WriteAction::Return(Ok(())),
        WriteEvent::Flushed(Err(error)) => WriteAction::Return(Err(Error::Io(error))),
    }
}

/// A reader and writer for WebSocket frames.
#[derive(Debug)]
pub struct FrameSocket<Stream> {
    /// The underlying network stream.
    stream: Stream,
    /// Codec for reading/writing frames.
    codec: FrameCodec,
}

impl<Stream> View for FrameSocket<Stream> {
    type V = CodecView;

    closed spec fn view(&self) -> CodecView {
        self.codec@
    }
}

impl<Stream> FrameSocket<Stream> {
    /// The codec is well-formed.
    pub closed spec fn wf(self) -> bool {
        self.codec.wf()
    }

    /// The underlying network stream.
    pub closed spec fn inner(self) -> Stream {
        self.stream
    }

    /// The space that the stream reads into.
    pub closed spec fn space(self) -> Seq<u8> {
        self.codec.space()
    }

    /// A socket never has an empty chunk to write.
    pub proof fn law_no_empty_chunk(self)
        requires
            self.wf(),
        ensures
            no_empty_chunk(self@.queue),
    {
        self.codec.law_no_empty_chunk();
    }

    /// Create a new frame socket.
    pub fn new(stream: Stream) -> (socket: Self)
        ensures
            socket.wf(),
            socket.inner() == stream,
            socket@.input == (ReadState { unread: Seq::empty(), header: None }),
            socket@.queue == Seq::<Seq<u8>>::empty(),
            socket.space() == buffer::blank(crate::READ_BUFFER_CHUNK_SIZE as nat),
    {
        FrameSocket { stream, codec: FrameCodec::new() }
    }

    /// Create a new frame socket from partially read data.
    pub fn from_partially_read(stream: Stream, part: Vec<u8>) -> (socket: Self)
        ensures
            socket.wf(),
            socket.inner() == stream,
            socket@.input == (ReadState { unread: part@, header: None }),
            socket@.queue == Seq::<Seq<u8>>::empty(),
            socket.space() == buffer::blank(crate::READ_BUFFER_CHUNK_SIZE as nat),
    {
        FrameSocket { stream, codec: FrameCodec::from_partially_read(part) }
    }

    /// Extract a stream from the socket, and the bytes that have been read
    /// from it and belong to no frame or header read so far.
    pub fn into_inner(self) -> (inner: (Stream, Vec<u8>))
        requires
            self.wf(),
        ensures
            inner.0 == self.inner(),
            inner.1@ == self@.input.unread,
    {
        (self.stream, self.codec.in_buffer.into_vec())
    }

    /// Returns a shared reference to the inner stream.
    pub fn get_ref(&self) -> (stream: &Stream)
        ensures
            *stream == self.inner(),
    {
        &self.stream
    }

    /// Returns a mutable reference to the inner stream.
    pub fn get_mut(&mut self) -> (stream: &mut Stream)
        ensures
            *stream == old(self).inner(),
            final(self).inner() == *final(stream),
            final(self)@ == old(self)@,
            final(self).space() == old(self).space(),
            final(self).wf() == old(self).wf(),
    {
        &mut self.stream
    }

    /// Returns the inner stream and the space that it is to be read into.
    pub fn read_parts(&mut self) -> (parts: (&mut Stream, &mut [u8]))
        requires
            old(self).wf(),
        ensures
            *parts.0 == old(self).inner(),
            parts.1@ == old(self).space(),
            parts.1@.len() == crate::READ_BUFFER_CHUNK_SIZE,
            final(self).inner() == *final(parts.0),
            final(self).space() == final(parts.1)@,
            final(self).space().len() == crate::READ_BUFFER_CHUNK_SIZE,
            final(self)@ == old(self)@,
            final(self).wf(),
    {
        (&mut self.stream, self.codec.read_space())
    }

    /// None of the chunks that are to be written at once is too long for an
    /// `IoSlice`.
    pub fn fits_slices(&self) -> (fits: bool)
        ensures
            fits == buffer::sliceable(self@.queue, WRITE_SLICES as nat),
    {
        self.codec.fits_slices()
    }

    /// Returns the inner stream and the first of the chunks that are to be
    /// written to it; an empty slice if there is none.
    pub fn write_front(&mut self) -> (parts: (&mut Stream, &[u8]))
        ensures
            *parts.0 == old(self).inner(),
            parts.1@ == (if old(self)@.queue.len() > 0 {
                old(self)@.queue[0]
            } else {
                Seq::<u8>::empty()
            }),
            final(self).inner() == *final(parts.0),
            final(self)@ == old(self)@,
            final(self).space() == old(self).space(),
            final(self).wf() == old(self).wf(),
    {
        (&mut self.stream, self.codec.front())
    }

    /// Returns the inner stream and the chunks that are to be written to it at
    /// once: the first of the slices, as many as the last component says.
    pub fn write_parts(&mut self) -> (parts: (&mut Stream, [IoSlice<'_>; WRITE_SLICES], usize))
        requires
            buffer::sliceable(old(self)@.queue, WRITE_SLICES as nat),
        ensures
            *parts.0 == old(self).inner(),
            parts.2 == (if old(self)@.queue.len() <= WRITE_SLICES {
                old(self)@.queue.len()
            } else {
                WRITE_SLICES as nat
            }),
            forall|i: int|
                0 <= i < parts.2 ==> bindings::io_slice_data(#[trigger] parts.1@[i])
                    == old(self)@.queue[i],
            forall|i: int|
                parts.2 <= i < WRITE_SLICES ==> bindings::io_slice_data(#[trigger] parts.1@[i])
                    == Seq::<u8>::empty(),
            final(self).inner() == *final(parts.0),
            final(self)@ == old(self)@,
            final(self).space() == old(self).space(),
            final(self).wf() == old(self).wf(),
    {
        let (slices, count) = self.codec.io_slices();
        (&mut self.stream, slices, count)
    }

    /// The number of bytes that are to be written to the stream.
    pub fn pending_len(&self) -> (len: usize)
        requires
            self.wf(),
        ensures
            len == self@.queue.flatten().len(),
    {
        self.codec.pending_len()
    }

    /// Read a frame from stream.
    pub fn read_frame(&mut self, max_size: Option<usize>, event: ReadEvent) -> (action: ReadAction)
        requires
            old(self).wf(),
            event matches ReadEvent::Received(Ok(size)) ==> size <= old(self).space().len(),
        ensures
            final(self).wf(),
            final(self).inner() == old(self).inner(),
            final(self).space() == old(self).space(),
            final(self)@.queue == old(self)@.queue,
            final(self)@.input == input_after(
                old(self)@.input,
                old(self).space(),
                size_limit(max_size),
                event,
            ),
            read_reports(
                action,
                old(self)@.input,
                old(self).space(),
                size_limit(max_size),
                event,
            ),
    {
        self.codec.read_frame(max_size, event)
    }

    /// Write a frame to the stream.
    ///
    /// This function guarantees that the frame is queued regardless of any errors.
    /// There is no need to resend the frame. In order to handle WouldBlock or Incomplete,
    /// call write_pending() afterwards.
    pub fn write_frame(&mut self, frame: Frame) -> (action: WriteAction)
        requires
            old(self).wf(),
            frame::frame_bytes(frame@).len() <= isize::MAX,
            old(self)@.queue.flatten().len() + frame::frame_bytes(frame@).len() <= usize::MAX,
        ensures
            final(self).wf(),
            final(self).inner() == old(self).inner(),
            final(self).space() == old(self).space(),
            final(self)@.input == old(self)@.input,
            final(self)@.queue == old(self)@.queue.push(frame::frame_bytes(frame@)),
            action == WriteAction::Write,
    {
        self.codec.write_frame(frame)
    }

    /// Write a prepared frame to the stream.
    ///
    /// Only servers can send prepared frames, because clients must apply a unique mask to each
    /// frame they send, so each frame is different on the wire.
    ///
    /// This function guarantees that the frame is queued regardless of any errors.
    /// There is no need to resend the frame. In order to handle WouldBlock or Incomplete,
    /// call write_pending() afterwards.
    pub fn write_prepared_frame(&mut self, frame: &PreparedFrame) -> (action: WriteAction)
        requires
            old(self).wf(),
            old(self)@.queue.flatten().len() + frame.wire_header().len()
                + frame.wire_payload().len() <= usize::MAX,
        ensures
            final(self).wf(),
            final(self).inner() == old(self).inner(),
            final(self).space() == old(self).space(),
            final(self)@.input == old(self)@.input,
            final(self)@.queue == push_bytes(
                push_bytes(old(self)@.queue, frame.wire_header()),
                frame.wire_payload(),
            ),
            action == next_write(final(self)@.queue),
    {
        self.codec.write_prepared_frame(frame)
    }

    /// Complete pending write, if any.
    pub fn write_pending(&mut self, event: WriteEvent) -> (action: WriteAction)
        requires
            old(self).wf(),
            event matches WriteEvent::Written(Ok(len)) ==> len
                <= old(self)@.queue.flatten().len(),
        ensures
            final(self).wf(),
            final(self).inner() == old(self).inner(),
            final(self).space() == old(self).space(),
            final(self)@.input == old(self)@.input,
            final(self)@.queue == queue_after(old(self)@.queue, event),
            action == write_action(old(self)@.queue, event),
    {
        self.codec.write_pending(event)
    }
}

} // verus!
