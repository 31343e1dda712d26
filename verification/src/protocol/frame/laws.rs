//! What holds of reading and writing as a whole.

use vstd::prelude::*;

use super::coding;
use super::frame::{self, FrameHeader, FrameView, HeaderParse};
use super::mask;
use super::{
    feed, next_write, no_empty_chunk, push_bytes, queue_after, take_frame, take_payload,
};
use super::{Attempt, ReadState, WriteAction, WriteEvent};
use crate::buffer;

verus! {

broadcast use vstd::array::group_array_axioms;

/// A header is read back as it was written, whatever comes after it.
pub proof fn law_header_round_trip(header: FrameHeader, length: u64, rest: Seq<u8>)
    ensures
        frame::decode_header(frame::header_bytes(header, length) + rest) == (
        HeaderParse::Complete { header, length, size: frame::header_bytes(header, length).len() }),
{
    let input = frame::header_bytes(header, length) + rest;
    let size = frame::length_size(frame::short_length(length));
    coding::lemma_be_bytes_len(length as nat, size);
    coding::lemma_be_limits();
    if size > 0 {
        coding::law_be_round_trip(length as nat, size);
    }
    assert(input[0] == frame::first_byte(header));
    assert(input[1] == frame::second_byte(header, length));
    lemma_first_byte(
        coding::opcode_to_code(header.opcode),
        header.is_final,
        header.rsv1,
        header.rsv2,
        header.rsv3,
    );
    lemma_second_byte(frame::short_length(length), header.mask is Some);
    assert(input.subrange(2, 2 + size as int) =~= coding::be_bytes(length as nat, size));
    if let Some(key) = header.mask {
        assert(forall|i: int| 0 <= i < 4 ==> input[2 + size + i] == key@[i]);
        let read = frame::header_mask(input)->Some_0;
        assert(read =~= key);
    }
}

proof fn lemma_first_byte(code: u8, f: bool, r1: bool, r2: bool, r3: bool)
    requires
        code < 16,
    ensures
        ({
            let byte = code | frame::flag(f, 0x80) | frame::flag(r1, 0x40) | frame::flag(r2, 0x20)
                | frame::flag(r3, 0x10);
            &&& byte & 0x0f == code
            &&& (byte & 0x80 != 0) == f
            &&& (byte & 0x40 != 0) == r1
            &&& (byte & 0x20 != 0) == r2
            &&& (byte & 0x10 != 0) == r3
        }),
{
    let a = frame::flag(f, 0x80);
    let b = frame::flag(r1, 0x40);
    let c = frame::flag(r2, 0x20);
    let d = frame::flag(r3, 0x10);
    let byte = code | a | b | c | d;
    assert(byte & 0x0f == code && byte & 0x80 == a && byte & 0x40 == b && byte & 0x20 == c && byte
        & 0x10 == d) by (bit_vector)
        requires
            code < 16,
            byte == code | a | b | c | d,
            a == 0 || a == 0x80,
            b == 0 || b == 0x40,
            c == 0 || c == 0x20,
            d == 0 || d == 0x10,
    ;
}

proof fn lemma_second_byte(short: u8, masked: bool)
    requires
        short < 128,
    ensures
        (short | frame::flag(masked, 0x80)) & 0x7f == short,
        ((short | frame::flag(masked, 0x80)) & 0x80 != 0) == masked,
{
    let a = frame::flag(masked, 0x80);
    assert((short | a) & 0x7f == short && (short | a) & 0x80 == a) by (bit_vector)
        requires
            short < 128,
            a == 0 || a == 0x80,
    ;
}

/// What a reader gets of a frame: its header, and its payload as it was on the
/// wire.
pub open spec fn as_received(sent: FrameView) -> FrameView {
    FrameView { header: sent.header, payload: mask::masked(sent.payload, sent.header.mask) }
}

/// A frame that is within the size limit is read back as it was written, and
/// what comes after it is left alone.
pub proof fn law_frame_round_trip(sent: FrameView, rest: Seq<u8>, max_size: usize)
    requires
        sent.payload.len() <= max_size,
    ensures
        take_frame(
            ReadState { unread: frame::frame_bytes(sent) + rest, header: None },
            max_size,
        ) == (ReadState { unread: rest, header: None }, Attempt::Complete(as_received(sent))),
        mask::masked(as_received(sent).payload, sent.header.mask) == sent.payload,
{
    let length = sent.payload.len() as u64;
    let head = frame::header_bytes(sent.header, length);
    let body = mask::masked(sent.payload, sent.header.mask);
    mask::law_mask_involution(sent.payload, sent.header.mask);
    law_header_round_trip(sent.header, length, body + rest);
    assert(frame::frame_bytes(sent) + rest =~= head + (body + rest));
    assert((head + (body + rest)).skip(head.len() as int) =~= body + rest);
    assert((body + rest).take(length as int) =~= body);
    assert((body + rest).skip(length as int) =~= rest);
}

/// The frames on the wire, one after the other.
pub open spec fn wire(frames: Seq<FrameView>) -> Seq<u8> {
    frames.map_values(|sent: FrameView| frame::frame_bytes(sent)).flatten()
}

proof fn lemma_wire_first(frames: Seq<FrameView>)
    requires
        frames.len() > 0,
    ensures
        wire(frames) == frame::frame_bytes(frames[0]) + wire(frames.drop_first()),
{
    let pieces = frames.map_values(|sent: FrameView| frame::frame_bytes(sent));
    assert(pieces.drop_first() =~= frames.drop_first().map_values(
        |sent: FrameView| frame::frame_bytes(sent),
    ));
}

/// What is pending when a number of frames have been queued.
pub open spec fn queue_frames(queue: Seq<Seq<u8>>, frames: Seq<FrameView>) -> Seq<Seq<u8>>
    decreases frames.len(),
{
    if frames.len() == 0 {
        queue
    } else {
        queue_frames(queue.push(frame::frame_bytes(frames[0])), frames.drop_first())
    }
}

/// Frames that are queued go on the wire in order, after what was pending.
pub proof fn law_write_order(queue: Seq<Seq<u8>>, frames: Seq<FrameView>)
    ensures
        queue_frames(queue, frames).flatten() == queue.flatten() + wire(frames),
    decreases frames.len(),
{
    if frames.len() == 0 {
        assert(queue.flatten() + wire(frames) =~= queue.flatten());
    } else {
        let first = frame::frame_bytes(frames[0]);
        law_write_order(queue.push(first), frames.drop_first());
        queue.lemma_flatten_push(first);
        lemma_wire_first(frames);
        assert(queue.flatten() + first + wire(frames.drop_first()) =~= queue.flatten() + wire(
            frames,
        ));
    }
}

/// More input does not change what a complete or invalid header is.
proof fn lemma_header_prefix(input: Seq<u8>, more: Seq<u8>)
    requires
        !(frame::decode_header(input) is Incomplete),
    ensures
        frame::decode_header(input + more) == frame::decode_header(input),
        frame::header_size(input[1]) <= input.len(),
{
    let whole = input + more;
    let size = frame::length_size(input[1] & 0x7f) as int;
    assert(whole.subrange(2, 2 + size) =~= input.subrange(2, 2 + size));
}

proof fn lemma_payload_prefix(
    rest: Seq<u8>,
    header: FrameHeader,
    length: u64,
    max_size: usize,
    more: Seq<u8>,
)
    ensures
        ({
            let (state, attempt) = take_payload(rest, header, length, max_size);
            let whole = take_payload(rest + more, header, length, max_size);
            if attempt is NeedInput {
                take_frame(feed(state, more), max_size) == whole
            } else {
                whole == (feed(state, more), attempt)
            }
        }),
{
    if length <= max_size && length <= rest.len() {
        assert((rest + more).take(length as int) =~= rest.take(length as int));
        assert((rest + more).skip(length as int) =~= rest.skip(length as int) + more);
    }
}

/// When an attempt to take a frame needs more input, going on from there with
/// more input is the same as a single attempt on all the input. When it has a
/// result, more input changes nothing of the result and is left alone.
pub proof fn law_more_input(state: ReadState, max_size: usize, more: Seq<u8>)
    ensures
        ({
            let (next, attempt) = take_frame(state, max_size);
            let whole = take_frame(feed(state, more), max_size);
            if attempt is NeedInput {
                take_frame(feed(next, more), max_size) == whole
            } else {
                whole == (feed(next, more), attempt)
            }
        }),
{
    match state.header {
        Some((header, length)) => {
            lemma_payload_prefix(state.unread, header, length, max_size, more);
        },
        None => {
            match frame::decode_header(state.unread) {
                HeaderParse::Incomplete => {},
                HeaderParse::Invalid { code, size } => {
                    lemma_header_prefix(state.unread, more);
                    assert((state.unread + more).skip(size as int) =~= state.unread.skip(
                        size as int,
                    ) + more);
                },
                HeaderParse::Complete { header, length, size } => {
                    lemma_header_prefix(state.unread, more);
                    let rest = state.unread.skip(size as int);
                    assert((state.unread + more).skip(size as int) =~= rest + more);
                    lemma_payload_prefix(rest, header, length, max_size, more);
                },
            }
        },
    }
}

/// Reads a frame from a stream that gives `chunks`, one with each read, and
/// says how many of them were read.
pub open spec fn read_chunks(state: ReadState, max_size: usize, chunks: Seq<Seq<u8>>) -> (
    ReadState,
    Attempt,
    nat,
)
    decreases chunks.len(),
{
    let (next, attempt) = take_frame(state, max_size);
    if attempt is NeedInput && chunks.len() > 0 {
        let (last, result, count) = read_chunks(
            feed(next, chunks[0]),
            max_size,
            chunks.drop_first(),
        );
        (last, result, count + 1)
    } else {
        (next, attempt, 0)
    }
}

/// What is read does not depend on the pieces in which the input comes in: it
/// is what would be read if all the input were there at once. What has not
/// been read from the stream is left alone.
pub proof fn law_chunking(state: ReadState, max_size: usize, chunks: Seq<Seq<u8>>)
    ensures
        ({
            let (next, attempt, count) = read_chunks(state, max_size, chunks);
            &&& count <= chunks.len()
            &&& attempt is NeedInput ==> count == chunks.len()
            &&& take_frame(feed(state, chunks.flatten()), max_size) == (
                feed(next, chunks.skip(count as int).flatten()),
                attempt,
            )
        }),
    decreases chunks.len(),
{
    let (next, attempt) = take_frame(state, max_size);
    let all = chunks.flatten();
    law_more_input(state, max_size, all);
    if attempt is NeedInput && chunks.len() > 0 {
        let rest = chunks.drop_first();
        law_chunking(feed(next, chunks[0]), max_size, rest);
        assert(feed(feed(next, chunks[0]), rest.flatten()) =~= feed(next, all));
        let count = read_chunks(feed(next, chunks[0]), max_size, rest).2;
        assert(rest.skip(count as int) =~= chunks.skip(count + 1int));
    } else {
        assert(chunks.skip(0) =~= chunks);
        if attempt is NeedInput {
            assert(all =~= Seq::<u8>::empty());
            assert(feed(state, all) =~= state);
            assert(feed(next, all) =~= next);
        }
    }
}

/// Reads `count` frames from a stream that gives `chunks`, one with each read;
/// also says what has not been read from the stream then.
pub open spec fn read_frames(
    state: ReadState,
    max_size: usize,
    chunks: Seq<Seq<u8>>,
    count: nat,
) -> (ReadState, Seq<Attempt>, Seq<Seq<u8>>)
    decreases count,
{
    if count == 0 {
        (state, Seq::empty(), chunks)
    } else {
        let (next, attempt, used) = read_chunks(state, max_size, chunks);
        let (last, attempts, left) = read_frames(
            next,
            max_size,
            chunks.skip(used as int),
            (count - 1) as nat,
        );
        (last, seq![attempt] + attempts, left)
    }
}

/// Frames that one side writes, the other side reads: whatever the pieces in
/// which the bytes come in, the frames are read in the order in which they were
/// written, and what comes after them is left alone.
pub proof fn law_read_what_was_written(
    state: ReadState,
    frames: Seq<FrameView>,
    rest: Seq<u8>,
    max_size: usize,
    chunks: Seq<Seq<u8>>,
)
    requires
        state.header is None,
        state.unread + chunks.flatten() == wire(frames) + rest,
        forall|i: int| 0 <= i < frames.len() ==> (#[trigger] frames[i]).payload.len() <= max_size,
    ensures
        ({
            let (last, attempts, left) = read_frames(state, max_size, chunks, frames.len());
            &&& attempts == frames.map_values(
                |sent: FrameView| Attempt::Complete(as_received(sent)),
            )
            &&& last.header is None
            &&& last.unread + left.flatten() == rest
        }),
    decreases frames.len(),
{
    let results = frames.map_values(|sent: FrameView| Attempt::Complete(as_received(sent)));
    if frames.len() == 0 {
        assert(results =~= Seq::empty());
        assert(wire(frames) + rest =~= rest);
    } else {
        let tail = frames.drop_first();
        lemma_wire_first(frames);
        assert(wire(frames) + rest =~= frame::frame_bytes(frames[0]) + (wire(tail) + rest));
        law_frame_round_trip(frames[0], wire(tail) + rest, max_size);
        law_chunking(state, max_size, chunks);
        assert(feed(state, chunks.flatten()) =~= (ReadState {
            unread: frame::frame_bytes(frames[0]) + (wire(tail) + rest),
            header: None,
        }));
        let (next, _, used) = read_chunks(state, max_size, chunks);
        law_read_what_was_written(next, tail, rest, max_size, chunks.skip(used as int));
        assert(results =~= seq![Attempt::Complete(as_received(frames[0]))] + tail.map_values(
            |sent: FrameView| Attempt::Complete(as_received(sent)),
        ));
    }
}

/// Data that was read before the socket was made counts as the first data that
/// comes from the stream.
pub proof fn law_partially_read(part: Seq<u8>, max_size: usize, chunks: Seq<Seq<u8>>)
    ensures
        ({
            let (late, late_attempt, late_count) = read_chunks(
                ReadState { unread: Seq::empty(), header: None },
                max_size,
                seq![part] + chunks,
            );
            let (early, attempt, count) = read_chunks(
                ReadState { unread: part, header: None },
                max_size,
                chunks,
            );
            &&& attempt == late_attempt
            &&& late_count == count + 1
            &&& early == late
        }),
{
    let empty = ReadState { unread: Seq::empty(), header: None };
    assert((seq![part] + chunks).drop_first() =~= chunks);
    assert(feed(empty, part) =~= (ReadState { unread: part, header: None }));
}

/// A frame that is too long for one limit is still there for a higher one: the
/// attempt that was refused makes no difference to the next one.
pub proof fn law_refused_frame_stays(state: ReadState, max_size: usize, next_max_size: usize)
    requires
        take_frame(state, max_size).1 is TooLong,
    ensures
        take_frame(take_frame(state, max_size).0, next_max_size) == take_frame(
            state,
            next_max_size,
        ),
{
}

/// A frame that is read is never longer than the limit, and one that is
/// refused for its length always is.
pub proof fn law_size_limit(state: ReadState, max_size: usize)
    ensures
        take_frame(state, max_size).1 matches Attempt::Complete(view) ==> view.payload.len()
            <= max_size,
        take_frame(state, max_size).1 matches Attempt::TooLong(length) ==> length > max_size,
{
}

/// The limit is enforced early: a frame that is too long is refused as soon as
/// its header is there, whether or not any of its payload is.
pub proof fn law_limit_enforced_early(
    header: FrameHeader,
    length: u64,
    rest: Seq<u8>,
    max_size: usize,
)
    requires
        length > max_size,
    ensures
        take_frame(
            ReadState { unread: frame::header_bytes(header, length) + rest, header: None },
            max_size,
        ) == (
            ReadState { unread: rest, header: Some((header, length)) },
            Attempt::TooLong(length),
        ),
{
    let head = frame::header_bytes(header, length);
    law_header_round_trip(header, length, rest);
    assert((head + rest).skip(head.len() as int) =~= rest);
}

/// How many bytes the stream took with an event.
pub open spec fn bytes_taken(event: WriteEvent) -> nat {
    match event {
        WriteEvent::Written(Ok(len)) => len as nat,
        _ => 0,
    }
}

/// How many bytes the stream took with a number of events.
pub open spec fn all_bytes_taken(events: Seq<WriteEvent>) -> nat
    decreases events.len(),
{
    if events.len() == 0 {
        0
    } else {
        bytes_taken(events[0]) + all_bytes_taken(events.drop_first())
    }
}

/// What is pending after a number of events.
pub open spec fn queue_after_all(queue: Seq<Seq<u8>>, events: Seq<WriteEvent>) -> Seq<Seq<u8>>
    decreases events.len(),
{
    if events.len() == 0 {
        queue
    } else {
        queue_after_all(queue_after(queue, events[0]), events.drop_first())
    }
}

/// Whatever happens to the stream, errors included, what is pending is what
/// was pending without the bytes that the stream took: no byte is lost, sent
/// twice or sent out of order.
pub proof fn law_nothing_lost(queue: Seq<Seq<u8>>, events: Seq<WriteEvent>)
    requires
        all_bytes_taken(events) <= queue.flatten().len(),
    ensures
        queue_after_all(queue, events).flatten() == queue.flatten().skip(
            all_bytes_taken(events) as int,
        ),
    decreases events.len(),
{
    if events.len() == 0 {
        assert(queue.flatten().skip(0) =~= queue.flatten());
    } else {
        let taken = bytes_taken(events[0]);
        let rest = events.drop_first();
        buffer::lemma_drop_bytes(queue, taken);
        assert(queue.flatten().skip(0) =~= queue.flatten());
        law_nothing_lost(queue_after(queue, events[0]), rest);
        assert(queue.flatten().skip(taken as int).skip(all_bytes_taken(rest) as int)
            =~= queue.flatten().skip(all_bytes_taken(events) as int));
    }
}

/// A queue without empty chunks stays so when a frame is queued, when a
/// prepared frame is queued and when bytes are written. The two parts of a
/// prepared frame are a chunk each, unless they are empty.
pub proof fn law_no_empty_chunk(
    queue: Seq<Seq<u8>>,
    sent: FrameView,
    header: Seq<u8>,
    payload: Seq<u8>,
    event: WriteEvent,
)
    requires
        no_empty_chunk(queue),
    ensures
        no_empty_chunk(queue.push(frame::frame_bytes(sent))),
        no_empty_chunk(push_bytes(push_bytes(queue, header), payload)),
        header.len() > 0 && payload.len() > 0 ==> no_empty_chunk(
            queue.push(header).push(payload),
        ),
        no_empty_chunk(queue_after(queue, event)),
{
    if let WriteEvent::Written(Ok(len)) = event {
        lemma_drop_no_empty_chunk(queue, len as nat);
    }
}

pub(crate) proof fn lemma_drop_no_empty_chunk(queue: Seq<Seq<u8>>, cnt: nat)
    requires
        no_empty_chunk(queue),
    ensures
        no_empty_chunk(buffer::drop_bytes(queue, cnt)),
    decreases queue.len(),
{
    if cnt > 0 && queue.len() > 0 && cnt >= queue[0].len() {
        assert(no_empty_chunk(queue.drop_first())) by {
            assert forall|i: int| 0 <= i < queue.len() - 1 implies (
            #[trigger] queue.drop_first()[i]).len() > 0 by {
                assert(queue.drop_first()[i] == queue[i + 1]);
            }
        }
        lemma_drop_no_empty_chunk(queue.drop_first(), (cnt - queue[0].len()) as nat);
    }
}

/// In a queue without empty chunks a write is asked for exactly while bytes
/// are pending, and then there is a byte in the first chunk that is offered;
/// when the stream has taken all bytes, it is to be flushed.
pub proof fn law_write_until_done(queue: Seq<Seq<u8>>)
    requires
        no_empty_chunk(queue),
    ensures
        next_write(queue) == WriteAction::Write <==> queue.flatten().len() > 0,
        next_write(queue) == WriteAction::Flush <==> queue.flatten().len() == 0,
        queue.len() > 0 ==> queue[0].len() > 0,
{
}

/// A prepared frame goes on the wire as the frame does that it was made of,
/// whether it has a payload or not.
pub proof fn law_prepared_frame(queue: Seq<Seq<u8>>, sent: FrameView)
    ensures
        push_bytes(
            push_bytes(
                queue,
                frame::header_bytes(sent.header, sent.payload.len() as u64),
            ),
            mask::masked(sent.payload, sent.header.mask),
        ).flatten() == queue.push(frame::frame_bytes(sent)).flatten(),
        queue.push(frame::frame_bytes(sent)).flatten() == queue.flatten() + frame::frame_bytes(
            sent,
        ),
{
    let head = frame::header_bytes(sent.header, sent.payload.len() as u64);
    let body = mask::masked(sent.payload, sent.header.mask);
    queue.lemma_flatten_push(head);
    queue.push(head).lemma_flatten_push(body);
    queue.lemma_flatten_push(head + body);
    assert(queue.flatten() + head + body =~= queue.flatten() + (head + body));
}

/// When the stream takes all that is pending, in however many pieces, the next
/// thing to do is to flush it; no write is asked for once nothing is left.
pub proof fn law_write_completes(queue: Seq<Seq<u8>>, events: Seq<WriteEvent>)
    requires
        no_empty_chunk(queue),
        all_bytes_taken(events) == queue.flatten().len(),
    ensures
        queue_after_all(queue, events).len() == 0,
        next_write(queue_after_all(queue, events)) == WriteAction::Flush,
{
    law_nothing_lost(queue, events);
    lemma_no_empty_chunk_after_all(queue, events);
    law_write_until_done(queue_after_all(queue, events));
}

proof fn lemma_no_empty_chunk_after_all(queue: Seq<Seq<u8>>, events: Seq<WriteEvent>)
    requires
        no_empty_chunk(queue),
    ensures
        no_empty_chunk(queue_after_all(queue, events)),
    decreases events.len(),
{
    if events.len() > 0 {
        if let WriteEvent::Written(Ok(len)) = events[0] {
            lemma_drop_no_empty_chunk(queue, len as nat);
        }
        lemma_no_empty_chunk_after_all(queue_after(queue, events[0]), events.drop_first());
    }
}

} // verus!
