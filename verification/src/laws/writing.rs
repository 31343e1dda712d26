//! Writing frames.

use vstd::prelude::*;

use super::wire::{self, is_frame};
use crate::buffer;
use crate::error::Error;
use crate::protocol::frame::frame::{self, Frame, PreparedFrame};
use crate::protocol::frame::laws as codec_laws;
use crate::protocol::frame::{FrameCodec, FrameSocket, WriteAction, WriteEvent};

verus! {

/// What an event does to the pending bytes and what is to be done next: while
/// bytes are pending they are to be written, and when none are the stream is to
/// be flushed. What the stream took is no longer pending. An error is returned
/// and takes nothing away; so is a write that took nothing.
pub open spec fn writes(
    before: Seq<u8>,
    event: WriteEvent,
    after: Seq<u8>,
    action: WriteAction,
) -> bool {
    match event {
        WriteEvent::Begin => {
            &&& after == before
            &&& action == WriteAction::Flush <==> before.len() == 0
            &&& action == WriteAction::Write <==> before.len() > 0
        },
        WriteEvent::Written(Ok(len)) => {
            &&& after == before.skip(len as int)
            &&& len == 0 ==> action == WriteAction::Return(Err(Error::ConnectionReset))
            &&& len > 0 ==> (action == WriteAction::Flush <==> len == before.len())
            &&& len > 0 ==> (action == WriteAction::Write <==> len < before.len())
        },
        WriteEvent::Written(Err(error)) => {
            &&& after == before
            &&& action == WriteAction::Return(Err(Error::Io(error)))
        },
        WriteEvent::Flushed(Ok(_)) => {
            &&& after == before
            &&& action == WriteAction::Return(Ok(()))
        },
        WriteEvent::Flushed(Err(error)) => {
            &&& after == before
            &&& action == WriteAction::Return(Err(Error::Io(error)))
        },
    }
}

proof fn lemma_writes(queue: Seq<Seq<u8>>, event: WriteEvent)
    requires
        crate::protocol::frame::no_empty_chunk(queue),
        event matches WriteEvent::Written(Ok(len)) ==> len <= queue.flatten().len(),
    ensures
        writes(
            queue.flatten(),
            event,
            crate::protocol::frame::queue_after(queue, event).flatten(),
            crate::protocol::frame::write_action(queue, event),
        ),
{
    codec_laws::law_write_until_done(queue);
    if let WriteEvent::Written(Ok(len)) = event {
        buffer::lemma_drop_bytes(queue, len as nat);
        codec_laws::lemma_drop_no_empty_chunk(queue, len as nat);
        codec_laws::law_write_until_done(crate::protocol::frame::queue_after(queue, event));
    }
}

/// Completing a pending write: writes go on until no byte is pending, then the
/// stream is flushed, and an error loses nothing.
pub proof fn law_write_pending(codec: &mut FrameCodec, event: WriteEvent, action: WriteAction)
    requires
        old(codec).wf(),
        event matches WriteEvent::Written(Ok(len)) ==> len <= old(codec)@.queue.flatten().len(),
        call_ensures(FrameCodec::write_pending, (codec, event), action),
    ensures
        writes(
            old(codec)@.queue.flatten(),
            event,
            final(codec)@.queue.flatten(),
            action,
        ),
        final(codec)@.input == old(codec)@.input,
        final(codec).space() == old(codec).space(),
        final(codec).wf(),
{
    old(codec).law_no_empty_chunk();
    lemma_writes(old(codec)@.queue, event);
}

/// After a write the stream is flushed exactly if nothing is left to write, and
/// written again exactly if something is. It is never flushed, nor written again,
/// after a write that took nothing.
pub proof fn law_flush_when_all_is_written(
    codec: &mut FrameCodec,
    len: usize,
    action: WriteAction,
)
    requires
        old(codec).wf(),
        len <= old(codec)@.queue.flatten().len(),
        call_ensures(FrameCodec::write_pending, (codec, WriteEvent::Written(Ok(len))), action),
    ensures
        action == WriteAction::Flush <==> 0 < len && len == old(codec)@.queue.flatten().len(),
        action == WriteAction::Write <==> 0 < len && len < old(codec)@.queue.flatten().len(),
        action == WriteAction::Return(Err(Error::ConnectionReset)) <==> len == 0,
        final(codec)@.queue.flatten().len() == old(codec)@.queue.flatten().len() - len,
{
    law_write_pending(codec, WriteEvent::Written(Ok(len)), action);
}

/// The same of a socket.
pub proof fn law_socket_flush_when_all_is_written<Stream>(
    socket: &mut FrameSocket<Stream>,
    len: usize,
    action: WriteAction,
)
    requires
        old(socket).wf(),
        len <= old(socket)@.queue.flatten().len(),
        call_ensures(
            FrameSocket::<Stream>::write_pending,
            (socket, WriteEvent::Written(Ok(len))),
            action,
        ),
    ensures
        action == WriteAction::Flush <==> 0 < len && len == old(socket)@.queue.flatten().len(),
        action == WriteAction::Write <==> 0 < len && len < old(socket)@.queue.flatten().len(),
        action == WriteAction::Return(Err(Error::ConnectionReset)) <==> len == 0,
        final(socket)@.queue.flatten().len() == old(socket)@.queue.flatten().len() - len,
{
    law_socket_write_pending(socket, WriteEvent::Written(Ok(len)), action);
}

/// A socket completes a pending write as its codec does, and has its stream
/// back.
pub proof fn law_socket_write_pending<Stream>(
    socket: &mut FrameSocket<Stream>,
    event: WriteEvent,
    action: WriteAction,
)
    requires
        old(socket).wf(),
        event matches WriteEvent::Written(Ok(len)) ==> len
            <= old(socket)@.queue.flatten().len(),
        call_ensures(FrameSocket::<Stream>::write_pending, (socket, event), action),
    ensures
        writes(
            old(socket)@.queue.flatten(),
            event,
            final(socket)@.queue.flatten(),
            action,
        ),
        final(socket)@.input == old(socket)@.input,
        final(socket).inner() == old(socket).inner(),
        final(socket).space() == old(socket).space(),
        final(socket).wf(),
{
    old(socket).law_no_empty_chunk();
    lemma_writes(old(socket)@.queue, event);
}

/// A write takes whole chunks off the front of the queue, and a part of the
/// next one: the first `gone` chunks go, and `cut` bytes of the chunk after
/// them. A chunk of which bytes are left stays.
pub open spec fn takes_off(
    before: Seq<Seq<u8>>,
    cnt: nat,
    after: Seq<Seq<u8>>,
    gone: int,
    cut: int,
) -> bool {
    &&& 0 <= gone <= before.len()
    &&& after.len() == before.len() - gone
    &&& before.take(gone).flatten().len() + cut == cnt
    &&& cut >= 0
    &&& cut > 0 ==> gone < before.len() && cut < before[gone].len() && after[0]
        == before[gone].skip(cut)
    &&& forall|i: int|
        #![trigger after[i]]
        0 <= i < after.len() && (i > 0 || cut == 0) ==> after[i] == before[gone + i]
    &&& gone > 0 && cut == 0 ==> before[gone - 1].len() > 0
}

/// There are numbers of chunks and bytes that go.
pub(crate) proof fn lemma_takes_off(before: Seq<Seq<u8>>, cnt: nat) -> (numbers: (int, int))
    requires
        cnt <= before.flatten().len(),
    ensures
        takes_off(before, cnt, buffer::drop_bytes(before, cnt), numbers.0, numbers.1),
    decreases before.len(),
{
    let after = buffer::drop_bytes(before, cnt);
    if cnt == 0 || before.len() == 0 {
        assert(before.take(0) =~= Seq::empty());
        (0, 0)
    } else if cnt < before[0].len() {
        assert(before.take(0) =~= Seq::empty());
        (0, cnt as int)
    } else {
        let rest = before.drop_first();
        let less = (cnt - before[0].len()) as nat;
        let (gone, cut) = lemma_takes_off(rest, less);
        assert(before.take(gone + 1).drop_first() =~= rest.take(gone));
        assert(before.take(gone + 1)[0] == before[0]);
        assert forall|i: int|
            #![trigger after[i]]
            0 <= i < after.len() && (i > 0 || cut == 0) implies after[i] == before[gone + 1
            + i] by {
            assert(after[i] == rest[gone + i]);
        }
        if gone > 0 {
            assert(rest[gone - 1] == before[gone]);
        } else if cut == 0 {
            assert(rest.take(0) =~= Seq::empty());
        }
        (gone + 1, cut)
    }
}

/// What a write leaves of the queue is its chunks, without those that have been
/// written and without the bytes that have been written of the next one.
pub proof fn law_chunks_after_write(codec: &mut FrameCodec, len: usize, action: WriteAction)
    requires
        len <= old(codec)@.queue.flatten().len(),
        call_ensures(
            FrameCodec::write_pending,
            (codec, WriteEvent::Written(Ok(len))),
            action,
        ),
    ensures
        exists|gone: int, cut: int|
            takes_off(old(codec)@.queue, len as nat, final(codec)@.queue, gone, cut),
{
    let (gone, cut) = lemma_takes_off(old(codec)@.queue, len as nat);
    assert(takes_off(old(codec)@.queue, len as nat, final(codec)@.queue, gone, cut));
}

/// The same of a socket.
pub proof fn law_socket_chunks_after_write<Stream>(
    socket: &mut FrameSocket<Stream>,
    len: usize,
    action: WriteAction,
)
    requires
        len <= old(socket)@.queue.flatten().len(),
        call_ensures(
            FrameSocket::<Stream>::write_pending,
            (socket, WriteEvent::Written(Ok(len))),
            action,
        ),
    ensures
        exists|gone: int, cut: int|
            takes_off(old(socket)@.queue, len as nat, final(socket)@.queue, gone, cut),
{
    let (gone, cut) = lemma_takes_off(old(socket)@.queue, len as nat);
    assert(takes_off(old(socket)@.queue, len as nat, final(socket)@.queue, gone, cut));
}

/// A frame is queued behind what is pending, as it is on the wire and in one
/// chunk, and then there is something to write.
pub proof fn law_write_frame(codec: &mut FrameCodec, sent: Frame, action: WriteAction)
    requires
        call_ensures(FrameCodec::write_frame, (codec, sent), action),
        sent@.payload.len() <= u64::MAX,
    ensures
        final(codec)@.queue.len() == old(codec)@.queue.len() + 1,
        final(codec)@.queue.drop_last() == old(codec)@.queue,
        is_frame(final(codec)@.queue.last(), sent@),
        final(codec)@.input == old(codec)@.input,
        final(codec).space() == old(codec).space(),
        final(codec).wf(),
        action == WriteAction::Write,
{
    wire::lemma_frame_bytes(sent@);
    assert(final(codec)@.queue.drop_last() =~= old(codec)@.queue);
}

/// A socket queues a frame as its codec does.
pub proof fn law_socket_write_frame<Stream>(
    socket: &mut FrameSocket<Stream>,
    sent: Frame,
    action: WriteAction,
)
    requires
        call_ensures(FrameSocket::<Stream>::write_frame, (socket, sent), action),
        sent@.payload.len() <= u64::MAX,
    ensures
        final(socket)@.queue.len() == old(socket)@.queue.len() + 1,
        final(socket)@.queue.drop_last() == old(socket)@.queue,
        is_frame(final(socket)@.queue.last(), sent@),
        final(socket)@.input == old(socket)@.input,
        final(socket).space() == old(socket).space(),
        final(socket).wf(),
        final(socket).inner() == old(socket).inner(),
        action == WriteAction::Write,
{
    wire::lemma_frame_bytes(sent@);
    assert(final(socket)@.queue.drop_last() =~= old(socket)@.queue);
}

/// The bytes of a prepared frame are queued behind what is pending, the header
/// first, and no chunk of the queue is empty. Then there is something to write
/// exactly if bytes are pending.
pub proof fn law_write_prepared_frame(
    codec: &mut FrameCodec,
    prepared: &PreparedFrame,
    action: WriteAction,
)
    requires
        old(codec).wf(),
        call_ensures(FrameCodec::write_prepared_frame, (codec, prepared), action),
    ensures
        final(codec)@.queue.flatten() == old(codec)@.queue.flatten() + prepared.wire_header()
            + prepared.wire_payload(),
        final(codec)@.queue.take(old(codec)@.queue.len() as int) == old(codec)@.queue,
        prepared.wire_header().len() > 0 ==> final(codec)@.queue[old(codec)@.queue.len() as int]
            == prepared.wire_header(),
        prepared.wire_payload().len() > 0 ==> final(codec)@.queue.last()
            == prepared.wire_payload(),
        final(codec)@.queue.len() <= old(codec)@.queue.len() + 2,
        final(codec).space() == old(codec).space(),
        final(codec).wf(),
        forall|i: int|
            0 <= i < final(codec)@.queue.len() ==> (#[trigger] final(codec)@.queue[i]).len() > 0,
        final(codec)@.input == old(codec)@.input,
        action == WriteAction::Write <==> final(codec)@.queue.flatten().len() > 0,
        action == WriteAction::Flush <==> final(codec)@.queue.flatten().len() == 0,
{
    old(codec).law_no_empty_chunk();
    lemma_prepared(
        old(codec)@.queue,
        prepared.wire_header(),
        prepared.wire_payload(),
        final(codec)@.queue,
    );
}

/// A socket queues a prepared frame as its codec does.
pub proof fn law_socket_write_prepared_frame<Stream>(
    socket: &mut FrameSocket<Stream>,
    prepared: &PreparedFrame,
    action: WriteAction,
)
    requires
        old(socket).wf(),
        call_ensures(FrameSocket::<Stream>::write_prepared_frame, (socket, prepared), action),
    ensures
        final(socket)@.queue.flatten() == old(socket)@.queue.flatten() + prepared.wire_header()
            + prepared.wire_payload(),
        final(socket)@.queue.take(old(socket)@.queue.len() as int) == old(socket)@.queue,
        prepared.wire_header().len() > 0 ==> final(socket)@.queue[old(socket)@.queue.len() as int]
            == prepared.wire_header(),
        prepared.wire_payload().len() > 0 ==> final(socket)@.queue.last()
            == prepared.wire_payload(),
        final(socket)@.queue.len() <= old(socket)@.queue.len() + 2,
        final(socket).space() == old(socket).space(),
        final(socket).wf(),
        forall|i: int|
            0 <= i < final(socket)@.queue.len() ==> (#[trigger] final(socket)@.queue[i]).len()
                > 0,
        final(socket)@.input == old(socket)@.input,
        final(socket).inner() == old(socket).inner(),
        action == WriteAction::Write <==> final(socket)@.queue.flatten().len() > 0,
        action == WriteAction::Flush <==> final(socket)@.queue.flatten().len() == 0,
{
    old(socket).law_no_empty_chunk();
    lemma_prepared(
        old(socket)@.queue,
        prepared.wire_header(),
        prepared.wire_payload(),
        final(socket)@.queue,
    );
}

proof fn lemma_prepared(
    queue: Seq<Seq<u8>>,
    header: Seq<u8>,
    payload: Seq<u8>,
    after: Seq<Seq<u8>>,
)
    requires
        crate::protocol::frame::no_empty_chunk(queue),
        after == crate::protocol::frame::push_bytes(
            crate::protocol::frame::push_bytes(queue, header),
            payload,
        ),
    ensures
        after.flatten() == queue.flatten() + header + payload,
        after.take(queue.len() as int) == queue,
        crate::protocol::frame::no_empty_chunk(after),
        after.len() == 0 <==> after.flatten().len() == 0,
{
    queue.lemma_flatten_push(header);
    let middle = crate::protocol::frame::push_bytes(queue, header);
    assert(middle.flatten() =~= queue.flatten() + header);
    middle.lemma_flatten_push(payload);
    assert(after.flatten() =~= queue.flatten() + header + payload);
    assert(after.take(queue.len() as int) =~= queue);
    codec_laws::law_write_until_done(after);
}

/// How many bytes the stream took with the first `number` events.
pub open spec fn taken_by(events: Seq<WriteEvent>, number: int) -> int
    decreases number,
{
    if number <= 0 {
        0
    } else {
        taken_by(events, number - 1) + match events[number - 1] {
            WriteEvent::Written(Ok(len)) => len as int,
            _ => 0,
        }
    }
}

/// Whatever the pieces in which the stream takes the pending bytes, success is
/// only returned when it has taken them all, in order and none twice. Each
/// event is the outcome of what the action before it asked for, and each call
/// finds the queue as the call before it left it: these are the `queues`.
pub proof fn law_write_run(
    calls: Seq<&mut FrameCodec>,
    queues: Seq<Seq<Seq<u8>>>,
    events: Seq<WriteEvent>,
    actions: Seq<WriteAction>,
    number: int,
)
    requires
        calls.len() == events.len() == actions.len(),
        forall|i: int|
            #![trigger calls[i]]
            0 <= i < calls.len() ==> {
                &&& calls[i].wf()
                &&& calls[i]@.queue == queues[i]
                &&& final(calls[i])@.queue == queues[i + 1]
                &&& call_ensures(FrameCodec::write_pending, (calls[i], events[i]), actions[i])
            },
        forall|i: int|
            #![trigger events[i]]
            0 <= i < events.len() ==> (events[i] matches WriteEvent::Written(Ok(len)) ==> len
                <= queues[i].flatten().len()),
        forall|i: int|
            #![trigger events[i]]
            0 < i < events.len() ==> {
                &&& events[i] is Written <==> actions[i - 1] is Write
                &&& events[i] is Flushed <==> actions[i - 1] is Flush
            },
        0 < number <= events.len(),
        events[0] is Begin,
    ensures
        0 <= taken_by(events, number) <= queues[0].flatten().len(),
        queues[number].flatten() == queues[0].flatten().skip(taken_by(events, number)),
        actions[number - 1] == WriteAction::Write ==> taken_by(events, number)
            < queues[0].flatten().len(),
        actions[number - 1] == WriteAction::Flush ==> taken_by(events, number)
            == queues[0].flatten().len(),
        actions[number - 1] == WriteAction::Return(Ok(())) ==> taken_by(events, number)
            == queues[0].flatten().len(),
    decreases number,
{
    let pending = queues[0].flatten();
    let i = number - 1;
    assert(pending.skip(0) =~= pending);
    if number > 1 {
        law_write_run(calls, queues, events, actions, number - 1);
    }
    assert(calls[i].wf());
    assert(events[i] is Begin || i > 0 || events[i] == events[0]);
    calls[i].law_no_empty_chunk();
    lemma_writes(queues[i], events[i]);
    assert(taken_by(events, 0) == 0);
    if let WriteEvent::Written(Ok(len)) = events[i] {
        let so_far = taken_by(events, i);
        assert(pending.skip(so_far).skip(len as int) =~= pending.skip(so_far + len));
    }
}

} // verus!
