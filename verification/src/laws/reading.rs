//! Reading frames.

use vstd::prelude::*;

use super::wire::{self, is_frame, is_header, reserved, size_by_second_byte};
use crate::error::{CapacityError, Error, ProtocolError};
use crate::protocol::frame::frame::{self, FrameHeader, FrameView};
use crate::protocol::frame::{self as codec_mod, FrameCodec, FrameSocket};
use crate::protocol::frame::{ReadAction, ReadEvent, ReadState};

verus! {

/// A payload of `length` bytes is not over the limit that the caller set.
pub open spec fn within(length: u64, max_size: Option<usize>) -> bool {
    match max_size {
        Some(limit) => length <= limit,
        None => length <= usize::MAX,
    }
}

/// What is refused is refused with the length of the payload and with the
/// limit that the caller set.
pub open spec fn refuses(action: ReadAction, length: u64, max_size: Option<usize>) -> bool {
    action matches ReadAction::Return(
        Err(Error::Capacity(CapacityError::MessageTooLong { size, max_size: limit })),
    ) && size == length as usize && limit == (match max_size {
        Some(limit) => limit,
        None => usize::MAX,
    })
}

/// The header of the frame is known, and `input` is what has come in after it:
/// the frame is refused if it is over the limit, returned if its payload is all
/// there, and else more is read. What does not belong to it stays.
pub open spec fn goes_on(
    header: FrameHeader,
    length: u64,
    input: Seq<u8>,
    max_size: Option<usize>,
    after: ReadState,
    action: ReadAction,
) -> bool {
    &&& !within(length, max_size) ==> {
        &&& refuses(action, length, max_size)
        &&& after.unread == input
        &&& after.header == Some((header, length))
    }
    &&& within(length, max_size) && input.len() < length ==> {
        &&& action == ReadAction::Read
        &&& after.unread == input
        &&& after.header == Some((header, length))
    }
    &&& within(length, max_size) && input.len() >= length ==> {
        &&& action matches ReadAction::Return(Ok(Some(frame)))
        &&& frame@.header == header
        &&& frame@.payload == input.take(length as int)
        &&& after.unread == input.skip(length as int)
        &&& after.header is None
    }
}

/// What comes of `input`, when `known` is what has been read of the header.
pub open spec fn comes_to(
    known: Option<(FrameHeader, u64)>,
    input: Seq<u8>,
    max_size: Option<usize>,
    after: ReadState,
    action: ReadAction,
) -> bool {
    &&& known matches Some((header, length)) ==> goes_on(
        header,
        length,
        input,
        max_size,
        after,
        action,
    )
    &&& known is None ==> {
        &&& forall|header: FrameHeader, length: u64, size: int| #[trigger]
            is_header(input, header, length, size) ==> goes_on(
                header,
                length,
                input.skip(size),
                max_size,
                after,
                action,
            )
        &&& input.len() < 2 || input.len() < size_by_second_byte(input[1]) ==> {
            &&& action == ReadAction::Read
            &&& after.unread == input
            &&& after.header is None
        }
        &&& input.len() >= 2 && input.len() >= size_by_second_byte(input[1]) && reserved(
            input[0] & 0x0f,
        ) ==> {
            &&& action == ReadAction::Return(
                Err(Error::Protocol(ProtocolError::InvalidOpcode(input[0] & 0x0f))),
            )
            &&& after.unread == input.skip(size_by_second_byte(input[1]))
            &&& after.header is None
        }
    }
}

/// What a call for a frame does to the input, and what it asks for or returns.
pub open spec fn reads(
    before: ReadState,
    space: Seq<u8>,
    max_size: Option<usize>,
    event: ReadEvent,
    after: ReadState,
    action: ReadAction,
) -> bool {
    match event {
        ReadEvent::Begin => comes_to(before.header, before.unread, max_size, after, action),
        ReadEvent::Received(Ok(size)) => {
            &&& size == 0 ==> {
                &&& action == ReadAction::Return(Ok(None))
                &&& after == before
            }
            &&& size > 0 ==> comes_to(
                before.header,
                before.unread + space.take(size as int),
                max_size,
                after,
                action,
            )
        },
        ReadEvent::Received(Err(error)) => {
            &&& action == ReadAction::Return(Err(Error::Io(error)))
            &&& after == before
        },
    }
}

proof fn lemma_comes_to(
    known: Option<(FrameHeader, u64)>,
    input: Seq<u8>,
    max_size: Option<usize>,
    after: ReadState,
    action: ReadAction,
)
    requires
        ({
            let limit = codec_mod::size_limit(max_size);
            let (next, attempt) = codec_mod::take_frame(
                ReadState { unread: input, header: known },
                limit,
            );
            after == next && codec_mod::reports(action, attempt, limit)
        }),
    ensures
        comes_to(known, input, max_size, after, action),
{
    if known is None {
        assert forall|header: FrameHeader, length: u64, size: int| #[trigger]
            is_header(input, header, length, size) implies goes_on(
            header,
            length,
            input.skip(size),
            max_size,
            after,
            action,
        ) by {
            wire::lemma_decoded(input, header, length, size);
        }
        wire::lemma_decoded(input, arbitrary(), 0, 0);
    }
}

proof fn lemma_reads(
    before: ReadState,
    space: Seq<u8>,
    max_size: Option<usize>,
    event: ReadEvent,
    after: ReadState,
    action: ReadAction,
)
    requires
        after == codec_mod::input_after(
            before,
            space,
            codec_mod::size_limit(max_size),
            event,
        ),
        codec_mod::read_reports(
            action,
            before,
            space,
            codec_mod::size_limit(max_size),
            event,
        ),
    ensures
        reads(before, space, max_size, event, after, action),
{
    match event {
        ReadEvent::Begin => {
            assert(before =~= (ReadState { unread: before.unread, header: before.header }));
            lemma_comes_to(before.header, before.unread, max_size, after, action);
        },
        ReadEvent::Received(Ok(size)) => {
            if size > 0 {
                lemma_comes_to(
                    before.header,
                    before.unread + space.take(size as int),
                    max_size,
                    after,
                    action,
                );
            }
        },
        ReadEvent::Received(Err(_)) => {},
    }
}

/// Reading a frame: after each event the input comes to what its bytes say.
pub proof fn law_read_frame(
    codec: &mut FrameCodec,
    max_size: Option<usize>,
    event: ReadEvent,
    action: ReadAction,
)
    requires
        call_ensures(FrameCodec::read_frame, (codec, max_size, event), action),
    ensures
        reads(old(codec)@.input, old(codec).space(), max_size, event, final(codec)@.input, action),
        final(codec)@.queue == old(codec)@.queue,
        final(codec).space() == old(codec).space(),
        final(codec).wf(),
{
    lemma_reads(
        old(codec)@.input,
        old(codec).space(),
        max_size,
        event,
        final(codec)@.input,
        action,
    );
}

/// A socket reads frames as its codec does, and has its stream back.
pub proof fn law_socket_read_frame<Stream>(
    socket: &mut FrameSocket<Stream>,
    max_size: Option<usize>,
    event: ReadEvent,
    action: ReadAction,
)
    requires
        call_ensures(FrameSocket::<Stream>::read_frame, (socket, max_size, event), action),
    ensures
        reads(
            old(socket)@.input,
            old(socket).space(),
            max_size,
            event,
            final(socket)@.input,
            action,
        ),
        final(socket)@.queue == old(socket)@.queue,
        final(socket).inner() == old(socket).inner(),
        final(socket).space() == old(socket).space(),
        final(socket).wf(),
{
    lemma_reads(
        old(socket)@.input,
        old(socket).space(),
        max_size,
        event,
        final(socket)@.input,
        action,
    );
}

/// The end of the stream is reported exactly when a read gave no bytes: not
/// before the first read, and not after a read that gave some, however short
/// of a frame they are.
pub proof fn law_end_of_stream(
    codec: &mut FrameCodec,
    max_size: Option<usize>,
    event: ReadEvent,
    action: ReadAction,
)
    requires
        call_ensures(FrameCodec::read_frame, (codec, max_size, event), action),
    ensures
        action == ReadAction::Return(Ok(None)) <==> event == ReadEvent::Received(Ok(0)),
{
}

/// The same of a socket.
pub proof fn law_socket_end_of_stream<Stream>(
    socket: &mut FrameSocket<Stream>,
    max_size: Option<usize>,
    event: ReadEvent,
    action: ReadAction,
)
    requires
        call_ensures(FrameSocket::<Stream>::read_frame, (socket, max_size, event), action),
    ensures
        action == ReadAction::Return(Ok(None)) <==> event == ReadEvent::Received(Ok(0)),
{
}

/// With a limit, no frame is returned that has a longer payload, and what is
/// refused as too long is longer, with the limit and the length named. Without
/// a limit only a payload is refused that no buffer can hold.
pub proof fn law_limit_is_kept(
    codec: &mut FrameCodec,
    max_size: Option<usize>,
    event: ReadEvent,
    action: ReadAction,
)
    requires
        call_ensures(FrameCodec::read_frame, (codec, max_size, event), action),
    ensures
        max_size matches Some(limit) ==> {
            action matches ReadAction::Return(Ok(Some(frame))) ==> frame@.payload.len() <= limit
        },
        action matches ReadAction::Return(
            Err(Error::Capacity(CapacityError::MessageTooLong { size, max_size: named })),
        ) ==> {
            &&& max_size matches Some(limit) ==> named == limit
            &&& max_size is None ==> named == usize::MAX
            &&& final(codec)@.input.header matches Some((_, length)) && length > named && size
                == length as usize
        },
{
}

/// A frame whose header has been read and that is over the limit is refused at
/// once, and one that is not is never refused. Without a limit the largest
/// `usize` takes its place.
pub proof fn law_over_the_limit(
    codec: &mut FrameCodec,
    max_size: Option<usize>,
    event: ReadEvent,
    action: ReadAction,
    header: FrameHeader,
    length: u64,
)
    requires
        call_ensures(FrameCodec::read_frame, (codec, max_size, event), action),
        old(codec)@.input.header == Some((header, length)),
        event == ReadEvent::Begin || (event matches ReadEvent::Received(Ok(size)) && size > 0),
    ensures
        max_size matches Some(limit) ==> {
            &&& length > limit ==> action == ReadAction::Return(
                Err(
                    Error::Capacity(
                        CapacityError::MessageTooLong { size: length as usize, max_size: limit },
                    ),
                ),
            )
            &&& length <= limit ==> !(action matches ReadAction::Return(Err(_)))
        },
        max_size is None ==> {
            &&& length > usize::MAX ==> action == ReadAction::Return(
                Err(
                    Error::Capacity(
                        CapacityError::MessageTooLong {
                            size: length as usize,
                            max_size: usize::MAX,
                        },
                    ),
                ),
            )
            &&& length <= usize::MAX ==> !(action matches ReadAction::Return(Err(_)))
        },
{
}

/// The same of a socket.
pub proof fn law_socket_over_the_limit<Stream>(
    socket: &mut FrameSocket<Stream>,
    max_size: Option<usize>,
    event: ReadEvent,
    action: ReadAction,
    header: FrameHeader,
    length: u64,
)
    requires
        call_ensures(FrameSocket::<Stream>::read_frame, (socket, max_size, event), action),
        old(socket)@.input.header == Some((header, length)),
        event == ReadEvent::Begin || (event matches ReadEvent::Received(Ok(size)) && size > 0),
    ensures
        max_size matches Some(limit) ==> {
            &&& length > limit ==> action == ReadAction::Return(
                Err(
                    Error::Capacity(
                        CapacityError::MessageTooLong { size: length as usize, max_size: limit },
                    ),
                ),
            )
            &&& length <= limit ==> !(action matches ReadAction::Return(Err(_)))
        },
        max_size is None ==> {
            &&& length > usize::MAX ==> action == ReadAction::Return(
                Err(
                    Error::Capacity(
                        CapacityError::MessageTooLong {
                            size: length as usize,
                            max_size: usize::MAX,
                        },
                    ),
                ),
            )
            &&& length <= usize::MAX ==> !(action matches ReadAction::Return(Err(_)))
        },
{
}

/// A frame whose header comes in is refused exactly if the length that the
/// header states is over the limit, whether or not any of the payload is there.
pub proof fn law_over_the_limit_on_the_wire(
    codec: &mut FrameCodec,
    max_size: Option<usize>,
    event: ReadEvent,
    action: ReadAction,
    input: Seq<u8>,
    header: FrameHeader,
    length: u64,
    size: int,
)
    requires
        call_ensures(FrameCodec::read_frame, (codec, max_size, event), action),
        old(codec)@.input.header is None,
        (event == ReadEvent::Begin && input == old(codec)@.input.unread) || (
        event matches ReadEvent::Received(Ok(len)) && len > 0 && input == old(codec)@.input.unread
            + old(codec).space().take(len as int)),
        is_header(input, header, length, size),
    ensures
        refuses(action, length, max_size) <==> !within(length, max_size),
        action matches ReadAction::Return(Err(_)) ==> !within(length, max_size),
{
    lemma_reads(
        old(codec)@.input,
        old(codec).space(),
        max_size,
        event,
        final(codec)@.input,
        action,
    );
}

/// It makes no difference whether bytes are there at first or come with a read:
/// when a call asks for a read, going on with what was read gives the same as a
/// call that finds it all.
pub proof fn law_later_is_no_different(
    codec: &mut FrameCodec,
    next: &mut FrameCodec,
    whole: &mut FrameCodec,
    max_size: Option<usize>,
    size: usize,
    action: ReadAction,
    whole_action: ReadAction,
)
    requires
        call_ensures(
            FrameCodec::read_frame,
            (codec, max_size, ReadEvent::Begin),
            ReadAction::Read,
        ),
        call_ensures(
            FrameCodec::read_frame,
            (next, max_size, ReadEvent::Received(Ok(size))),
            action,
        ),
        call_ensures(FrameCodec::read_frame, (whole, max_size, ReadEvent::Begin), whole_action),
        size > 0,
        old(next)@.input == final(codec)@.input,
        old(whole)@.input.header == old(codec)@.input.header,
        old(whole)@.input.unread == old(codec)@.input.unread + old(next).space().take(size as int),
    ensures
        final(next)@.input == final(whole)@.input,
        action is Read <==> whole_action is Read,
        action matches ReadAction::Return(Ok(Some(frame))) ==> {
            whole_action matches ReadAction::Return(Ok(Some(same))) && same@ == frame@
        },
        action matches ReadAction::Return(Err(error)) ==> whole_action == action,
{
    let more = old(next).space().take(size as int);
    crate::protocol::frame::laws::law_more_input(
        old(codec)@.input,
        codec_mod::size_limit(max_size),
        more,
    );
    assert(old(whole)@.input =~= codec_mod::feed(old(codec)@.input, more));
}

/// Calls for one frame: the first has no event before it, and each of the others
/// follows a read that gave bytes.
pub open spec fn is_read_run(
    calls: Seq<&mut FrameCodec>,
    max_size: Option<usize>,
    sizes: Seq<usize>,
    actions: Seq<ReadAction>,
) -> bool {
    &&& calls.len() == actions.len() == sizes.len() + 1
    &&& call_ensures(FrameCodec::read_frame, (calls[0], max_size, ReadEvent::Begin), actions[0])
    &&& forall|i: int|
        0 <= i < sizes.len() ==> 0 < #[trigger] sizes[i] <= calls[i + 1].space().len()
            && call_ensures(
            FrameCodec::read_frame,
            (calls[i + 1], max_size, ReadEvent::Received(Ok(sizes[i]))),
            actions[i + 1],
        )
}

/// What has come in by the call with this number.
pub open spec fn came_in(calls: Seq<&mut FrameCodec>, sizes: Seq<usize>, number: int) -> Seq<u8>
    decreases number,
{
    if number <= 0 {
        calls[0]@.input.unread
    } else {
        came_in(calls, sizes, number - 1) + calls[number].space().take(sizes[number - 1] as int)
    }
}

/// However many reads the bytes of a frame come with, each call asks for
/// another read until they are all there, and the call that has them returns
/// the frame: its header, the bytes of its payload, and what came in after it
/// left for the next frame. Each call finds the input as the call before it left
/// it: these are the `inputs`. `wire` starts with the frame, and what has come in
/// by the last call is a part of `wire` from its start on.
pub proof fn law_read_run(
    calls: Seq<&mut FrameCodec>,
    inputs: Seq<ReadState>,
    max_size: Option<usize>,
    sizes: Seq<usize>,
    actions: Seq<ReadAction>,
    wire: Seq<u8>,
    header: FrameHeader,
    length: u64,
    size: int,
)
    requires
        is_read_run(calls, max_size, sizes, actions),
        forall|i: int|
            #![trigger calls[i]]
            0 <= i < calls.len() ==> calls[i]@.input == inputs[i]
                && final(calls[i])@.input == inputs[i + 1],
        calls[0]@.input.header is None,
        is_header(wire, header, length, size),
        within(length, max_size),
        came_in(calls, sizes, sizes.len() as int).is_prefix_of(wire),
        sizes.len() > 0 ==> came_in(calls, sizes, sizes.len() - 1).len() < size + length,
    ensures
        ({
            let number = sizes.len() as int;
            let all = came_in(calls, sizes, number);
            &&& forall|i: int| 0 <= i < number ==> #[trigger] actions[i] == ReadAction::Read
            &&& all.len() < size + length ==> actions[number] == ReadAction::Read
            &&& all.len() >= size + length ==> {
                &&& actions[number] matches ReadAction::Return(Ok(Some(frame)))
                &&& frame@.header == header
                &&& frame@.payload == wire.subrange(size, size + length)
                &&& final(calls[number])@.input.unread == all.skip(size + length)
                &&& final(calls[number])@.input.header is None
            }
        }),
{
    lemma_read_run(
        calls,
        inputs,
        max_size,
        sizes,
        actions,
        wire,
        header,
        length,
        size,
        sizes.len() as int,
    );
    assert forall|i: int| 0 <= i < sizes.len() implies #[trigger] actions[i]
        == ReadAction::Read by {
        lemma_came_in_grows(calls, max_size, sizes, actions, i, sizes.len() - 1);
        lemma_came_in_grows(calls, max_size, sizes, actions, i, sizes.len() as int);
        lemma_read_run(calls, inputs, max_size, sizes, actions, wire, header, length, size, i);
    }
}

proof fn lemma_came_in_grows(
    calls: Seq<&mut FrameCodec>,
    max_size: Option<usize>,
    sizes: Seq<usize>,
    actions: Seq<ReadAction>,
    i: int,
    j: int,
)
    requires
        is_read_run(calls, max_size, sizes, actions),
        0 <= i <= j <= sizes.len(),
    ensures
        came_in(calls, sizes, i).len() <= came_in(calls, sizes, j).len(),
        came_in(calls, sizes, i).is_prefix_of(came_in(calls, sizes, j)),
    decreases j - i,
{
    if i < j {
        lemma_came_in_grows(calls, max_size, sizes, actions, i, j - 1);
        assert(0 < sizes[j - 1]);
    }
}

proof fn lemma_read_run(
    calls: Seq<&mut FrameCodec>,
    inputs: Seq<ReadState>,
    max_size: Option<usize>,
    sizes: Seq<usize>,
    actions: Seq<ReadAction>,
    wire: Seq<u8>,
    header: FrameHeader,
    length: u64,
    size: int,
    number: int,
)
    requires
        is_read_run(calls, max_size, sizes, actions),
        forall|i: int|
            #![trigger calls[i]]
            0 <= i < calls.len() ==> calls[i]@.input == inputs[i]
                && final(calls[i])@.input == inputs[i + 1],
        calls[0]@.input.header is None,
        is_header(wire, header, length, size),
        within(length, max_size),
        0 <= number <= sizes.len(),
        came_in(calls, sizes, number).is_prefix_of(wire),
        number > 0 ==> came_in(calls, sizes, number - 1).len() < size + length,
    ensures
        ({
            let all = came_in(calls, sizes, number);
            let after = final(calls[number])@.input;
            &&& all.len() < size ==> {
                &&& actions[number] == ReadAction::Read
                &&& after.header is None
                &&& after.unread == all
            }
            &&& size <= all.len() < size + length ==> {
                &&& actions[number] == ReadAction::Read
                &&& after.header == Some((header, length))
                &&& after.unread == all.skip(size)
            }
            &&& all.len() >= size + length ==> {
                &&& actions[number] matches ReadAction::Return(Ok(Some(frame)))
                &&& frame@.header == header
                &&& frame@.payload == wire.subrange(size, size + length)
                &&& after.unread == all.skip(size + length)
                &&& after.header is None
            }
        }),
    decreases number,
{
    let all = came_in(calls, sizes, number);
    let before = calls[number]@.input;
    let after = inputs[number + 1];
    let event = if number == 0 {
        ReadEvent::Begin
    } else {
        ReadEvent::Received(Ok(sizes[number - 1]))
    };
    if number > 0 {
        let last = came_in(calls, sizes, number - 1);
        assert(0 < sizes[number - 1]);
        lemma_came_in_grows(calls, max_size, sizes, actions, number - 1, number);
        if number > 1 {
            lemma_came_in_grows(calls, max_size, sizes, actions, number - 2, number - 1);
        }
        lemma_read_run(
            calls,
            inputs,
            max_size,
            sizes,
            actions,
            wire,
            header,
            length,
            size,
            number - 1,
        );
        let more = calls[number].space().take(sizes[number - 1] as int);
        if last.len() >= size {
            assert(last.skip(size) + more =~= all.skip(size));
        }
    }
    lemma_reads(before, calls[number].space(), max_size, event, after, actions[number]);
    let input = if number == 0 {
        before.unread
    } else {
        before.unread + calls[number].space().take(sizes[number - 1] as int)
    };
    lemma_run_step(
        before.header,
        input,
        all,
        wire,
        header,
        length,
        size,
        max_size,
        after,
        actions[number],
    );
}

proof fn lemma_run_step(
    known: Option<(FrameHeader, u64)>,
    input: Seq<u8>,
    all: Seq<u8>,
    wire: Seq<u8>,
    header: FrameHeader,
    length: u64,
    size: int,
    max_size: Option<usize>,
    after: ReadState,
    action: ReadAction,
)
    requires
        is_header(wire, header, length, size),
        within(length, max_size),
        all.is_prefix_of(wire),
        comes_to(known, input, max_size, after, action),
        (known is None && input == all) || (known == Some((header, length)) && size <= all.len()
            && input == all.skip(size)),
    ensures
        all.len() < size ==> {
            &&& action == ReadAction::Read
            &&& after.header is None
            &&& after.unread == all
        },
        size <= all.len() < size + length ==> {
            &&& action == ReadAction::Read
            &&& after.header == Some((header, length))
            &&& after.unread == all.skip(size)
        },
        all.len() >= size + length ==> {
            &&& action matches ReadAction::Return(Ok(Some(frame)))
            &&& frame@.header == header
            &&& frame@.payload == wire.subrange(size, size + length)
            &&& after.unread == all.skip(size + length)
            &&& after.header is None
        },
{
    assert(forall|i: int| 0 <= i < all.len() ==> all[i] == wire[i]);
    if all.len() >= size {
        lemma_header_in_prefix(wire, header, length, size, all);
        if all.len() >= size + length {
            assert(all.skip(size).take(length as int) =~= wire.subrange(size, size + length));
            assert(all.skip(size).skip(length as int) =~= all.skip(size + length));
        }
    } else {
        assert(all.len() < 2 || all.len() < size_by_second_byte(all[1]));
    }
}

proof fn lemma_header_in_prefix(
    wire: Seq<u8>,
    header: FrameHeader,
    length: u64,
    size: int,
    part: Seq<u8>,
)
    requires
        is_header(wire, header, length, size),
        part.is_prefix_of(wire),
        size <= part.len(),
    ensures
        is_header(part, header, length, size),
{
    assert(forall|i: int| 0 <= i < part.len() ==> part[i] == wire[i]);
    if let Some(key) = header.mask {
        assert forall|i: int| 0 <= i < 4 implies #[trigger] key@[i] == part[size - 4 + i] by {
            assert(key@[i] == wire[size - 4 + i]);
        }
    }
}

/// A frame that is on the wire is read as the frame that was sent, with the
/// payload as it is on the wire, in a single call that finds it all.
pub proof fn law_read_sent_frame(
    codec: &mut FrameCodec,
    max_size: Option<usize>,
    action: ReadAction,
    sent: FrameView,
    wire: Seq<u8>,
    rest: Seq<u8>,
)
    requires
        call_ensures(FrameCodec::read_frame, (codec, max_size, ReadEvent::Begin), action),
        old(codec)@.input.header is None,
        old(codec)@.input.unread == wire + rest,
        is_frame(wire, sent),
        sent.payload.len() <= u64::MAX,
        within(sent.payload.len() as u64, max_size),
    ensures
        action matches ReadAction::Return(Ok(Some(frame))) && frame@.header == sent.header
            && wire::is_masked(frame@.payload, sent.payload, sent.header.mask),
        final(codec)@.input.unread == rest,
        final(codec)@.input.header is None,
{
    let size = wire.len() - sent.payload.len();
    let length = sent.payload.len() as u64;
    let input = wire + rest;
    assert(is_header(input, sent.header, length, size)) by {
        assert(forall|i: int| 0 <= i < wire.len() ==> input[i] == wire[i]);
        if let Some(key) = sent.header.mask {
            assert forall|i: int| 0 <= i < 4 implies #[trigger] key@[i] == input[size - 4 + i] by {
                assert(key@[i] == wire[size - 4 + i]);
            }
        }
    }
    law_read_frame(codec, max_size, ReadEvent::Begin, action);
    assert(input.skip(size).take(length as int) =~= wire.skip(size));
    assert(input.skip(size).skip(length as int) =~= rest);
}

} // verus!
