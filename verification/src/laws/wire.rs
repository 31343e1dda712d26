//! Frames on the wire.

use std::io::Cursor;

use bytes::{Bytes, BytesMut};
use vstd::prelude::*;

use crate::bindings;
use crate::error::{Error, ProtocolError};
use crate::protocol::frame::coding::{self, Control, Data, OpCode};
use crate::protocol::frame::frame::{self, Frame, FrameHeader, FrameView, PreparedFrame};
use crate::protocol::frame::mask;

verus! {

broadcast use vstd::array::group_array_axioms;

/// `number` stands for `opcode` on the wire.
pub open spec fn numbered(opcode: OpCode, number: u8) -> bool {
    match opcode {
        OpCode::Data(Data::Continue) => number == 0,
        OpCode::Data(Data::Text) => number == 1,
        OpCode::Data(Data::Binary) => number == 2,
        OpCode::Control(Control::Close) => number == 8,
        OpCode::Control(Control::Ping) => number == 9,
        OpCode::Control(Control::Pong) => number == 10,
    }
}

/// `number` stands for no opcode.
pub open spec fn reserved(number: u8) -> bool {
    3 <= number <= 7 || 11 <= number <= 15
}

/// How many bytes a header takes up that has `second` as its second byte.
pub open spec fn size_by_second_byte(second: u8) -> int {
    let length: int = if second & 0x7f == 126 {
        2
    } else if second & 0x7f == 127 {
        8
    } else {
        0
    };
    let key: int = if second & 0x80 != 0 {
        4
    } else {
        0
    };
    2 + length + key
}

/// `bytes` start with a header of `size` bytes that says `header`, and that
/// the payload has `length` bytes.
pub open spec fn is_header(bytes: Seq<u8>, header: FrameHeader, length: u64, size: int) -> bool {
    &&& 2 <= size <= bytes.len()
    &&& size == size_by_second_byte(bytes[1])
    &&& numbered(header.opcode, bytes[0] & 0x0f)
    &&& header.is_final == (bytes[0] & 0x80 != 0)
    &&& header.rsv1 == (bytes[0] & 0x40 != 0)
    &&& header.rsv2 == (bytes[0] & 0x20 != 0)
    &&& header.rsv3 == (bytes[0] & 0x10 != 0)
    &&& bytes[1] & 0x7f < 126 ==> length == bytes[1] & 0x7f
    &&& bytes[1] & 0x7f == 126 ==> length == bytes[2] * 0x100 + bytes[3]
    &&& bytes[1] & 0x7f == 127 ==> length == bytes[2] * 0x100_0000_0000_0000 + bytes[3]
        * 0x1_0000_0000_0000 + bytes[4] * 0x100_0000_0000 + bytes[5] * 0x1_0000_0000 + bytes[6]
        * 0x100_0000 + bytes[7] * 0x1_0000 + bytes[8] * 0x100 + bytes[9]
    &&& header.mask is Some <==> bytes[1] & 0x80 != 0
    &&& header.mask matches Some(key) ==> forall|i: int|
        0 <= i < 4 ==> #[trigger] key@[i] == bytes[size - 4 + i]
}

/// The length of the payload is stated in as few bytes as it can be.
pub open spec fn is_shortest(bytes: Seq<u8>, length: u64) -> bool {
    &&& length < 126 <==> bytes[1] & 0x7f < 126
    &&& 126 <= length < 0x1_0000 <==> bytes[1] & 0x7f == 126
    &&& length >= 0x1_0000 <==> bytes[1] & 0x7f == 127
}

/// `bytes` are `payload` under the mask: byte for byte, with the four bytes of
/// the key taken in turn.
pub open spec fn is_masked(bytes: Seq<u8>, payload: Seq<u8>, key: Option<[u8; 4]>) -> bool {
    &&& bytes.len() == payload.len()
    &&& key matches Some(key) ==> forall|i: int|
        0 <= i < payload.len() ==> #[trigger] bytes[i] == payload[i] ^ key@[i % 4]
    &&& key is None ==> bytes == payload
}

/// `bytes` are `frame` on the wire: its header and, after it, its payload.
pub open spec fn is_frame(bytes: Seq<u8>, frame: FrameView) -> bool {
    let size = bytes.len() - frame.payload.len();
    &&& is_header(bytes, frame.header, frame.payload.len() as u64, size)
    &&& is_shortest(bytes, frame.payload.len() as u64)
    &&& is_masked(bytes.skip(size), frame.payload, frame.header.mask)
}

/// The numbers of the opcodes are 0, 1 and 2 for continuation, text and binary
/// frames, and 8, 9 and 10 for close, ping and pong frames.
pub proof fn law_opcode_numbers(opcode: OpCode, code: u8)
    requires
        call_ensures(OpCode::to_code, (opcode,), code),
    ensures
        numbered(opcode, code),
{
}

/// A number is read as the opcode that it stands for, and the numbers that
/// stand for none give none.
pub proof fn law_numbers_of_opcodes(code: u8, opcode: Option<OpCode>)
    requires
        call_ensures(OpCode::from_code, (code,), opcode),
    ensures
        opcode matches Some(opcode) ==> numbered(opcode, code),
        opcode is None <==> reserved(code) || code >= 16,
{
}

/// Read in network byte order, one byte more at the end makes a number 256
/// times as large and adds the byte; no bytes are zero.
pub proof fn law_read_be(bytes: &[u8], value: u64, more: &[u8], more_value: u64)
    requires
        call_ensures(coding::read_be, (bytes,), value),
        call_ensures(coding::read_be, (more,), more_value),
        more@.len() == bytes@.len() + 1,
        more@.take(bytes@.len() as int) == bytes@,
    ensures
        more_value == value * 256 + more@[bytes@.len() as int],
        bytes@.len() == 0 ==> value == 0,
{
    assert(more@.drop_last() =~= bytes@);
}

/// A number that fits is written so that it is read back, in the bytes that
/// were asked for, after what was there.
pub proof fn law_write_be(value: u64, size: usize, output: &mut Vec<u8>, read: &[u8], back: u64)
    requires
        call_ensures(coding::write_be, (value, size, output), ()),
        call_ensures(coding::read_be, (read,), back),
        size == 8 || (size == 2 && value < 0x1_0000),
        read@ == final(output)@.skip(old(output)@.len() as int),
    ensures
        final(output)@.len() == old(output)@.len() + size,
        final(output)@.take(old(output)@.len() as int) == old(output)@,
        back == value,
{
    coding::lemma_be_limits();
    coding::law_be_round_trip(value as nat, size as nat);
    let digits = coding::be_bytes(value as nat, size as nat);
    assert(final(output)@ == old(output)@ + digits);
    assert(read@ =~= digits);
    assert(final(output)@.take(old(output)@.len() as int) =~= old(output)@);
}

/// The last byte that is written of a number is what is left of it when it is
/// divided by 256, and the bytes before are those of the quotient.
pub proof fn law_write_be_digits(
    value: u64,
    size: usize,
    output: &mut Vec<u8>,
    quotient_output: &mut Vec<u8>,
)
    requires
        0 < size <= 8,
        call_ensures(coding::write_be, (value, size, output), ()),
        call_ensures(
            coding::write_be,
            ((value / 256) as u64, (size - 1) as usize, quotient_output),
            (),
        ),
        old(output)@ == old(quotient_output)@,
    ensures
        final(output)@ == final(quotient_output)@.push((value % 256) as u8),
        size == 1 ==> final(quotient_output)@ == old(quotient_output)@,
{
    assert(final(output)@ =~= final(quotient_output)@.push((value % 256) as u8));
}

/// Masking combines every byte of a payload with the byte of the key whose
/// turn it is, the last bytes as the first.
pub proof fn law_apply_mask(payload: &mut Vec<u8>, key: [u8; 4])
    requires
        call_ensures(mask::apply_mask, (payload, key), ()),
    ensures
        final(payload)@.len() == old(payload)@.len(),
        forall|i: int|
            0 <= i < old(payload)@.len() ==> #[trigger] final(payload)@[i] == old(payload)@[i]
                ^ key@[i % 4],
{
}

proof fn lemma_masked(payload: Seq<u8>, key: Option<[u8; 4]>)
    ensures
        is_masked(mask::masked(payload, key), payload, key),
{
}

proof fn lemma_be_value_two(bytes: Seq<u8>)
    requires
        bytes.len() == 2,
    ensures
        coding::be_value(bytes) == bytes[0] * 0x100 + bytes[1],
{
    reveal_with_fuel(coding::be_value, 3);
}

proof fn lemma_be_value_eight(bytes: Seq<u8>)
    requires
        bytes.len() == 8,
    ensures
        coding::be_value(bytes) == bytes[0] * 0x100_0000_0000_0000 + bytes[1]
            * 0x1_0000_0000_0000 + bytes[2] * 0x100_0000_0000 + bytes[3] * 0x1_0000_0000
            + bytes[4] * 0x100_0000 + bytes[5] * 0x1_0000 + bytes[6] * 0x100 + bytes[7],
{
    reveal_with_fuel(coding::be_value, 9);
}

proof fn lemma_nibble(first: u8)
    ensures
        first & 0x0f < 16,
{
    assert(first & 0x0f < 16) by (bit_vector);
}

proof fn lemma_seven_bits(second: u8)
    ensures
        second & 0x7f < 128,
{
    assert(second & 0x7f < 128) by (bit_vector);
}

/// What is read off the front of some bytes is the header that they start
/// with.
pub(crate) proof fn lemma_decoded(
    bytes: Seq<u8>,
    header: FrameHeader,
    length: u64,
    size: int,
)
    ensures
        frame::decode_header(bytes) is Incomplete <==> bytes.len() < 2 || bytes.len()
            < size_by_second_byte(bytes[1]),
        is_header(bytes, header, length, size) ==> frame::decode_header(bytes) == (
        frame::HeaderParse::Complete { header, length, size: size as nat }),
        frame::decode_header(bytes) matches frame::HeaderParse::Complete {
            header: h,
            length: l,
            size: s,
        } ==> is_header(bytes, h, l, s as int),
        frame::decode_header(bytes) matches frame::HeaderParse::Invalid { code, size: s } ==> {
            &&& code == bytes[0] & 0x0f
            &&& s == size_by_second_byte(bytes[1])
        },
        frame::decode_header(bytes) is Invalid <==> bytes.len() >= 2 && bytes.len()
            >= size_by_second_byte(bytes[1]) && reserved(bytes[0] & 0x0f),
{
    if bytes.len() >= 2 {
        lemma_nibble(bytes[0]);
        lemma_seven_bits(bytes[1]);
        if bytes.len() >= size_by_second_byte(bytes[1]) {
            coding::lemma_be_limits();
            if bytes[1] & 0x7f == 126 {
                coding::lemma_be_value_bound(bytes.subrange(2, 4));
                lemma_be_value_two(bytes.subrange(2, 4));
            } else if bytes[1] & 0x7f == 127 {
                coding::lemma_be_value_bound(bytes.subrange(2, 10));
                lemma_be_value_eight(bytes.subrange(2, 10));
            }
            if is_header(bytes, header, length, size) {
                if let Some(key) = header.mask {
                    assert(key@[0] == bytes[size - 4 + 0]);
                    assert(key@[1] == bytes[size - 4 + 1]);
                    assert(key@[2] == bytes[size - 4 + 2]);
                    assert(key@[3] == bytes[size - 4 + 3]);
                    assert(frame::header_mask(bytes)->Some_0 =~= key);
                }
            }
        }
    }
}

pub(crate) proof fn lemma_header_bytes(header: FrameHeader, length: u64, more: Seq<u8>)
    ensures
        is_header(
            frame::header_bytes(header, length) + more,
            header,
            length,
            frame::header_bytes(header, length).len() as int,
        ),
        is_shortest(frame::header_bytes(header, length) + more, length),
{
    let head = frame::header_bytes(header, length);
    crate::protocol::frame::laws::law_header_round_trip(header, length, more);
    lemma_decoded(head + more, header, length, head.len() as int);
    let short = frame::short_length(length);
    let a = frame::flag(header.mask is Some, 0x80);
    assert((short | a) & 0x7f == short) by (bit_vector)
        requires
            short < 128,
            a == 0 || a == 0x80,
    ;
    assert((head + more)[1] == short | a);
}

/// A header is written after what was there, and in the bytes that it takes:
/// the low four bits of its first byte are the number of the opcode, the other
/// four are the final bit and the reserved bits, the second byte has the mask
/// bit and says how long the payload is, alone or with the bytes that follow
/// it, and the mask comes last.
pub proof fn law_header_format(header: &FrameHeader, length: u64, output: &mut BytesMut)
    requires
        call_ensures(FrameHeader::format, (header, length, output), ()),
    ensures
        ({
            let before = bindings::bytes_mut_data(*old(output));
            let after = bindings::bytes_mut_data(*final(output));
            let written = after.skip(before.len() as int);
            &&& after == before + written
            &&& is_header(written, *header, length, written.len() as int)
            &&& is_shortest(written, length)
        }),
{
    let before = bindings::bytes_mut_data(*old(output));
    let after = bindings::bytes_mut_data(*final(output));
    let head = frame::header_bytes(*header, length);
    assert(after == before + head);
    assert(after.skip(before.len() as int) =~= head);
    lemma_header_bytes(*header, length, Seq::empty());
    assert(head + Seq::<u8>::empty() =~= head);
}

/// The first two bytes that are written of a header, bit by bit.
pub proof fn law_header_bits(header: &FrameHeader, length: u64, output: &mut BytesMut)
    requires
        call_ensures(FrameHeader::format, (header, length, output), ()),
    ensures
        ({
            let start = bindings::bytes_mut_data(*old(output)).len() as int;
            let one = bindings::bytes_mut_data(*final(output))[start];
            let two = bindings::bytes_mut_data(*final(output))[start + 1];
            &&& one & 0x0f == (match header.opcode {
                OpCode::Data(Data::Continue) => 0u8,
                OpCode::Data(Data::Text) => 1,
                OpCode::Data(Data::Binary) => 2,
                OpCode::Control(Control::Close) => 8,
                OpCode::Control(Control::Ping) => 9,
                OpCode::Control(Control::Pong) => 10,
            })
            &&& one & 0x80 != 0 <==> header.is_final
            &&& one & 0x40 != 0 <==> header.rsv1
            &&& one & 0x20 != 0 <==> header.rsv2
            &&& one & 0x10 != 0 <==> header.rsv3
            &&& two & 0x80 != 0 <==> header.mask is Some
            &&& length < 126 ==> two & 0x7f == length
            &&& 126 <= length < 65536 ==> two & 0x7f == 126
            &&& length >= 65536 ==> two & 0x7f == 127
        }),
{
    let before = bindings::bytes_mut_data(*old(output));
    let after = bindings::bytes_mut_data(*final(output));
    law_header_format(header, length, output);
    let written = after.skip(before.len() as int);
    assert(written[0] == after[before.len() as int]);
    assert(written[1] == after[before.len() as int + 1]);
}

/// What a header is read as agrees bit by bit with the first two bytes at the
/// cursor.
pub proof fn law_parsed_bits(
    cursor: &mut Cursor<Vec<u8>>,
    result: Result<Option<(FrameHeader, u64)>, Error>,
)
    requires
        call_ensures(FrameHeader::parse, (cursor,), result),
    ensures
        ({
            let start = bindings::cursor_offset(*old(cursor)) as int;
            let one = bindings::cursor_data(*old(cursor))[start];
            let two = bindings::cursor_data(*old(cursor))[start + 1];
            &&& result matches Ok(Some((header, length))) ==> {
                &&& one & 0x0f == (match header.opcode {
                    OpCode::Data(Data::Continue) => 0u8,
                    OpCode::Data(Data::Text) => 1,
                    OpCode::Data(Data::Binary) => 2,
                    OpCode::Control(Control::Close) => 8,
                    OpCode::Control(Control::Ping) => 9,
                    OpCode::Control(Control::Pong) => 10,
                })
                &&& header.is_final <==> one & 0x80 != 0
                &&& header.rsv1 <==> one & 0x40 != 0
                &&& header.rsv2 <==> one & 0x20 != 0
                &&& header.rsv3 <==> one & 0x10 != 0
                &&& header.mask is Some <==> two & 0x80 != 0
                &&& two & 0x7f < 126 ==> length == two & 0x7f
            }
            &&& result matches Err(error) ==> {
                &&& error == Error::Protocol(ProtocolError::InvalidOpcode(one & 0x0f))
                &&& 3 <= one & 0x0f <= 7 || 11 <= one & 0x0f <= 15
            }
        }),
{
    let start = bindings::cursor_offset(*old(cursor)) as int;
    let data = bindings::cursor_data(*old(cursor));
    law_header_parse(cursor, result, arbitrary(), 0, 0);
    if start <= data.len() {
        let input = data.skip(start);
        if input.len() >= 2 {
            assert(input[0] == data[start]);
            assert(input[1] == data[start + 1]);
        }
    }
}

/// The size of a header is two bytes, two or eight more for a length that is
/// too large for seven bits, and four more for a mask.
pub proof fn law_header_len(header: &FrameHeader, length: u64, size: usize)
    requires
        call_ensures(FrameHeader::len, (header, length), size),
    ensures
        size == 2 + (if length < 126 {
            0int
        } else if length < 0x1_0000 {
            2
        } else {
            8
        }) + (if header.mask is Some {
            4int
        } else {
            0
        }),
{
    coding::lemma_be_bytes_len(
        length as nat,
        frame::length_size(frame::short_length(length)),
    );
}

/// What is read as a header is what the bytes at the cursor say, and the cursor
/// moves past it. A header that is not all there gives nothing and leaves the
/// cursor where it is. One with a reserved opcode is refused, and the cursor
/// moves past it too.
pub proof fn law_header_parse(
    cursor: &mut Cursor<Vec<u8>>,
    result: Result<Option<(FrameHeader, u64)>, Error>,
    header: FrameHeader,
    length: u64,
    size: int,
)
    requires
        call_ensures(FrameHeader::parse, (cursor,), result),
    ensures
        ({
            let start = bindings::cursor_offset(*old(cursor)) as int;
            let end = bindings::cursor_offset(*final(cursor)) as int;
            let data = bindings::cursor_data(*old(cursor));
            let input = if start <= data.len() {
                data.skip(start)
            } else {
                Seq::empty()
            };
            &&& bindings::cursor_data(*final(cursor)) == bindings::cursor_data(*old(cursor))
            &&& is_header(input, header, length, size) ==> {
                &&& result == Ok::<Option<(FrameHeader, u64)>, Error>(Some((header, length)))
                &&& end == start + size
            }
            &&& result matches Ok(Some((h, l))) ==> is_header(input, h, l, end - start)
            &&& (result matches Ok(None)) <==> input.len() < 2 || input.len() < size_by_second_byte(
                input[1],
            )
            &&& result matches Ok(None) ==> end == start
            &&& result is Err <==> input.len() >= 2 && input.len() >= size_by_second_byte(
                input[1],
            ) && reserved(input[0] & 0x0f)
            &&& result matches Err(error) ==> {
                &&& error == Error::Protocol(ProtocolError::InvalidOpcode(input[0] & 0x0f))
                &&& end == start + size_by_second_byte(input[1])
            }
        }),
{
    let start = bindings::cursor_offset(*old(cursor)) as int;
    let data = bindings::cursor_data(*old(cursor));
    let input = if start <= data.len() {
        data.skip(start)
    } else {
        Seq::empty()
    };
    lemma_decoded(input, header, length, size);
}

pub(crate) proof fn lemma_frame_bytes(sent: FrameView)
    requires
        sent.payload.len() <= u64::MAX,
    ensures
        is_frame(frame::frame_bytes(sent), sent),
{
    let length = sent.payload.len() as u64;
    let head = frame::header_bytes(sent.header, length);
    let body = mask::masked(sent.payload, sent.header.mask);
    lemma_header_bytes(sent.header, length, body);
    lemma_masked(sent.payload, sent.header.mask);
    assert(frame::frame_bytes(sent).skip(head.len() as int) =~= body);
}

/// A frame is written after what was there, as its header and, under the mask
/// of the header if it has one, its payload.
pub proof fn law_frame_format(sent: Frame, output: &mut BytesMut)
    requires
        call_ensures(Frame::format, (sent, output), ()),
        sent@.payload.len() <= u64::MAX,
    ensures
        ({
            let before = bindings::bytes_mut_data(*old(output));
            let after = bindings::bytes_mut_data(*final(output));
            let written = after.skip(before.len() as int);
            &&& after == before + written
            &&& is_frame(written, sent@)
        }),
{
    let before = bindings::bytes_mut_data(*old(output));
    let after = bindings::bytes_mut_data(*final(output));
    assert(after == before + frame::frame_bytes(sent@));
    assert(after.skip(before.len() as int) =~= frame::frame_bytes(sent@));
    lemma_frame_bytes(sent@);
}

/// The size of a frame is that of its header and its payload.
pub proof fn law_frame_len(sent: &Frame, header_size: usize, size: usize)
    requires
        call_ensures(Frame::len, (sent,), size),
        call_ensures(
            FrameHeader::len,
            (&sent@.header, sent@.payload.len() as u64),
            header_size,
        ),
    ensures
        size == header_size + sent@.payload.len(),
{
}

/// A prepared frame holds the header and the payload as they are on the wire.
pub proof fn law_prepare(sent: Frame, prepared: PreparedFrame)
    requires
        call_ensures(PreparedFrame::new, (sent,), prepared),
        sent@.payload.len() <= u64::MAX,
    ensures
        is_frame(prepared.wire_header() + prepared.wire_payload(), sent@),
        prepared.wire_payload().len() == sent@.payload.len(),
{
    assert(prepared.wire_header() + prepared.wire_payload() =~= frame::frame_bytes(sent@));
    lemma_frame_bytes(sent@);
}

/// A frame that is made of a header and a payload has them.
pub proof fn law_from_payload(header: FrameHeader, payload: Vec<u8>, made: Frame)
    requires
        call_ensures(Frame::from_payload, (header, payload), made),
    ensures
        made@.header == header,
        made@.payload == payload@,
{
}

/// What a frame gives out is its header and its payload, however it was made.
pub proof fn law_frame_parts(
    made: Frame,
    got_header: &FrameHeader,
    got_payload: &[u8],
    data: Vec<u8>,
)
    requires
        call_ensures(Frame::header, (&made,), got_header),
        call_ensures(Frame::payload, (&made,), got_payload),
        call_ensures(Frame::into_data, (made,), data),
    ensures
        *got_header == made@.header,
        got_payload@ == made@.payload,
        data@ == made@.payload,
{
}

/// What a prepared frame gives out is its header and its payload on the wire.
pub proof fn law_prepared_parts(prepared: &PreparedFrame, header: &Bytes, payload: &Bytes)
    requires
        call_ensures(PreparedFrame::header, (prepared,), header),
        call_ensures(PreparedFrame::payload, (prepared,), payload),
    ensures
        bindings::bytes_data(*header) == prepared.wire_header(),
        bindings::bytes_data(*payload) == prepared.wire_payload(),
{
}

/// Ping and pong frames are final control frames without reserved bits and
/// without a mask, and have the payload that they are given.
pub proof fn law_ping_and_pong(data: Vec<u8>, ping: Frame, pong: Frame)
    requires
        call_ensures(Frame::ping, (data,), ping),
        call_ensures(Frame::pong, (data,), pong),
    ensures
        ping@.header.opcode == OpCode::Control(Control::Ping),
        pong@.header.opcode == OpCode::Control(Control::Pong),
        ping@.header.is_final && pong@.header.is_final,
        !ping@.header.rsv1 && !ping@.header.rsv2 && !ping@.header.rsv3,
        !pong@.header.rsv1 && !pong@.header.rsv2 && !pong@.header.rsv3,
        ping@.header.mask is None && pong@.header.mask is None,
        ping@.payload == data@,
        pong@.payload == data@,
{
}

} // verus!
