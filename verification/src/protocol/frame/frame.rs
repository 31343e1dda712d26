//! Frames, their headers, and what they look like on the wire.

use std::io::Cursor;

use bytes::{Bytes, BytesMut};
use vstd::prelude::*;

use super::coding::{read_be, write_be, Control, OpCode};
use super::mask::apply_mask;
use super::{coding, mask};
use crate::bindings::{
    self, bytes_mut_freeze, bytes_mut_new, bytes_mut_split, bytes_mut_write_all, cursor_advance,
    cursor_chunk,
};
use crate::error::{Error, ProtocolError};

verus! {

broadcast use vstd::array::group_array_axioms;

/// The header of a frame.
#[derive(Debug, Clone, Copy, PartialEq, Eq)]
pub struct FrameHeader {
    /// The frame is the last one of its message.
    pub is_final: bool,
    /// The first reserved bit.
    pub rsv1: bool,
    /// The second reserved bit.
    pub rsv2: bool,
    /// The third reserved bit.
    pub rsv3: bool,
    /// The opcode of the frame.
    pub opcode: OpCode,
    /// The mask that is applied to the payload on the wire, if any.
    pub mask: Option<[u8; 4]>,
}

/// How many bytes hold the length of the payload, given the lower seven bits
/// of the second byte of a frame; with none, these bits are the length.
pub open spec fn length_size(short: u8) -> nat {
    if short == 126 {
        2
    } else if short == 127 {
        8
    } else {
        0
    }
}

/// The lower seven bits of the second byte of a frame with a payload of
/// `length` bytes.
pub open spec fn short_length(length: u64) -> u8 {
    if length < 126 {
        length as u8
    } else if length < 65536 {
        126
    } else {
        127
    }
}

/// `bit` if `set`, else nothing.
pub open spec fn flag(set: bool, bit: u8) -> u8 {
    if set {
        bit
    } else {
        0
    }
}

/// The first byte of a frame: the final bit, the reserved bits and the opcode.
pub open spec fn first_byte(header: FrameHeader) -> u8 {
    coding::opcode_to_code(header.opcode) | flag(header.is_final, 0x80) | flag(header.rsv1, 0x40)
        | flag(header.rsv2, 0x20) | flag(header.rsv3, 0x10)
}

/// The second byte of a frame: the mask bit and the start of the length.
pub open spec fn second_byte(header: FrameHeader, length: u64) -> u8 {
    short_length(length) | flag(header.mask is Some, 0x80)
}

/// The bytes of the mask.
pub open spec fn mask_bytes(mask: Option<[u8; 4]>) -> Seq<u8> {
    match mask {
        Some(key) => key@,
        None => Seq::empty(),
    }
}

/// The header of a frame with a payload of `length` bytes, on the wire.
pub open spec fn header_bytes(header: FrameHeader, length: u64) -> Seq<u8> {
    seq![first_byte(header), second_byte(header, length)] + coding::be_bytes(
        length as nat,
        length_size(short_length(length)),
    ) + mask_bytes(header.mask)
}

/// What the first bytes of an input are.
pub enum HeaderParse {
    /// The start of a header that goes on.
    Incomplete,
    /// A header of `size` bytes with an opcode that is reserved.
    Invalid {
        /// The opcode.
        code: u8,
        /// The size of the header.
        size: nat,
    },
    /// A header of `size` bytes.
    Complete {
        /// What the header says of the frame.
        header: FrameHeader,
        /// What the header says of the length of the payload.
        length: u64,
        /// The size of the header.
        size: nat,
    },
}

/// The size of a header, given its second byte.
pub open spec fn header_size(second: u8) -> nat {
    2 + length_size(second & 0x7f) + if second & 0x80 != 0 {
        4nat
    } else {
        0
    }
}

/// The length of the payload that a header states.
pub open spec fn header_length(input: Seq<u8>) -> u64 {
    let size = length_size(input[1] & 0x7f) as int;
    if size == 0 {
        (input[1] & 0x7f) as u64
    } else {
        coding::be_value(input.subrange(2, 2 + size)) as u64
    }
}

/// The mask that a header states.
pub open spec fn header_mask(input: Seq<u8>) -> Option<[u8; 4]> {
    let start = 2 + length_size(input[1] & 0x7f) as int;
    if input[1] & 0x80 != 0 {
        Some([input[start], input[start + 1], input[start + 2], input[start + 3]])
    } else {
        None
    }
}

/// Reads the header at the start of `input`.
pub open spec fn decode_header(input: Seq<u8>) -> HeaderParse {
    if input.len() < 2 || input.len() < header_size(input[1]) {
        HeaderParse::Incomplete
    } else {
        match coding::opcode_from_code(input[0] & 0x0f) {
            None => HeaderParse::Invalid { code: input[0] & 0x0f, size: header_size(input[1]) },
            Some(opcode) => HeaderParse::Complete {
                header: FrameHeader {
                    is_final: input[0] & 0x80 != 0,
                    rsv1: input[0] & 0x40 != 0,
                    rsv2: input[0] & 0x20 != 0,
                    rsv3: input[0] & 0x10 != 0,
                    opcode,
                    mask: header_mask(input),
                },
                length: header_length(input),
                size: header_size(input[1]),
            },
        }
    }
}

impl FrameHeader {
    /// Parse a header from an input cursor.
    ///
    /// Returns `None` and leaves the cursor where it is if the header is not
    /// complete. Otherwise the cursor moves past the header.
    pub fn parse(cursor: &mut Cursor<Vec<u8>>) -> (result: Result<
        Option<(FrameHeader, u64)>,
        Error,
    >)
        ensures
            bindings::cursor_data(*final(cursor)) == bindings::cursor_data(*old(cursor)),
            match decode_header(bindings::cursor_rest(*old(cursor))) {
                HeaderParse::Incomplete => {
                    &&& result == Ok::<Option<(FrameHeader, u64)>, Error>(None)
                    &&& bindings::cursor_offset(*final(cursor)) == bindings::cursor_offset(
                        *old(cursor),
                    )
                },
                HeaderParse::Invalid { code, size } => {
                    &&& result == Err::<Option<(FrameHeader, u64)>, Error>(
                        Error::Protocol(ProtocolError::InvalidOpcode(code)),
                    )
                    &&& bindings::cursor_offset(*final(cursor)) == bindings::cursor_offset(
                        *old(cursor),
                    ) + size
                    &&& bindings::cursor_rest(*final(cursor)) == bindings::cursor_rest(
                        *old(cursor),
                    ).skip(size as int)
                },
                HeaderParse::Complete { header, length, size } => {
                    &&& result == Ok::<Option<(FrameHeader, u64)>, Error>(Some((header, length)))
                    &&& bindings::cursor_offset(*final(cursor)) == bindings::cursor_offset(
                        *old(cursor),
                    ) + size
                    &&& bindings::cursor_rest(*final(cursor)) == bindings::cursor_rest(
                        *old(cursor),
                    ).skip(size as int)
                },
            },
    {
        let input: &[u8] = cursor_chunk(cursor);
        if input.len() < 2 {
            return Ok(None);
        }
        let first: u8 = input[0];
        let second: u8 = input[1];
        let short: u8 = second & 0x7f;
        let extra: usize = if short == 126 {
            2
        } else if short == 127 {
            8
        } else {
            0
        };
        let masked: bool = second & 0x80 != 0;
        let size: usize = 2 + extra + if masked {
            4
        } else {
            0
        };
        if input.len() < size {
            return Ok(None);
        }
        let length: u64 = if extra == 0 {
            short as u64
        } else {
            let digits = vstd::slice::slice_subrange(input, 2, 2 + extra);
            proof {
                coding::lemma_be_limits();
            }
            read_be(digits)
        };
        let mask: Option<[u8; 4]> = if masked {
            let start: usize = 2 + extra;
            Some([input[start], input[start + 1], input[start + 2], input[start + 3]])
        } else {
            None
        };
        let ghost rest = input@;
        assert(mask == header_mask(rest));
        cursor_advance(cursor, size);
        match OpCode::from_code(first & 0x0f) {
            None => Err(Error::Protocol(ProtocolError::InvalidOpcode(first & 0x0f))),
            Some(opcode) => Ok(
                Some(
                    (
                        FrameHeader {
                            is_final: first & 0x80 != 0,
                            rsv1: first & 0x40 != 0,
                            rsv2: first & 0x20 != 0,
                            rsv3: first & 0x10 != 0,
                            opcode,
                            mask,
                        },
                        length,
                    ),
                ),
            ),
        }
    }

    /// The size of the header for a payload of `length` bytes.
    pub fn len(&self, length: u64) -> (size: usize)
        ensures
            size == header_bytes(*self, length).len(),
            size <= 14,
    {
        let extra: usize = if length < 126 {
            0
        } else if length < 65536 {
            2
        } else {
            8
        };
        proof {
            coding::lemma_be_bytes_len(length as nat, length_size(short_length(length)));
        }
        2 + extra + if self.mask.is_some() {
            4
        } else {
            0
        }
    }

    /// Format the header for a payload of `length` bytes.
    pub fn format(&self, length: u64, output: &mut BytesMut)
        requires
            bindings::bytes_mut_data(*old(output)).len() + header_bytes(*self, length).len()
                <= isize::MAX,
        ensures
            bindings::bytes_mut_data(*final(output)) == bindings::bytes_mut_data(*old(output))
                + header_bytes(*self, length),
    {
        let mut one: u8 = self.opcode.to_code();
        one = one | if self.is_final {
            0x80
        } else {
            0
        };
        one = one | if self.rsv1 {
            0x40
        } else {
            0
        };
        one = one | if self.rsv2 {
            0x20
        } else {
            0
        };
        one = one | if self.rsv3 {
            0x10
        } else {
            0
        };
        let short: u8 = if length < 126 {
            length as u8
        } else if length < 65536 {
            126
        } else {
            127
        };
        let two: u8 = short | if self.mask.is_some() {
            0x80
        } else {
            0
        };
        let mut head: Vec<u8> = Vec::new();
        head.push(one);
        head.push(two);
        assert(head@ =~= seq![first_byte(*self), second_byte(*self, length)]);
        if short == 126 {
            write_be(length, 2, &mut head);
        } else if short == 127 {
            write_be(length, 8, &mut head);
        }
        if let Some(key) = self.mask {
            let key_slice: &[u8] = &key;
            head.extend_from_slice(key_slice);
        }
        assert(head@ =~= header_bytes(*self, length));
        let _ = bytes_mut_write_all(output, head.as_slice());
    }
}

/// A frame as the contracts speak of it.
#[verifier::ext_equal]
pub struct FrameView {
    /// The header of the frame.
    pub header: FrameHeader,
    /// The payload of the frame.
    pub payload: Seq<u8>,
}

/// A frame on the wire.
pub open spec fn frame_bytes(frame: FrameView) -> Seq<u8> {
    header_bytes(frame.header, frame.payload.len() as u64) + mask::masked(
        frame.payload,
        frame.header.mask,
    )
}

/// A WebSocket frame.
#[derive(Debug, PartialEq, Eq)]
pub struct Frame {
    header: FrameHeader,
    payload: Vec<u8>,
}

impl View for Frame {
    type V = FrameView;

    closed spec fn view(&self) -> FrameView {
        FrameView { header: self.header, payload: self.payload@ }
    }
}

/// The header of an unmasked control frame.
pub open spec fn control_header(control: Control) -> FrameHeader {
    FrameHeader {
        is_final: true,
        rsv1: false,
        rsv2: false,
        rsv3: false,
        opcode: OpCode::Control(control),
        mask: None,
    }
}

impl Frame {
    /// Create a frame from a header and a payload. The payload is taken as it
    /// is, whether the header states a mask or not.
    pub fn from_payload(header: FrameHeader, payload: Vec<u8>) -> (frame: Frame)
        ensures
            frame@.header == header,
            frame@.payload == payload@,
    {
        Frame { header, payload }
    }

    fn control(control: Control, payload: Vec<u8>) -> (frame: Frame)
        ensures
            frame@.header == control_header(control),
            frame@.payload == payload@,
    {
        let header = FrameHeader {
            is_final: true,
            rsv1: false,
            rsv2: false,
            rsv3: false,
            opcode: OpCode::Control(control),
            mask: None,
        };
        Frame { header, payload }
    }

    /// Create a ping frame.
    pub fn ping(data: Vec<u8>) -> (frame: Frame)
        ensures
            frame@.header == control_header(Control::Ping),
            frame@.payload == data@,
    {
        Frame::control(Control::Ping, data)
    }

    /// Create a pong frame.
    pub fn pong(data: Vec<u8>) -> (frame: Frame)
        ensures
            frame@.header == control_header(Control::Pong),
            frame@.payload == data@,
    {
        Frame::control(Control::Pong, data)
    }

    /// The header of the frame.
    pub fn header(&self) -> (header: &FrameHeader)
        ensures
            *header == self@.header,
    {
        &self.header
    }

    /// The payload of the frame.
    pub fn payload(&self) -> (payload: &[u8])
        ensures
            payload@ == self@.payload,
    {
        self.payload.as_slice()
    }

    /// Consume the frame into its payload.
    pub fn into_data(self) -> (data: Vec<u8>)
        ensures
            data@ == self@.payload,
    {
        self.payload
    }

    /// The size of the frame on the wire.
    pub fn len(&self) -> (size: usize)
        requires
            frame_bytes(self@).len() <= usize::MAX,
        ensures
            size == frame_bytes(self@).len(),
    {
        let length: usize = self.payload.len();
        self.header.len(length as u64) + length
    }

    /// Write the frame out to a buffer.
    pub fn format(self, output: &mut BytesMut)
        requires
            bindings::bytes_mut_data(*old(output)).len() + frame_bytes(self@).len() <= isize::MAX,
        ensures
            bindings::bytes_mut_data(*final(output)) == bindings::bytes_mut_data(*old(output))
                + frame_bytes(self@),
    {
        let Frame { header, mut payload } = self;
        header.format(payload.len() as u64, output);
        if let Some(key) = header.mask {
            apply_mask(&mut payload, key);
        }
        let _ = bytes_mut_write_all(output, payload.as_slice());
        assert(bindings::bytes_mut_data(*output) =~= bindings::bytes_mut_data(*old(output))
            + frame_bytes(self@));
    }
}

/// A frame that is kept as it goes on the wire, to be sent more than once.
#[derive(Debug)]
pub struct PreparedFrame {
    header: Bytes,
    payload: Bytes,
}

impl PreparedFrame {
    /// The header on the wire.
    pub closed spec fn wire_header(self) -> Seq<u8> {
        bindings::bytes_data(self.header)
    }

    /// The payload on the wire.
    pub closed spec fn wire_payload(self) -> Seq<u8> {
        bindings::bytes_data(self.payload)
    }

    /// Prepare a frame.
    pub fn new(frame: Frame) -> (prepared: PreparedFrame)
        requires
            frame_bytes(frame@).len() <= isize::MAX,
        ensures
            prepared.wire_header() == header_bytes(
                frame@.header,
                frame@.payload.len() as u64,
            ),
            prepared.wire_payload() == mask::masked(frame@.payload, frame@.header.mask),
    {
        let Frame { header, mut payload } = frame;
        let mut scratch = bytes_mut_new();
        header.format(payload.len() as u64, &mut scratch);
        let wire_header = bytes_mut_freeze(bytes_mut_split(&mut scratch));
        if let Some(key) = header.mask {
            apply_mask(&mut payload, key);
        }
        let _ = bytes_mut_write_all(&mut scratch, payload.as_slice());
        PreparedFrame { header: wire_header, payload: bytes_mut_freeze(scratch) }
    }

    /// The header on the wire.
    pub fn header(&self) -> (header: &Bytes)
        ensures
            bindings::bytes_data(*header) == self.wire_header(),
    {
        &self.header
    }

    /// The payload on the wire.
    pub fn payload(&self) -> (payload: &Bytes)
        ensures
            bindings::bytes_data(*payload) == self.wire_payload(),
    {
        &self.payload
    }
}

} // verus!
