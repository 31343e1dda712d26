use std::collections::VecDeque;
use std::io::{Cursor, Error as IoError, ErrorKind, IoSlice, Read, Result as IoResult, Write};

use bytes::BytesMut;
use wsframe::error::{CapacityError, Error, ProtocolError};
use wsframe::protocol::frame::coding::{read_be, write_be, Control, Data, OpCode};
use wsframe::protocol::frame::mask::apply_mask;
use wsframe::protocol::frame::{
    Frame, FrameHeader, FrameSocket, PreparedFrame, ReadAction, ReadEvent, WriteAction, WriteEvent,
};

/// Reads a frame from the stream of the socket.
fn read_frame<S: Read>(
    sock: &mut FrameSocket<S>,
    max_size: Option<usize>,
) -> Result<Option<Frame>, Error> {
    let mut event = ReadEvent::Begin;
    loop {
        match sock.read_frame(max_size, event) {
            ReadAction::Return(result) => return result,
            ReadAction::Read => {
                let (stream, space) = sock.read_parts();
                event = ReadEvent::Received(stream.read(space));
            }
        }
    }
}

/// Does what is to be done to the stream of the socket.
fn run_write<S: Write>(sock: &mut FrameSocket<S>, action: WriteAction) -> Result<(), Error> {
    let mut action = action;
    loop {
        let event = match action {
            WriteAction::Return(result) => return result,
            WriteAction::Write => {
                let (stream, slices, count) = sock.write_parts();
                WriteEvent::Written(stream.write_vectored(&slices[..count]))
            }
            WriteAction::Flush => WriteEvent::Flushed(sock.get_mut().flush()),
        };
        action = sock.write_pending(event);
    }
}

fn write_frame<S: Write>(sock: &mut FrameSocket<S>, frame: Frame) -> Result<(), Error> {
    let action = sock.write_frame(frame);
    run_write(sock, action)
}

fn write_prepared_frame<S: Write>(
    sock: &mut FrameSocket<S>,
    frame: &PreparedFrame,
) -> Result<(), Error> {
    let action = sock.write_prepared_frame(frame);
    run_write(sock, action)
}

fn write_pending<S: Write>(sock: &mut FrameSocket<S>) -> Result<(), Error> {
    let action = sock.write_pending(WriteEvent::Begin);
    run_write(sock, action)
}

#[test]
fn read_frames() {
    let raw = Cursor::new(vec![
        0x82, 0x07, 0x01, 0x02, 0x03, 0x04, 0x05, 0x06, 0x07, 0x82, 0x03, 0x03, 0x02, 0x01, 0x99,
    ]);
    let mut sock = FrameSocket::new(raw);

    assert_eq!(
        read_frame(&mut sock, None).unwrap().unwrap().into_data(),
        vec![0x01, 0x02, 0x03, 0x04, 0x05, 0x06, 0x07]
    );
    assert_eq!(
        read_frame(&mut sock, None).unwrap().unwrap().into_data(),
        vec![0x03, 0x02, 0x01]
    );
    assert!(read_frame(&mut sock, None).unwrap().is_none());

    let (_, rest) = sock.into_inner();
    assert_eq!(rest, vec![0x99]);
}

#[test]
fn from_partially_read() {
    let raw = Cursor::new(vec![0x02, 0x03, 0x04, 0x05, 0x06, 0x07]);
    let mut sock = FrameSocket::from_partially_read(raw, vec![0x82, 0x07, 0x01]);
    assert_eq!(
        read_frame(&mut sock, None).unwrap().unwrap().into_data(),
        vec![0x01, 0x02, 0x03, 0x04, 0x05, 0x06, 0x07]
    );
}

#[test]
fn write_frames() {
    let mut sock = FrameSocket::new(Vec::new());

    let frame = Frame::ping(vec![0x04, 0x05]);
    write_frame(&mut sock, frame).unwrap();

    let frame = Frame::pong(vec![0x01]);
    write_frame(&mut sock, frame).unwrap();

    let (buf, _) = sock.into_inner();
    assert_eq!(buf, vec![0x89, 0x02, 0x04, 0x05, 0x8a, 0x01, 0x01]);
}

#[test]
fn parse_overflow() {
    let raw = Cursor::new(vec![
        0x83, 0xff, 0xff, 0xff, 0xff, 0xff, 0xff, 0xff, 0xff, 0xff, 0x00, 0x00, 0x00, 0x00,
    ]);
    let mut sock = FrameSocket::new(raw);
    let _ = read_frame(&mut sock, None); // should not crash
}

#[test]
fn size_limit_hit() {
    let raw = Cursor::new(vec![0x82, 0x07, 0x01, 0x02, 0x03, 0x04, 0x05, 0x06, 0x07]);
    let mut sock = FrameSocket::new(raw);
    assert!(matches!(
        read_frame(&mut sock, Some(5)),
        Err(Error::Capacity(CapacityError::MessageTooLong { size: 7, max_size: 5 }))
    ));
}

fn header(opcode: OpCode, mask: Option<[u8; 4]>) -> FrameHeader {
    FrameHeader { is_final: true, rsv1: false, rsv2: false, rsv3: false, opcode, mask }
}

fn binary(payload: Vec<u8>) -> Frame {
    Frame::from_payload(header(OpCode::Data(Data::Binary), None), payload)
}

/// A stream that does one thing with each call.
struct Script {
    input: VecDeque<IoResult<Vec<u8>>>,
    accept: VecDeque<IoResult<usize>>,
    output: Vec<u8>,
    flushes: usize,
}

impl Script {
    fn reading(input: Vec<IoResult<Vec<u8>>>) -> Script {
        Script { input: input.into(), accept: VecDeque::new(), output: Vec::new(), flushes: 0 }
    }

    fn writing(accept: Vec<IoResult<usize>>) -> Script {
        Script { input: VecDeque::new(), accept: accept.into(), output: Vec::new(), flushes: 0 }
    }
}

impl Read for Script {
    fn read(&mut self, buf: &mut [u8]) -> IoResult<usize> {
        match self.input.pop_front() {
            Some(Ok(bytes)) => {
                buf[..bytes.len()].copy_from_slice(&bytes);
                Ok(bytes.len())
            }
            Some(Err(error)) => Err(error),
            None => Ok(0),
        }
    }
}

impl Write for Script {
    fn write(&mut self, buf: &[u8]) -> IoResult<usize> {
        self.write_vectored(&[IoSlice::new(buf)])
    }

    fn write_vectored(&mut self, bufs: &[IoSlice<'_>]) -> IoResult<usize> {
        let mut left = self.accept.pop_front().unwrap_or(Ok(usize::MAX))?;
        let mut taken = 0;
        for buf in bufs {
            let part = buf.len().min(left);
            self.output.extend_from_slice(&buf[..part]);
            left -= part;
            taken += part;
        }
        Ok(taken)
    }

    fn flush(&mut self) -> IoResult<()> {
        self.flushes += 1;
        Ok(())
    }
}

#[test]
fn chunks_make_no_difference() {
    let bytes =
        vec![0x82, 0xfe, 0x00, 0x03, 0x0a, 0x0b, 0x0c, 0x0d, 0x01, 0x02, 0x03, 0x8a, 0x00, 0x77];
    for size in 1..bytes.len() {
        let chunks = bytes.chunks(size).map(|chunk| Ok(chunk.to_vec())).collect();
        let mut sock = FrameSocket::new(Script::reading(chunks));
        let frame = read_frame(&mut sock, None).unwrap().unwrap();
        assert_eq!(
            *frame.header(),
            header(OpCode::Data(Data::Binary), Some([0x0a, 0x0b, 0x0c, 0x0d]))
        );
        assert_eq!(frame.payload(), &[1, 2, 3]);
        let frame = read_frame(&mut sock, None).unwrap().unwrap();
        assert_eq!(*frame.header(), header(OpCode::Control(Control::Pong), None));
        assert!(frame.payload().is_empty());
        assert!(read_frame(&mut sock, None).unwrap().is_none());
        assert_eq!(sock.into_inner().1, vec![0x77]);
    }
}

#[test]
fn partially_read_data_comes_first() {
    let bytes = [0x82, 0x02, 0x01, 0x02, 0x8a, 0x00];
    for split in 0..bytes.len() {
        let raw = Cursor::new(bytes[split..].to_vec());
        let mut sock = FrameSocket::from_partially_read(raw, bytes[..split].to_vec());
        assert_eq!(read_frame(&mut sock, None).unwrap().unwrap().into_data(), vec![1, 2]);
        assert_eq!(
            *read_frame(&mut sock, None).unwrap().unwrap().header(),
            header(OpCode::Control(Control::Pong), None)
        );
    }
}

#[test]
fn refused_frame_can_be_read_with_a_higher_limit() {
    let raw = Cursor::new(vec![0x82, 0x03, 0x01, 0x02, 0x03, 0x8a, 0x00]);
    let mut sock = FrameSocket::new(raw);
    assert!(matches!(
        read_frame(&mut sock, Some(2)),
        Err(Error::Capacity(CapacityError::MessageTooLong { size: 3, max_size: 2 }))
    ));
    assert!(matches!(
        read_frame(&mut sock, Some(0)),
        Err(Error::Capacity(CapacityError::MessageTooLong { size: 3, max_size: 0 }))
    ));
    assert_eq!(read_frame(&mut sock, Some(3)).unwrap().unwrap().into_data(), vec![1, 2, 3]);
    assert!(read_frame(&mut sock, Some(0)).unwrap().unwrap().into_data().is_empty());
}

#[test]
fn reserved_opcode_is_refused() {
    for code in 0u8..16 {
        let raw = Cursor::new(vec![0x80 | code, 0x01, 0x55, 0x8a, 0x00]);
        let mut sock = FrameSocket::new(raw);
        let result = read_frame(&mut sock, None);
        if [0, 1, 2, 8, 9, 10].contains(&code) {
            let frame = result.unwrap().unwrap();
            assert_eq!(frame.header().opcode.to_code(), code);
            assert_eq!(OpCode::from_code(code), Some(frame.header().opcode));
            assert_eq!(frame.into_data(), vec![0x55]);
        } else {
            assert!(matches!(
                result,
                Err(Error::Protocol(ProtocolError::InvalidOpcode(found))) if found == code
            ));
            assert_eq!(OpCode::from_code(code), None);
            assert_eq!(sock.into_inner().1, vec![0x55, 0x8a, 0x00]);
        }
    }
}

#[test]
fn read_error_is_passed_on() {
    let mut sock = FrameSocket::new(Script::reading(vec![
        Ok(vec![0x82]),
        Err(IoError::from(ErrorKind::WouldBlock)),
        Ok(vec![0x01]),
        Err(IoError::from(ErrorKind::TimedOut)),
        Ok(vec![0x2a]),
    ]));
    assert!(matches!(
        read_frame(&mut sock, None),
        Err(Error::Io(error)) if error.kind() == ErrorKind::WouldBlock
    ));
    assert!(matches!(
        read_frame(&mut sock, None),
        Err(Error::Io(error)) if error.kind() == ErrorKind::TimedOut
    ));
    assert_eq!(read_frame(&mut sock, None).unwrap().unwrap().into_data(), vec![0x2a]);
}

#[test]
fn frames_are_read_back() {
    let lengths = [0, 1, 125, 126, 127, 5000, 65535, 65536, 70000];
    let masks = [None, Some([0x11, 0x22, 0x33, 0x44])];
    for mask in masks {
        let mut writer = FrameSocket::new(Vec::new());
        for length in lengths {
            let head = FrameHeader {
                is_final: length % 2 == 0,
                rsv1: length % 3 == 0,
                rsv2: length % 5 == 0,
                rsv3: length % 7 == 0,
                opcode: OpCode::Data(Data::Text),
                mask,
            };
            let payload: Vec<u8> = (0..length).map(|i| i as u8).collect();
            write_frame(&mut writer, Frame::from_payload(head, payload)).unwrap();
        }
        let mut reader = FrameSocket::new(Cursor::new(writer.into_inner().0));
        for length in lengths {
            let frame = read_frame(&mut reader, None).unwrap().unwrap();
            assert_eq!(frame.header().is_final, length % 2 == 0);
            assert_eq!(frame.header().rsv1, length % 3 == 0);
            assert_eq!(frame.header().rsv2, length % 5 == 0);
            assert_eq!(frame.header().rsv3, length % 7 == 0);
            assert_eq!(frame.header().opcode, OpCode::Data(Data::Text));
            assert_eq!(frame.header().mask, mask);
            let mut payload = frame.into_data();
            if let Some(key) = mask {
                apply_mask(&mut payload, key);
            }
            assert_eq!(payload, (0..length).map(|i| i as u8).collect::<Vec<u8>>());
        }
        assert!(read_frame(&mut reader, None).unwrap().is_none());
    }
}

#[test]
fn masked_frame_on_the_wire() {
    let mut sock = FrameSocket::new(Vec::new());
    let frame = Frame::from_payload(
        header(OpCode::Data(Data::Text), Some([0x37, 0xfa, 0x21, 0x3d])),
        b"Hello".to_vec(),
    );
    assert_eq!(frame.len(), 11);
    write_frame(&mut sock, frame).unwrap();
    assert_eq!(
        *sock.get_ref(),
        vec![0x81, 0x85, 0x37, 0xfa, 0x21, 0x3d, 0x7f, 0x9f, 0x4d, 0x51, 0x58]
    );
}

#[test]
fn lengths_on_the_wire() {
    let head = header(OpCode::Data(Data::Continue), None);
    let sizes = [(125u64, 2), (126, 4), (65535, 4), (65536, 10), (u64::MAX, 10)];
    for (length, size) in sizes {
        assert_eq!(head.len(length), size);
        let mut output = BytesMut::new();
        head.format(length, &mut output);
        assert_eq!(output.len(), size);
        let mut cursor = Cursor::new(output.to_vec());
        assert!(matches!(
            FrameHeader::parse(&mut cursor),
            Ok(Some((read, read_length))) if read == head && read_length == length
        ));
        assert_eq!(cursor.position(), size as u64);
        cursor.set_position(1);
        assert_eq!(FrameHeader::parse(&mut Cursor::new(output[..1].to_vec())).unwrap(), None);
    }
    assert_eq!(header(OpCode::Data(Data::Text), Some([0; 4])).len(65536), 14);
    let mut output = BytesMut::new();
    head.format(0x0102, &mut output);
    assert_eq!(&output[..], &[0x80, 0x7e, 0x01, 0x02]);
}

#[test]
fn numbers_in_network_byte_order() {
    assert_eq!(read_be(&[]), 0);
    assert_eq!(read_be(&[0x01, 0x02]), 0x0102);
    assert_eq!(read_be(&[0xff; 8]), u64::MAX);
    let mut output = vec![9];
    write_be(0x0102_0304, 3, &mut output);
    assert_eq!(output, vec![9, 2, 3, 4]);
}

#[test]
fn prepared_frame_goes_out_as_the_frame_does() {
    for mask in [None, Some([1, 2, 3, 4])] {
        let head = header(OpCode::Data(Data::Binary), mask);
        let mut plain = FrameSocket::new(Vec::new());
        write_frame(&mut plain, Frame::from_payload(head, vec![5, 6, 7, 8, 9])).unwrap();
        let prepared = PreparedFrame::new(Frame::from_payload(head, vec![5, 6, 7, 8, 9]));
        let mut sock = FrameSocket::new(Vec::new());
        write_prepared_frame(&mut sock, &prepared).unwrap();
        assert_eq!(sock.get_ref(), plain.get_ref());
        write_prepared_frame(&mut sock, &prepared).unwrap();
        assert_eq!(sock.get_ref().len(), 2 * plain.get_ref().len());
        assert_eq!(prepared.header().len() + prepared.payload().len(), plain.get_ref().len());
    }
}

#[test]
fn frame_stays_queued_after_errors() {
    let mut sock = FrameSocket::new(Script::writing(vec![
        Err(IoError::from(ErrorKind::WouldBlock)),
        Ok(1),
        Err(IoError::from(ErrorKind::Interrupted)),
        Ok(0),
        Ok(4),
    ]));
    assert!(matches!(
        write_frame(&mut sock, Frame::ping(vec![1, 2])),
        Err(Error::Io(error)) if error.kind() == ErrorKind::WouldBlock
    ));
    assert_eq!(sock.pending_len(), 4);
    assert!(matches!(
        write_frame(&mut sock, Frame::pong(vec![3])),
        Err(Error::Io(error)) if error.kind() == ErrorKind::Interrupted
    ));
    assert_eq!(sock.pending_len(), 6);
    assert!(matches!(write_pending(&mut sock), Err(Error::ConnectionReset)));
    assert_eq!(sock.pending_len(), 6);
    write_pending(&mut sock).unwrap();
    assert_eq!(sock.pending_len(), 0);
    assert_eq!(sock.get_ref().output, vec![0x89, 0x02, 1, 2, 0x8a, 0x01, 3]);
    assert_eq!(sock.get_ref().flushes, 1);
}

#[test]
fn nothing_pending_is_flushed() {
    let mut sock = FrameSocket::new(Script::writing(vec![]));
    write_pending(&mut sock).unwrap();
    assert_eq!(sock.get_ref().flushes, 1);
    assert!(sock.get_ref().output.is_empty());
}

#[test]
fn flush_error_is_passed_on() {
    let mut sock = FrameSocket::new(());
    assert!(matches!(sock.write_pending(WriteEvent::Begin), WriteAction::Flush));
    assert!(matches!(
        sock.write_pending(WriteEvent::Flushed(Err(IoError::from(ErrorKind::BrokenPipe)))),
        WriteAction::Return(Err(Error::Io(error))) if error.kind() == ErrorKind::BrokenPipe
    ));
    assert!(matches!(
        sock.write_pending(WriteEvent::Flushed(Ok(()))),
        WriteAction::Return(Ok(()))
    ));
}

#[test]
fn at_most_32_chunks_are_offered_at_once() {
    let mut sock = FrameSocket::new(());
    for i in 0u8..40 {
        assert!(matches!(sock.write_frame(Frame::ping(vec![i])), WriteAction::Write));
    }
    assert_eq!(sock.pending_len(), 120);
    let (_, slices, count) = sock.write_parts();
    assert_eq!(count, 32);
    assert_eq!(&slices[31][..], &[0x89, 0x01, 31]);
    assert!(matches!(sock.write_pending(WriteEvent::Written(Ok(96))), WriteAction::Write));
    let (_, slices, count) = sock.write_parts();
    assert_eq!(count, 8);
    assert_eq!(&slices[0][..], &[0x89, 0x01, 32]);
    assert!(matches!(sock.write_pending(WriteEvent::Written(Ok(24))), WriteAction::Flush));
}

#[test]
fn prepared_frame_without_payload_is_written() {
    let mut sock = FrameSocket::new(Script::writing(vec![]));
    let prepared = PreparedFrame::new(binary(Vec::new()));
    write_prepared_frame(&mut sock, &prepared).unwrap();
    assert_eq!(sock.get_ref().output, vec![0x82, 0x00]);
    assert_eq!(sock.get_ref().flushes, 1);
    write_pending(&mut sock).unwrap();
    write_frame(&mut sock, Frame::pong(vec![])).unwrap();
    assert_eq!(sock.get_ref().output, vec![0x82, 0x00, 0x8a, 0x00]);

    let mut sock = FrameSocket::new(Vec::new());
    write_prepared_frame(&mut sock, &prepared).unwrap();
    assert_eq!(sock.into_inner().0, prepared.header().to_vec());
}

#[test]
fn writing_ends_with_a_flush() {
    let mut sock = FrameSocket::new(Script::writing(vec![Ok(1), Ok(2), Ok(3), Ok(1), Ok(1)]));
    let _ = sock.write_frame(Frame::ping(vec![1]));
    let _ = sock.write_prepared_frame(&PreparedFrame::new(binary(Vec::new())));
    let _ = sock.write_prepared_frame(&PreparedFrame::new(binary(vec![2])));
    assert_eq!(sock.write_parts().2, 4);
    write_pending(&mut sock).unwrap();
    assert_eq!(sock.get_ref().output, vec![0x89, 0x01, 1, 0x82, 0x00, 0x82, 0x01, 2]);
    assert!(sock.get_ref().accept.is_empty());
    assert_eq!(sock.get_ref().flushes, 1);
}

#[test]
fn first_chunk_is_offered() {
    let mut sock = FrameSocket::new(3u8);
    assert!(sock.fits_slices());
    assert_eq!(sock.write_front(), (&mut 3u8, &[] as &[u8]));
    let _ = sock.write_frame(Frame::ping(vec![7]));
    let _ = sock.write_frame(Frame::pong(vec![8]));
    assert!(sock.fits_slices());
    assert_eq!(sock.write_front(), (&mut 3u8, &[0x89u8, 0x01, 7][..]));
}

#[test]
fn stream_can_be_reached() {
    let mut sock = FrameSocket::from_partially_read(7u8, vec![1]);
    *sock.get_mut() += 1;
    assert_eq!(*sock.get_ref(), 8);
    assert_eq!(sock.into_inner(), (8, vec![1]));
}
