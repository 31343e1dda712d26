use std::io::{Cursor, IoSlice, Read, Result as IoResult};

use bytes::Bytes;
use wsframe::buffer::{BytesList, ReadBuffer};

/// Reads once from `stream` into `buffer`.
fn read_from<const N: usize>(
    buffer: &mut ReadBuffer<N>,
    stream: &mut impl Read,
) -> IoResult<usize> {
    let read = stream.read(buffer.read_space());
    buffer.read_from(read)
}

#[test]
fn simple_reading() {
    let mut input = Cursor::new(b"Hello World!".to_vec());
    let mut buffer = ReadBuffer::<4096>::new();
    let size = read_from(&mut buffer, &mut input).unwrap();
    assert_eq!(size, 12);
    assert_eq!(buffer.chunk(), b"Hello World!");
}

#[test]
fn reading_in_chunks() {
    let mut inp = Cursor::new(b"Hello World!".to_vec());
    let mut buf = ReadBuffer::<4>::new();

    let size = read_from(&mut buf, &mut inp).unwrap();
    assert_eq!(size, 4);
    assert_eq!(buf.chunk(), b"Hell");

    buf.advance(2);
    assert_eq!(buf.chunk(), b"ll");
    assert_eq!(buf.as_cursor_mut().get_mut(), b"Hell");

    let size = read_from(&mut buf, &mut inp).unwrap();
    assert_eq!(size, 4);
    assert_eq!(buf.chunk(), b"llo Wo");
    assert_eq!(buf.as_cursor_mut().get_mut(), b"llo Wo");

    let size = read_from(&mut buf, &mut inp).unwrap();
    assert_eq!(size, 4);
    assert_eq!(buf.chunk(), b"llo World!");
}

#[test]
fn bytes_leave_in_the_order_in_which_they_came() {
    let mut inp = Cursor::new(vec![3, 4, 5, 6, 7]);
    let mut buf = ReadBuffer::<2>::from_partially_read(vec![1, 2]);
    let mut out = Vec::new();

    out.extend_from_slice(&buf.chunk()[..1]);
    buf.advance(1);
    assert_eq!(read_from(&mut buf, &mut inp).unwrap(), 2);
    out.extend_from_slice(&buf.chunk()[..2]);
    buf.advance(2);
    assert_eq!(read_from(&mut buf, &mut inp).unwrap(), 2);
    assert_eq!(out, vec![1, 2, 3]);
    assert_eq!(buf.remaining(), 3);
    assert_eq!(buf.chunk(), &[4, 5, 6]);
}

#[test]
fn into_vec_gives_what_was_not_read() {
    let mut buf = ReadBuffer::<8>::from_partially_read(vec![1, 2, 3, 4]);
    buf.advance(3);
    assert_eq!(buf.remaining(), 1);
    assert_eq!(buf.into_vec(), vec![4]);
    assert_eq!(ReadBuffer::<8>::with_capacity(100).into_vec(), Vec::<u8>::new());
    assert_eq!(ReadBuffer::<8>::default().into_vec(), Vec::<u8>::new());
}

#[test]
fn failed_read_keeps_the_unread_bytes() {
    let mut buf = ReadBuffer::<8>::from_partially_read(vec![1, 2, 3]);
    buf.advance(1);
    buf.read_space()[0] = 9;
    assert_eq!(buf.read_from(Err::<usize, &str>("broken")), Err("broken"));
    assert_eq!(buf.chunk(), &[2, 3]);
    assert_eq!(buf.as_cursor().get_ref(), &vec![2, 3]);
    assert_eq!(buf.as_cursor().position(), 0);
    assert_eq!(buf.read_from(Ok::<usize, &str>(1)), Ok(1));
    assert_eq!(buf.chunk(), &[2, 3, 9]);
}

#[test]
fn nothing_remains_past_the_end() {
    let mut buf = ReadBuffer::<8>::from_partially_read(vec![1, 2, 3]);
    buf.as_cursor_mut().set_position(5);
    assert_eq!(buf.remaining(), 0);
    assert_eq!(buf.chunk(), &[] as &[u8]);
    buf.advance(0);
    assert_eq!(buf.as_cursor().position(), 5);
    buf.as_cursor_mut().set_position(2);
    assert_eq!(buf.chunk(), &[3]);
}

fn list_of(chunks: &[&'static [u8]]) -> BytesList {
    let mut list = BytesList::default();
    for chunk in chunks {
        list.push(Bytes::from_static(chunk));
    }
    list
}

/// The chunks of the list, at most `N` of them.
fn chunks_of<const N: usize>(list: &BytesList) -> Vec<Vec<u8>> {
    let mut slices = [IoSlice::new(b"unset"); N];
    let len = list.chunks_vectored(&mut slices);
    for slice in &slices[len..] {
        assert_eq!(&slice[..], b"unset");
    }
    slices[..len].iter().map(|slice| slice.to_vec()).collect()
}

#[test]
fn empty_list() {
    let mut list = BytesList::default();
    assert_eq!(list.remaining(), 0);
    assert_eq!(list.chunk(), &[] as &[u8]);
    assert!(chunks_of::<4>(&list).is_empty());
    list.advance(0);
    assert_eq!(list.remaining(), 0);
}

#[test]
fn list_offers_its_chunks() {
    let list = list_of(&[b"ab", b"cde", b"f"]);
    assert_eq!(list.remaining(), 6);
    assert_eq!(list.chunk(), b"ab");
    assert!(list.fits_slices(4));
    assert_eq!(chunks_of::<4>(&list), vec![b"ab".to_vec(), b"cde".to_vec(), b"f".to_vec()]);
    assert_eq!(chunks_of::<2>(&list), vec![b"ab".to_vec(), b"cde".to_vec()]);
    assert!(chunks_of::<0>(&list).is_empty());
}

#[test]
fn list_advances_within_a_chunk() {
    let mut list = list_of(&[b"abc", b"de"]);
    list.advance(1);
    assert_eq!(list.remaining(), 4);
    assert_eq!(chunks_of::<4>(&list), vec![b"bc".to_vec(), b"de".to_vec()]);
}

#[test]
fn list_advances_over_chunks() {
    let mut list = list_of(&[b"abc", b"de", b"fgh"]);
    list.advance(3);
    assert_eq!(chunks_of::<4>(&list), vec![b"de".to_vec(), b"fgh".to_vec()]);
    list.advance(4);
    assert_eq!(chunks_of::<4>(&list), vec![b"h".to_vec()]);
    list.push(Bytes::from_static(b"ij"));
    assert_eq!(list.remaining(), 3);
    list.advance(3);
    assert_eq!(list.remaining(), 0);
    assert!(chunks_of::<4>(&list).is_empty());
}

#[test]
fn empty_chunks_go_with_later_bytes() {
    let mut list = list_of(&[b"", b"ab", b"", b"c"]);
    assert_eq!(list.chunk(), b"");
    list.advance(0);
    assert_eq!(chunks_of::<8>(&list).len(), 4);
    list.advance(2);
    assert_eq!(chunks_of::<8>(&list), vec![b"".to_vec(), b"c".to_vec()]);
    list.advance(1);
    assert!(chunks_of::<8>(&list).is_empty());
}
