//! The byte-oriented I/O layer: buffers, cursors, seeking, counting and
//! copying.

use restd::io::{Buffer, Counter, Cursor, Error, IoFmt, Read, Seek, Write};

#[test]
fn buffer() {
    let mut buf = Buffer::new(vec![0u8; 8]);

    buf.write_all(&[1, 2, 3]).unwrap();
    assert_eq!(buf.data(), [1, 2, 3]);

    buf.write_all(&[4, 5, 6]).unwrap();
    assert_eq!(buf.data(), [1, 2, 3, 4, 5, 6]);

    let mut sub = [0u8; 3];
    buf.read_exact(&mut sub).unwrap();
    assert_eq!(sub, [1, 2, 3]);
    assert_eq!(buf.data(), [4, 5, 6]);
}

#[test]
fn cursor() {
    let mut cur = Cursor::new(vec![0u8; 8]);

    cur.write_all(&[1, 2, 3]).unwrap();
    cur.write_all(&[4, 5, 6]).unwrap();

    cur.rewind().unwrap();
    assert_eq!(cur.remaining(), [1, 2, 3, 4, 5, 6, 0, 0]);

    let mut sub = [0u8; 3];
    cur.read_exact(&mut sub).unwrap();
    assert_eq!(sub, [1, 2, 3]);
    assert_eq!(cur.remaining(), [4, 5, 6, 0, 0]);
}

#[test]
fn buffer_capacity_and_errors() {
    let mut buf = Buffer::new(vec![0u8; 4]);
    assert!(buf.is_empty());
    assert_eq!(buf.cap(), 4);

    // a partial write accepts what fits, the next write is refused
    assert_eq!(buf.write(&[9, 9, 9, 9, 9]), Ok(4));
    assert_eq!(buf.write(&[1]), Err(Error::OutOfSpace));
    assert_eq!(buf.len(), 4);

    // write_all refuses what cannot fit whole, keeping the partial fill
    let mut small = Buffer::new(vec![0u8; 2]);
    assert_eq!(small.write_all(&[1, 2, 3]), Err(Error::OutOfSpace));
    assert_eq!(small.data(), [1, 2]);
    assert_eq!(small.write_all(&[]), Ok(()));

    // reading more than is available fails with OutOfData
    let mut big = [0u8; 9];
    assert_eq!(buf.read_exact(&mut big), Err(Error::OutOfData));

    let mut full = Buffer::new_full(vec![7, 8]);
    assert_eq!(full.len(), 2);
    assert_eq!(full.data(), [7, 8]);
    full.set_len(1);
    assert_eq!(full.data(), [7]);
    assert_eq!(full.into_inner(), vec![7, 8]);

    let with_len = Buffer::new_with_len(vec![1, 2, 3], 2);
    assert_eq!(with_len.data(), [1, 2]);
    assert_eq!(with_len.get_ref(), &vec![1, 2, 3]);
}

#[test]
fn cursor_seeking() {
    let mut cur = Cursor::new_at(vec![10, 20, 30, 40], 1);
    assert_eq!(cur.position(), 1);
    assert_eq!(cur.len(), 3);
    assert!(!cur.is_empty());

    assert_eq!(cur.seek(2), Ok(3));
    assert_eq!(cur.seek(-1), Ok(2));
    assert_eq!(cur.seek(100), Ok(4));
    assert!(cur.is_empty());
    assert_eq!(cur.seek(-100), Ok(0));

    assert_eq!(cur.seek_to(2), Ok(2));
    assert_eq!(cur.seek_to(9), Ok(4));
    assert_eq!(cur.seek_from_end(1), Ok(3));
    assert_eq!(cur.remaining(), [40]);

    // writing at the end of the data is refused
    assert_eq!(cur.seek_to(4), Ok(4));
    assert_eq!(cur.write(&[1]), Err(Error::OutOfSpace));

    // reading at the end reports exhaustion
    let mut sub = [0u8; 1];
    assert_eq!(cur.read(&mut sub), Ok(None));

    assert_eq!(cur.get_ref(), &vec![10, 20, 30, 40]);
    assert_eq!(cur.into_inner(), vec![10, 20, 30, 40]);
}

#[test]
fn counter_counts_chars_and_bytes() {
    let mut c = Counter::new();
    restd::fmt::Write::write_str(&mut c, "hello").unwrap();
    restd::fmt::Write::write_char(&mut c, '!').unwrap();
    assert_eq!(c.count(), 6);

    let mut d = Counter::new();
    assert_eq!(Write::write(&mut d, &[1, 2, 3]), Ok(3));
    Write::flush(&mut d).unwrap();
    assert_eq!(d.count(), 3);
}

#[test]
fn copy_moves_everything() {
    let mut src = Cursor::new(vec![1, 2, 3, 4, 5]);
    let mut dst = Buffer::new(vec![0u8; 8]);
    assert_eq!(restd::io::copy(&mut src, &mut dst), Ok(Some(5)));
    assert_eq!(dst.data(), [1, 2, 3, 4, 5]);

    // an exhausted reader yields nothing
    let mut empty = Cursor::new(vec![]);
    assert_eq!(restd::io::copy(&mut empty, &mut dst), Ok(None));
}

#[test]
fn read_onto_vec_and_to_end() {
    let mut src = Cursor::new(vec![1, 2, 3]);
    let mut out: Vec<u8> = vec![9];
    assert_eq!(src.read_onto_vec(&mut out), Ok(Some(3)));
    assert_eq!(out, vec![9, 1, 2, 3]);
    assert_eq!(src.read_onto_vec(&mut out), Ok(None));

    let mut src2 = Cursor::new((0u8..40).collect());
    let mut all: Vec<u8> = Vec::new();
    assert_eq!(src2.read_to_end(&mut all), Ok(Some(40)));
    assert_eq!(all, (0u8..40).collect::<Vec<u8>>());
}

#[test]
fn read_to_string_checks_utf8() {
    let mut src = Cursor::new("grüße".as_bytes().to_vec());
    let mut s = String::from(">");
    assert_eq!(src.read_to_string(&mut s), Ok(Some(7)));
    assert_eq!(s, ">grüße");

    // malformed UTF-8: the valid prefix is kept, the error is reported
    let mut bad = Cursor::new(vec![b'o', b'k', 0xff, 0xfe]);
    let mut t = String::new();
    assert_eq!(bad.read_to_string(&mut t), Err(Error::Utf8Error));
    assert_eq!(t, "ok");
}

#[test]
fn io_fmt_bridges_text_to_bytes() {
    let mut f = IoFmt::new(Buffer::new(vec![0u8; 16]));
    restd::fmt::Write::write_str(&mut f, "ab").unwrap();
    restd::fmt::Write::write_char(&mut f, 'c').unwrap();
    let buf = f.into_inner();
    assert_eq!(buf.data(), b"abc");

    // a full byte sink surfaces as a text-sink failure
    let mut tight = IoFmt::new(Buffer::new(vec![0u8; 1]));
    restd::fmt::Write::write_str(&mut tight, "x").unwrap();
    assert_eq!(
        restd::fmt::Write::write_str(&mut tight, "y"),
        Err(restd::fmt::Error)
    );
}
