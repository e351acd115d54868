use flac_tags::error::Error;
use flac_tags::metaflac_streaming::{read_from, read_tags, try_read_from};
use std::path::PathBuf;

fn payload(vendor: &[u8], entries: &[&[u8]]) -> Vec<u8> {
    let mut out = Vec::new();
    out.extend_from_slice(&(vendor.len() as u32).to_le_bytes());
    out.extend_from_slice(vendor);
    out.extend_from_slice(&(entries.len() as u32).to_le_bytes());
    for entry in entries {
        out.extend_from_slice(&(entry.len() as u32).to_le_bytes());
        out.extend_from_slice(entry);
    }
    out
}

fn block(last: bool, kind: u8, body: &[u8]) -> Vec<u8> {
    let mut out = Vec::new();
    let length = (body.len() as u32).to_be_bytes();
    out.push(if last { 0x80 | kind } else { kind });
    out.extend_from_slice(&length[1..]);
    out.extend_from_slice(body);
    out
}

fn flac(blocks: &[Vec<u8>]) -> Vec<u8> {
    let mut out = b"fLaC".to_vec();
    for b in blocks {
        out.extend_from_slice(b);
    }
    out
}

#[test]
fn reads_all_tags() {
    let path = PathBuf::from("test-data/test-tag.flac");
    let file = flac(&[block(true, 4, &payload(b"", &[b"TEST=1", b"TEST=2"]))]);
    let mut data = Vec::new();
    let mut vorbis_comments = read_from(path.clone(), &file, &mut data).unwrap();

    assert!(vorbis_comments.next(&data));

    assert_eq!(
        (&path, "TEST", "1"),
        vorbis_comments.cur(&data).unwrap().unwrap()
    );

    assert!(vorbis_comments.next(&data));

    assert_eq!(
        (&path, "TEST", "2"),
        vorbis_comments.cur(&data).unwrap().unwrap()
    );

    assert!(!vorbis_comments.next(&data));
}

#[test]
fn end_to_end_bytes_written_out() {
    let file: Vec<u8> = vec![
        b'f', b'L', b'a', b'C', // signature
        0x84, 0x00, 0x00, 0x1c, // last block, type 4, 28 bytes
        0, 0, 0, 0, // vendor length
        2, 0, 0, 0, // entry count
        6, 0, 0, 0, b'T', b'E', b'S', b'T', b'=', b'1', //
        6, 0, 0, 0, b'T', b'E', b'S', b'T', b'=', b'2',
    ];
    let path = PathBuf::from("a.flac");
    let mut data = vec![9u8; 3];
    let mut cursor = read_from(path.clone(), &file, &mut data).unwrap();
    assert_eq!(data, file[8..].to_vec());
    assert_eq!(cursor.path, path);
    assert!(cursor.next(&data));
    assert_eq!(cursor.cur(&data).unwrap(), Some((&path, "TEST", "1")));
    assert!(cursor.next(&data));
    assert_eq!(cursor.cur(&data).unwrap(), Some((&path, "TEST", "2")));
    assert!(!cursor.next(&data));
    assert_eq!(cursor.cur(&data).unwrap(), None);
}

#[test]
fn skips_a_block_by_its_declared_length() {
    // The first block's payload looks like a last comment block header
    // followed by junk: a reader that did not step over all 34 bytes would
    // take it for one.
    let mut decoy = vec![0x84u8, 0x00, 0x00, 0x02, 0xff, 0xff];
    decoy.resize(34, 0x84);
    let tags = payload(b"vendor", &[b"ARTIST=Miles Davis"]);
    let file = flac(&[block(false, 0, &decoy), block(true, 4, &tags)]);
    let path = PathBuf::from("b.flac");
    let mut data = Vec::new();
    let mut cursor = read_from(path.clone(), &file, &mut data).unwrap();
    assert_eq!(data, tags);
    assert!(cursor.next(&data));
    assert_eq!(cursor.cur(&data).unwrap(), Some((&path, "ARTIST", "Miles Davis")));
    assert!(!cursor.next(&data));
}

#[test]
fn skips_several_blocks_and_reads_a_comment_block_that_is_not_last() {
    let tags = payload(b"x", &[b"A=1"]);
    let file = flac(&[
        block(false, 0, &[0u8; 34]),
        block(false, 1, &[]),
        block(false, 3, &[7u8; 300]),
        block(false, 4, &tags),
        block(true, 1, &[0u8; 10]),
    ]);
    let path = PathBuf::from("c.flac");
    let mut data = Vec::new();
    let mut cursor = read_from(path.clone(), &file, &mut data).unwrap();
    assert_eq!(data, tags);
    assert!(cursor.next(&data));
    assert_eq!(cursor.cur(&data).unwrap(), Some((&path, "A", "1")));
}

#[test]
fn last_block_before_any_comment_block_gives_an_empty_cursor() {
    let file = flac(&[block(false, 0, &[0u8; 34]), block(true, 1, &[0u8; 8])]);
    let path = PathBuf::from("d.flac");
    let mut data = vec![1u8, 2, 3];
    let mut cursor = read_from(path.clone(), &file, &mut data).unwrap();
    assert_eq!(data, vec![1u8, 2, 3]);
    assert_eq!(cursor.path, path);
    assert_eq!(cursor.cur(&data).unwrap(), None);
    assert!(!cursor.next(&data));
    assert_eq!(cursor.cur(&data).unwrap(), None);
    assert!(!cursor.next(&data));
}

#[test]
fn blocks_behind_the_last_one_are_not_read() {
    let tags = payload(b"", &[b"A=1"]);
    let file = flac(&[block(true, 0, &[0u8; 34]), block(true, 4, &tags)]);
    let mut data = Vec::new();
    let mut cursor = read_from(PathBuf::from("e.flac"), &file, &mut data).unwrap();
    assert!(data.is_empty());
    assert!(!cursor.next(&data));
}

#[test]
fn wrong_signature_is_an_invalid_header_with_the_path() {
    let mut file = flac(&[block(true, 4, &payload(b"", &[b"A=1"]))]);
    file[3] = b'c';
    let path = PathBuf::from("some/dir/f.flac");
    let mut data = vec![5u8];
    match read_from(path.clone(), &file, &mut data) {
        Err(Error::InvalidFlacHeader(p)) => assert_eq!(p, path),
        other => panic!("expected an invalid header, got {:?}", other),
    }
    assert_eq!(data, vec![5u8]);
    match read_from(path.clone(), b"OggS\x00\x00\x00\x00", &mut data) {
        Err(Error::InvalidFlacHeader(p)) => assert_eq!(p, path),
        other => panic!("expected an invalid header, got {:?}", other),
    }
}

#[test]
fn a_source_shorter_than_the_signature_is_an_io_error() {
    let mut data = Vec::new();
    for n in 0..4 {
        let r = read_from(PathBuf::from("g.flac"), &b"fLaC"[..n], &mut data);
        assert!(matches!(r, Err(Error::IoError(_))));
    }
}

#[test]
fn a_chain_that_is_cut_short_is_an_io_error() {
    let mut data = vec![8u8];
    // No header behind the signature.
    let r = read_from(PathBuf::from("h.flac"), b"fLaC", &mut data);
    assert!(matches!(r, Err(Error::IoError(_))));
    // Half a header.
    let r = read_from(PathBuf::from("h.flac"), b"fLaC\x84\x00", &mut data);
    assert!(matches!(r, Err(Error::IoError(_))));
    // A comment block that declares more payload than there is.
    let mut file = flac(&[block(true, 4, &payload(b"", &[b"A=1"]))]);
    file.pop();
    let r = read_from(PathBuf::from("h.flac"), &file, &mut data);
    assert!(matches!(r, Err(Error::IoError(_))));
    // A skip that leads behind the end.
    let mut file = flac(&[block(false, 0, &[0u8; 34])]);
    file.truncate(20);
    let r = read_from(PathBuf::from("h.flac"), &file, &mut data);
    assert!(matches!(r, Err(Error::IoError(_))));
    // A skip that leads exactly to the end: no header there.
    let file = flac(&[block(false, 0, &[0u8; 34])]);
    let r = read_from(PathBuf::from("h.flac"), &file, &mut data);
    assert!(matches!(r, Err(Error::IoError(_))));
    assert_eq!(data, vec![8u8]);
}

#[test]
fn io_error_is_of_the_kind_of_a_short_read() {
    let mut data = Vec::new();
    match read_from(PathBuf::from("i.flac"), b"fL", &mut data) {
        Err(Error::IoError(e)) => assert_eq!(e.kind(), std::io::ErrorKind::UnexpectedEof),
        other => panic!("expected an I/O error, got {:?}", other),
    }
}

#[test]
fn the_buffer_is_cleared_before_it_is_filled() {
    let tags = payload(b"v", &[b"K=V"]);
    let file = flac(&[block(true, 4, &tags)]);
    let mut data = vec![0xaau8; 1000];
    let _ = read_from(PathBuf::from("j.flac"), &file, &mut data).unwrap();
    assert_eq!(data, tags);
    // The same buffer serves the next file.
    let tags2 = payload(b"", &[b"X=Y", b"Z=W"]);
    let file2 = flac(&[block(false, 2, &[1, 2, 3]), block(true, 4, &tags2)]);
    let path = PathBuf::from("k.flac");
    let mut cursor = read_from(path.clone(), &file2, &mut data).unwrap();
    assert_eq!(data, tags2);
    assert!(cursor.next(&data));
    assert_eq!(cursor.cur(&data).unwrap(), Some((&path, "X", "Y")));
}

#[test]
fn length_is_24_bits_big_endian_and_type_bits_are_masked_off() {
    // 0x7f as type sets all seven type bits; none of them may leak into the
    // length. The payload is 0x010203 = 66051 bytes long.
    let body = vec![0u8; 0x010203];
    let first = block(false, 0x7f, &body);
    assert_eq!(&first[..4], &[0x7f, 0x01, 0x02, 0x03]);
    let tags = payload(b"", &[b"A=1"]);
    let file = flac(&[first, block(true, 4, &tags)]);
    let path = PathBuf::from("l.flac");
    let mut data = Vec::new();
    let mut cursor = read_from(path.clone(), &file, &mut data).unwrap();
    assert_eq!(data, tags);
    assert!(cursor.next(&data));
    assert_eq!(cursor.cur(&data).unwrap(), Some((&path, "A", "1")));
}

#[test]
fn read_tags_starts_at_the_given_header() {
    let tags = payload(b"", &[b"A=1"]);
    let mut source = vec![0xffu8; 7];
    source.extend_from_slice(&block(false, 5, &[0u8; 3]));
    source.extend_from_slice(&block(true, 4, &tags));
    let path = PathBuf::from("m.flac");
    let mut data = Vec::new();
    let mut cursor = read_tags(&source, 7, path.clone(), &mut data).unwrap();
    assert_eq!(data, tags);
    assert!(cursor.next(&data));
    assert_eq!(cursor.cur(&data).unwrap(), Some((&path, "A", "1")));
    // From behind the end there is nothing to read.
    let r = read_tags(&source, source.len() + 10, path, &mut data);
    assert!(matches!(r, Err(Error::IoError(_))));
}

#[test]
fn try_read_from_agrees_with_read_from() {
    let tags = payload(b"vendor", &[b"A=1", b"B=2"]);
    let file = flac(&[block(false, 0, &[0u8; 34]), block(true, 4, &tags)]);
    let path = PathBuf::from("n.flac");
    let mut data = Vec::new();
    let mut cursor = try_read_from(path.clone(), &file, &mut data).unwrap().unwrap();
    assert_eq!(data, tags);
    assert!(cursor.next(&data));
    assert_eq!(cursor.cur(&data).unwrap(), Some((&path, "A", "1")));

    let r = try_read_from(path.clone(), b"RIFF....", &mut data).unwrap();
    assert!(matches!(r, Err(Error::InvalidFlacHeader(_))));
    let r = try_read_from(path.clone(), b"fLaC\x00", &mut data).unwrap();
    assert!(matches!(r, Err(Error::IoError(_))));
    let none = flac(&[block(true, 0, &[0u8; 34])]);
    let mut cursor = try_read_from(path, &none, &mut data).unwrap().unwrap();
    assert!(!cursor.next(&data));
}

#[test]
fn try_read_from_declines_a_comment_block_without_room_for_its_preamble() {
    let mut data = Vec::new();
    // An empty comment block.
    let file = flac(&[block(true, 4, &[])]);
    assert!(try_read_from(PathBuf::from("o.flac"), &file, &mut data).is_none());
    assert!(data.is_empty());
    // Seven bytes: one short of the shortest preamble.
    let file = flac(&[block(true, 4, &[0u8; 7])]);
    assert!(try_read_from(PathBuf::from("o.flac"), &file, &mut data).is_none());
    assert_eq!(data, vec![0u8; 7]);
    // A vendor string that runs over the end of the payload.
    let file = flac(&[block(true, 4, &[4, 0, 0, 0, b'a', b'b', b'c', b'd', 0, 0, 0])]);
    assert!(try_read_from(PathBuf::from("o.flac"), &file, &mut data).is_none());
    // Eight bytes with an empty vendor string are enough.
    let file = flac(&[block(true, 4, &[0u8; 8])]);
    let mut cursor = try_read_from(PathBuf::from("o.flac"), &file, &mut data).unwrap().unwrap();
    assert!(!cursor.next(&data));
}
