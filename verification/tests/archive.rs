use cpack::layout::FileIndex;
use cpack::partition_or_error;
use cpack::CPack;
use cpack::CPackError;
use std::io::Cursor;
use std::io::Error;
use std::io::ErrorKind;
use std::io::Read;
use std::io::Seek;
use std::io::SeekFrom;

/// Magic, two entries, terminator, then `hello` at 32 and `world` at 37.
fn sample() -> Vec<u8> {
    let mut bytes = vec![
        0, 0, 0, 0, // magic
        2, 0, 0, 0, // number of entries
        32, 0, 0, 0, 5, 0, 0, 0, // first entry
        37, 0, 0, 0, 5, 0, 0, 0, // second entry
        0, 0, 0, 0, 0, 0, 0, 0, // terminator
    ];
    bytes.extend_from_slice(b"hello");
    bytes.extend_from_slice(b"world");
    bytes
}

fn le(value: u32) -> [u8; 4] {
    value.to_le_bytes()
}

/// A header of the given entries, followed by `payload` bytes of 0xAA.
fn archive(entries: &[(u32, u32)], payload: usize) -> Vec<u8> {
    let mut bytes = vec![0, 0, 0, 0];
    bytes.extend_from_slice(&le(entries.len() as u32));
    for (offset, length) in entries {
        bytes.extend_from_slice(&le(*offset));
        bytes.extend_from_slice(&le(*length));
    }
    bytes.extend_from_slice(&[0; 8]);
    bytes.extend(std::iter::repeat(0xAA).take(payload));
    bytes
}

fn open(bytes: Vec<u8>) -> Result<CPack<Cursor<Vec<u8>>>, CPackError> {
    CPack::new_from_file(Cursor::new(bytes))
}

fn failure(bytes: Vec<u8>) -> CPackError {
    match open(bytes) {
        Ok(_) => panic!("the archive was accepted"),
        Err(error) => error,
    }
}

/// A source that reads from `bytes` and claims to be `claimed` bytes long.
struct Claiming {
    bytes: Cursor<Vec<u8>>,
    claimed: Vec<u64>,
    asked: usize,
}

impl Read for Claiming {
    fn read(&mut self, buf: &mut [u8]) -> std::io::Result<usize> {
        self.bytes.read(buf)
    }
}

impl Seek for Claiming {
    fn seek(&mut self, pos: SeekFrom) -> std::io::Result<u64> {
        match pos {
            SeekFrom::End(0) => {
                let at = self.asked.min(self.claimed.len() - 1);
                self.asked += 1;
                Ok(self.claimed[at])
            },
            other => self.bytes.seek(other),
        }
    }
}

/// A source whose every seek fails.
struct Unseekable;

impl Read for Unseekable {
    fn read(&mut self, _: &mut [u8]) -> std::io::Result<usize> {
        Ok(0)
    }
}

impl Seek for Unseekable {
    fn seek(&mut self, _: SeekFrom) -> std::io::Result<u64> {
        Err(Error::new(ErrorKind::Unsupported, "no seeking here"))
    }
}

/// A source that cannot say where it stands.
struct Lost(Cursor<Vec<u8>>);

impl Read for Lost {
    fn read(&mut self, buf: &mut [u8]) -> std::io::Result<usize> {
        self.0.read(buf)
    }
}

impl Seek for Lost {
    fn seek(&mut self, pos: SeekFrom) -> std::io::Result<u64> {
        match pos {
            SeekFrom::Current(_) => Err(Error::new(ErrorKind::Unsupported, "lost")),
            other => self.0.seek(other),
        }
    }
}

#[test]
fn test_cpack_read() {
    let pack = CPack::new_from_file(Cursor::new(sample())).unwrap();
    assert_eq!(pack.len(), 2);
    let mut first = String::new();
    pack.get_file(0).unwrap().read_to_string(&mut first).unwrap();
    assert_eq!(first, String::from("hello"));
    let mut second = String::new();
    pack.get_file(1).unwrap().read_to_string(&mut second).unwrap();
    assert_eq!(second, String::from("world"));
}

#[test]
fn sample_is_not_empty() {
    let pack = open(sample()).unwrap();
    assert!(!pack.is_empty());
    assert_eq!(pack.entry(0), FileIndex { file_offset: 32, file_length: 5 });
    assert_eq!(pack.entry(1), FileIndex { file_offset: 37, file_length: 5 });
}

#[test]
fn empty_archive() {
    let pack = open(archive(&[], 0)).unwrap();
    assert!(pack.is_empty());
    assert_eq!(pack.len(), 0);
}

#[test]
fn empty_archive_with_payload() {
    let pack = open(archive(&[], 100)).unwrap();
    assert!(pack.is_empty());
}

#[test]
fn every_file_reads_its_recorded_length() {
    let entries = [(40u32, 7u32), (47, 0), (47, 13), (60, 1)];
    let pack = open(archive(&entries, 21)).unwrap();
    assert_eq!(pack.len(), entries.len());
    for id in 0..pack.len() {
        let mut bytes = Vec::new();
        pack.get_file(id).unwrap().read_to_end(&mut bytes).unwrap();
        assert_eq!(bytes.len(), entries[id].1 as usize);
        assert_eq!(pack.entry(id).file_length, entries[id].1);
        assert_eq!(pack.entry(id).file_offset, entries[id].0);
    }
}

#[test]
fn entries_may_overlap_and_repeat() {
    let mut bytes = archive(&[(40, 4), (42, 4), (40, 4)], 0);
    bytes.extend_from_slice(b"abcdef");
    let pack = open(bytes).unwrap();
    let mut read = |id: usize| {
        let mut text = String::new();
        pack.get_file(id).unwrap().read_to_string(&mut text).unwrap();
        text
    };
    assert_eq!(read(0), "abcd");
    assert_eq!(read(1), "cdef");
    assert_eq!(read(2), "abcd");
}

#[test]
fn file_may_end_exactly_at_the_end_of_the_source() {
    let pack = open(archive(&[(24, 10)], 10)).unwrap();
    let mut bytes = Vec::new();
    pack.get_file(0).unwrap().read_to_end(&mut bytes).unwrap();
    assert_eq!(bytes, vec![0xAA; 10]);
}

#[test]
fn bad_magic_carries_the_four_bytes() {
    let mut bytes = sample();
    bytes[0] = 1;
    bytes[3] = 9;
    match failure(bytes) {
        CPackError::FourFirstByteNotZero(magic) => assert_eq!(magic, [1, 0, 0, 9]),
        other => panic!("{:?}", other),
    }
}

#[test]
fn bad_magic_whatever_follows() {
    match failure(vec![0, 0, 7, 0]) {
        CPackError::FourFirstByteNotZero(magic) => assert_eq!(magic, [0, 0, 7, 0]),
        other => panic!("{:?}", other),
    }
    let mut garbage = vec![0xFF; 64];
    garbage[1] = 2;
    match failure(garbage) {
        CPackError::FourFirstByteNotZero(magic) => assert_eq!(magic, [0xFF, 2, 0xFF, 0xFF]),
        other => panic!("{:?}", other),
    }
}

#[test]
fn entry_behind_the_source_is_reported() {
    let mut bytes = sample();
    bytes[20] = 6; // the second file now ends at 43, one byte behind the source
    match failure(bytes) {
        CPackError::EndOfFileOutOfScope(id, end, source_len) => {
            assert_eq!((id, end, source_len), (1, 43, 42));
        },
        other => panic!("{:?}", other),
    }
}

#[test]
fn first_entry_behind_the_source_wins() {
    let bytes = archive(&[(0, 1), (100, 100), (500, 1)], 0);
    match failure(bytes) {
        CPackError::EndOfFileOutOfScope(id, end, source_len) => {
            assert_eq!((id, end, source_len), (1, 200, 40));
        },
        other => panic!("{:?}", other),
    }
}

#[test]
fn end_of_an_entry_does_not_wrap() {
    // 0xFFFF_FFFF + 2 is 1 in 32 bits, which would lie inside the source.
    let bytes = archive(&[(0xFFFF_FFFF, 2)], 0);
    match failure(bytes) {
        CPackError::EndOfFileOutOfScope(id, end, source_len) => {
            assert_eq!((id, end, source_len), (0, 0x1_0000_0001, 24));
        },
        other => panic!("{:?}", other),
    }
    let bytes = archive(&[(0xFFFF_FFFF, 0xFFFF_FFFF)], 0);
    match failure(bytes) {
        CPackError::EndOfFileOutOfScope(id, end, source_len) => {
            assert_eq!((id, end, source_len), (0, 0x1_FFFF_FFFE, 24));
        },
        other => panic!("{:?}", other),
    }
}

#[test]
fn out_of_bounds_comes_before_a_short_table() {
    // Three entries are announced, the source ends inside the second, and
    // the first already ends behind the source.
    let mut bytes = vec![0, 0, 0, 0, 3, 0, 0, 0];
    bytes.extend_from_slice(&le(10));
    bytes.extend_from_slice(&le(11));
    bytes.extend_from_slice(&le(0));
    match failure(bytes) {
        CPackError::EndOfFileOutOfScope(id, end, source_len) => {
            assert_eq!((id, end, source_len), (0, 21, 20));
        },
        other => panic!("{:?}", other),
    }
}

#[test]
fn bad_terminator_carries_position_and_bytes() {
    let mut bytes = sample();
    bytes[24] = 1;
    bytes[31] = 0x80;
    match failure(bytes) {
        CPackError::EndOfHeaderNotZero(position, terminator) => {
            assert_eq!(position, 32);
            assert_eq!(terminator, [1, 0, 0, 0, 0, 0, 0, 0x80]);
        },
        other => panic!("{:?}", other),
    }
}

#[test]
fn bad_terminator_of_an_empty_archive() {
    let mut bytes = archive(&[], 0);
    bytes[15] = 1;
    match failure(bytes) {
        CPackError::EndOfHeaderNotZero(position, terminator) => {
            assert_eq!(position, 16);
            assert_eq!(terminator, [0, 0, 0, 0, 0, 0, 0, 1]);
        },
        other => panic!("{:?}", other),
    }
}

#[test]
fn short_sources_fail_to_read() {
    let whole = archive(&[(0, 0), (8, 0)], 0);
    for length in 0..whole.len() {
        match failure(whole[..length].to_vec()) {
            CPackError::IOError(error) => assert_eq!(error.kind(), ErrorKind::UnexpectedEof),
            other => panic!("{} bytes: {:?}", length, other),
        }
    }
    assert!(open(whole).is_ok());
}

#[test]
fn a_source_that_cannot_seek_fails() {
    match CPack::new_from_file(Unseekable) {
        Err(CPackError::IOError(error)) => assert_eq!(error.kind(), ErrorKind::Unsupported),
        Err(other) => panic!("{:?}", other),
        Ok(_) => panic!("the archive was accepted"),
    }
}

#[test]
fn bad_terminator_of_a_source_that_is_lost() {
    let mut bytes = archive(&[], 0);
    bytes[8] = 1;
    match CPack::new_from_file(Lost(Cursor::new(bytes))) {
        Err(CPackError::IOError(error)) => assert_eq!(error.kind(), ErrorKind::Unsupported),
        Err(other) => panic!("{:?}", other),
        Ok(_) => panic!("the archive was accepted"),
    }
    assert!(CPack::new_from_file(Lost(Cursor::new(archive(&[], 0)))).is_ok());
}

#[test]
fn length_of_the_source_is_not_cut_to_32_bits() {
    // The source claims five GiB, so a file that ends behind four GiB fits.
    let source = Claiming {
        bytes: Cursor::new(archive(&[(0xFFFF_FFF0, 0x20)], 0)),
        claimed: vec![5 << 30],
        asked: 0,
    };
    let pack = CPack::new_from_file(source).unwrap();
    assert_eq!(pack.entry(0), FileIndex { file_offset: 0xFFFF_FFF0, file_length: 0x20 });
    // Cut to 32 bits the same length would be one GiB, and the file outside.
    let source = Claiming {
        bytes: Cursor::new(archive(&[(0xFFFF_FFF0, 0x20)], 0)),
        claimed: vec![1 << 30],
        asked: 0,
    };
    match CPack::new_from_file(source) {
        Err(CPackError::EndOfFileOutOfScope(id, end, source_len)) => {
            assert_eq!((id, end, source_len), (0, 0x1_0000_0010, 1 << 30));
        },
        Err(other) => panic!("{:?}", other),
        Ok(_) => panic!("the archive was accepted"),
    }
}

#[test]
fn a_source_that_shrank_gives_no_reader() {
    // Forty bytes at construction, ten at every later look.
    let source = Claiming {
        bytes: Cursor::new(archive(&[(24, 16)], 16)),
        claimed: vec![40, 10],
        asked: 0,
    };
    let pack = CPack::new_from_file(source).unwrap();
    assert_eq!(pack.len(), 1);
    match pack.get_file(0) {
        Err(CPackError::PartitionCreationError(_)) => {},
        Err(other) => panic!("{:?}", other),
        Ok(_) => panic!("a reader was made"),
    }
}

#[test]
fn answer_of_the_partitioning_is_kept_or_wrapped() {
    match partition_or_error(Ok::<u8, Error>(7)) {
        Ok(value) => assert_eq!(value, 7),
        Err(other) => panic!("{:?}", other),
    }
    match partition_or_error::<u8>(Err(Error::new(ErrorKind::Other, "no"))) {
        Err(CPackError::PartitionCreationError(error)) => {
            assert_eq!(error.kind(), ErrorKind::Other);
        },
        other => panic!("{:?}", other),
    }
}

#[test]
fn io_error_converts_to_the_io_variant() {
    match CPackError::from(Error::new(ErrorKind::NotFound, "gone")) {
        CPackError::IOError(error) => assert_eq!(error.kind(), ErrorKind::NotFound),
        other => panic!("{:?}", other),
    }
}

#[test]
fn reader_seeks_inside_its_own_window() {
    let pack = open(sample()).unwrap();
    let mut world = pack.get_file(1).unwrap();
    assert_eq!(world.seek(SeekFrom::Start(3)).unwrap(), 3);
    let mut rest = String::new();
    world.read_to_string(&mut rest).unwrap();
    assert_eq!(rest, "ld");
    assert_eq!(world.seek(SeekFrom::End(-5)).unwrap(), 0);
    let mut byte = [0u8; 1];
    world.read_exact(&mut byte).unwrap();
    assert_eq!(&byte, b"w");
    assert!(world.seek(SeekFrom::Current(-2)).is_err());
}

#[test]
fn reader_stops_at_the_end_of_its_window() {
    let pack = open(sample()).unwrap();
    let mut hello = pack.get_file(0).unwrap();
    let mut buffer = [0u8; 16];
    assert_eq!(hello.read(&mut buffer).unwrap(), 5);
    assert_eq!(&buffer[..5], b"hello");
    assert_eq!(hello.read(&mut buffer).unwrap(), 0);
}

#[test]
fn readers_do_not_disturb_each_other() {
    let pack = open(sample()).unwrap();
    let mut hello = pack.get_file(0).unwrap();
    let mut world = pack.get_file(1).unwrap();
    let mut other_hello = pack.get_file(0).unwrap();
    let mut left = Vec::new();
    let mut right = Vec::new();
    let mut again = Vec::new();
    let mut byte = [0u8; 1];
    for _ in 0..5 {
        hello.read_exact(&mut byte).unwrap();
        left.push(byte[0]);
        world.read_exact(&mut byte).unwrap();
        right.push(byte[0]);
        other_hello.read_exact(&mut byte).unwrap();
        again.push(byte[0]);
    }
    assert_eq!(left, b"hello");
    assert_eq!(right, b"world");
    assert_eq!(again, b"hello");
}

#[test]
fn archive_outlives_nothing_it_hands_out() {
    let pack = open(sample()).unwrap();
    let mut hello = pack.get_file(0).unwrap();
    drop(pack);
    let mut text = String::new();
    hello.read_to_string(&mut text).unwrap();
    assert_eq!(text, "hello");
}
