//! Reader for cpack archives: a header that lists the position and size of
//! every packed file, followed by the packed bytes.
//!
//! [`CPack::new_from_file`] decodes the header of a source once;
//! [`CPack::get_file`] then hands out readers, each confined to the bytes of
//! one packed file. The source is shared behind a lock, so that any number of
//! such readers can be in use at a time. [`decode_header`] decodes a header
//! that is in memory already.

pub mod decoder;
pub mod layout;
pub mod source;

use vstd::prelude::*;
use std::io::Read;
use std::io::Seek;
use std::io::SeekFrom;
use std::sync::Arc;
use std::sync::Mutex;
use std::sync::MutexGuard;
use vstd::pervasive::unreached;
use vstd::slice::slice_subrange;
use crate::decoder::HeaderDecoder;
use crate::layout::all_zero;
use crate::layout::header_outcome;
use crate::layout::lemma_decoded_table;
use crate::layout::lemma_outcome_of_extension;
use crate::layout::lemma_reported_fault;
use crate::layout::FileIndex;
use crate::layout::HeaderFault;
use crate::source::lock;
use crate::source::open_partition;
use crate::source::read_chunk;
use crate::source::seek;
use crate::source::share;

verus! {

/// What can go wrong with an archive.
#[derive(Debug)]
pub enum CPackError {
    /// The source failed to seek or to read.
    IOError(std::io::Error),
    /// The lock round the source is poisoned.
    PoisonedLock,
    /// The first four bytes of the source, which are not all zero.
    FourFirstByteNotZero([u8; 4]),
    /// The id of an entry, the position at which its file ends, and the
    /// length of the source, which is less.
    EndOfFileOutOfScope(u32, u64, u64),
    /// The position of the source behind the eight bytes that close the
    /// header, and those bytes, which are not all zero.
    EndOfHeaderNotZero(u64, [u8; 8]),
    /// No reader could be made for a packed file.
    PartitionCreationError(std::io::Error),
}

impl CPackError {
    /// The error says of the header what the fault says.
    pub open spec fn reports(self, fault: HeaderFault) -> bool {
        match fault {
            HeaderFault::Truncated => false,
            HeaderFault::BadMagic(magic) => self == CPackError::FourFirstByteNotZero(magic),
            HeaderFault::OutOfBounds(id, end, source_len) => self
                == CPackError::EndOfFileOutOfScope(id, end, source_len),
            HeaderFault::BadTerminator(terminator) => self matches CPackError::EndOfHeaderNotZero(
                _,
                bytes,
            ) && bytes == terminator,
        }
    }

    /// The error is one that decoding a header ends with, and what it
    /// carries is in fact wrong.
    pub open spec fn is_decoding_error(self) -> bool {
        match self {
            CPackError::IOError(_) => true,
            CPackError::PoisonedLock => true,
            CPackError::FourFirstByteNotZero(magic) => !all_zero(magic@),
            CPackError::EndOfFileOutOfScope(_, end, source_len) => source_len < end <= 2 * u32::MAX,
            CPackError::EndOfHeaderNotZero(_, terminator) => !all_zero(terminator@),
            CPackError::PartitionCreationError(_) => false,
        }
    }
}

/// What becomes of the answer to a request for a reader: the reader itself,
/// or its error as a `PartitionCreationError`.
pub fn partition_or_error<P>(made: Result<P, std::io::Error>) -> (r: Result<P, CPackError>)
    ensures
        match made {
            Ok(partition) => r == Ok::<P, CPackError>(partition),
            Err(err) => r == Err::<P, CPackError>(CPackError::PartitionCreationError(err)),
        },
{
    match made {
        Ok(partition) => Ok(partition),
        Err(err) => Err(CPackError::PartitionCreationError(err)),
    }
}

impl From<std::io::Error> for CPackError {
    fn from(err: std::io::Error) -> (error: CPackError) {
        CPackError::IOError(err)
    }
}

impl vstd::std_specs::convert::FromSpecImpl<std::io::Error> for CPackError {
    open spec fn obeys_from_spec() -> bool {
        true
    }

    open spec fn from_spec(err: std::io::Error) -> CPackError {
        CPackError::IOError(err)
    }
}

/// Decodes the header at the start of `bytes`, for a source of `source_len`
/// bytes.
pub fn decode_header(bytes: &[u8], source_len: u64) -> (r: Result<Vec<FileIndex>, HeaderFault>)
    ensures
        match r {
            Ok(table) => header_outcome(bytes@, source_len) == Ok::<Seq<FileIndex>, HeaderFault>(
                table@,
            ),
            Err(fault) => header_outcome(bytes@, source_len) == Err::<Seq<FileIndex>, HeaderFault>(
                fault,
            ),
        },
{
    let mut decoder = HeaderDecoder::new(source_len);
    let mut at: usize = 0;
    loop
        invariant
            decoder.wf(),
            decoder.source_len() == source_len,
            at <= bytes@.len(),
            decoder.consumed() == bytes@.subrange(0, at as int),
        decreases decoder.chunks_left(),
    {
        let wanted = decoder.wanted();
        let ghost rest = bytes@.subrange(at as int, bytes@.len() as int);
        assert(bytes@ =~= decoder.consumed() + rest);
        if wanted == 0 {
            let ghost seen = decoder.consumed();
            let table = decoder.finish();
            proof {
                lemma_outcome_of_extension(seen, rest, source_len);
            }
            return Ok(table);
        }
        if bytes.len() - at < wanted {
            proof {
                decoder.lemma_pending(rest);
            }
            return Err(HeaderFault::Truncated);
        }
        let chunk = slice_subrange(bytes, at, at + wanted);
        let fed = decoder.feed(chunk);
        at = at + wanted;
        assert(decoder.consumed() =~= bytes@.subrange(0, at as int));
        if let Err(fault) = fed {
            proof {
                let tail = bytes@.subrange(at as int, bytes@.len() as int);
                assert(bytes@ =~= decoder.consumed() + tail);
                lemma_outcome_of_extension(decoder.consumed(), tail, source_len);
            }
            return Err(fault);
        }
    }
}

/// An archive: the offset table of its header, and the source that the
/// packed files are read from.
#[derive(Debug)]
#[verifier::reject_recursive_types(F)]
pub struct CPack<F> {
    offset_table: Vec<FileIndex>,
    source_len: u64,
    file: Arc<Mutex<F>>,
}

impl<F> View for CPack<F> {
    type V = Seq<FileIndex>;

    /// The offset table: the entry of each packed file, by id.
    closed spec fn view(&self) -> Seq<FileIndex> {
        self.offset_table@
    }
}

impl<F> CPack<F> {
    /// The length that the source had when the header was decoded.
    pub closed spec fn source_len(&self) -> u64 {
        self.source_len
    }

    /// Every packed file lies inside the source, and there are no more of
    /// them than a header can announce.
    pub open spec fn wf(&self) -> bool {
        &&& self@.len() <= u32::MAX
        &&& forall|id: int|
            0 <= id < self@.len() ==> (#[trigger] self@[id]).within(self.source_len() as int)
    }

    /// Return the number of file in the cpack archive
    pub fn len(&self) -> (count: usize)
        ensures
            count == self@.len(),
    {
        self.offset_table.len()
    }

    /// Return true if the cpack archive is empty
    pub fn is_empty(&self) -> (empty: bool)
        ensures
            empty == (self@.len() == 0),
    {
        self.len() == 0
    }

    /// The entry of the packed file with the given id.
    pub fn entry(&self, id: usize) -> (entry: FileIndex)
        requires
            id < self@.len(),
        ensures
            entry == self@[id as int],
    {
        self.offset_table[id]
    }
}

impl<F: Read + Seek> CPack<F> {
    /// Create a CPack struct from a cpack file
    ///
    /// The header is decoded from the start of `file`, whose length is taken
    /// by seeking to its end. The first fault of the header, or the first
    /// failure of the source, ends the construction. The end of an entry is
    /// computed in 64 bits, and the length of the source is kept in 64 bits,
    /// so that no sum wraps and no length is cut.
    pub fn new_from_file(file: F) -> (r: Result<CPack<F>, CPackError>)
        ensures
            match r {
                Ok(pack) => pack.wf(),
                Err(error) => error.is_decoding_error(),
            },
    {
        let file = Arc::new(Mutex::new(file));
        match Self::parse(&file) {
            Ok((offset_table, source_len)) => Ok(CPack { offset_table, source_len, file }),
            Err(error) => Err(error),
        }
    }

    /// Reads the header from the locked source, piece by piece, and stops at
    /// the first piece that is wrong.
    fn parse(file: &Arc<Mutex<F>>) -> (r: Result<(Vec<FileIndex>, u64), CPackError>)
        ensures
            match r {
                Ok((table, source_len)) => {
                    &&& table@.len() <= u32::MAX
                    &&& forall|id: int|
                        0 <= id < table@.len() ==> (#[trigger] table@[id]).within(source_len as int)
                },
                Err(error) => error.is_decoding_error(),
            },
    {
        let mut source = match lock(file) {
            Some(guard) => guard,
            None => return Err(CPackError::PoisonedLock),
        };
        let source_len = match seek(&mut source, SeekFrom::End(0)) {
            Ok(position) => position,
            Err(err) => return Err(CPackError::IOError(err)),
        };
        match seek(&mut source, SeekFrom::Start(0)) {
            Ok(_) => {},
            Err(err) => return Err(CPackError::IOError(err)),
        }
        let mut decoder = HeaderDecoder::new(source_len);
        while decoder.wanted() > 0
            invariant
                decoder.wf(),
                decoder.source_len() == source_len,
            decreases decoder.chunks_left(),
        {
            let chunk = match read_chunk(&mut source, decoder.wanted()) {
                Ok(bytes) => bytes,
                Err(err) => return Err(CPackError::IOError(err)),
            };
            match decoder.feed(chunk.as_slice()) {
                Ok(()) => {},
                Err(fault) => {
                    proof {
                        lemma_reported_fault(decoder.consumed(), source_len, fault);
                    }
                    return Err(Self::report(fault, &mut source));
                },
            }
        }
        let ghost header = decoder.consumed();
        let table = decoder.finish();
        proof {
            lemma_decoded_table(header, source_len, table@);
        }
        Ok((table, source_len))
    }

    /// Turns a fault of the header into the error that tells of it: the
    /// magic and the entry with what the fault carries, and nothing asked of
    /// the source. For the bytes that should close the header the source is
    /// asked where it stands, and only there its failure to say so may come
    /// in place of the error.
    fn report(fault: HeaderFault, source: &mut MutexGuard<'_, F>) -> (error: CPackError)
        requires
            fault != HeaderFault::Truncated,
        ensures
            match fault {
                HeaderFault::BadTerminator(_) => error.reports(fault) || error is IOError,
                _ => error.reports(fault),
            },
    {
        match fault {
            HeaderFault::Truncated => unreached(),
            HeaderFault::BadMagic(magic) => CPackError::FourFirstByteNotZero(magic),
            HeaderFault::OutOfBounds(id, end, source_len) => CPackError::EndOfFileOutOfScope(
                id,
                end,
                source_len,
            ),
            HeaderFault::BadTerminator(terminator) => match seek(source, SeekFrom::Current(0)) {
                Ok(position) => CPackError::EndOfHeaderNotZero(position, terminator),
                Err(err) => CPackError::IOError(err),
            },
        }
    }

    /// get the file by an id, as a reader of the bytes of that file and of
    /// no others
    ///
    /// The id must be that of a file of the archive. The reader shares the
    /// source with the archive and with every other reader, and takes the
    /// lock for each single read or seek.
    pub fn get_file(&self, id: usize) -> (r: Result<impl Read + Seek, CPackError>)
        requires
            id < self@.len(),
        ensures
            r matches Err(error) ==> error is PartitionCreationError,
    {
        let entry = self.entry(id);
        partition_or_error(
            open_partition(share(&self.file), entry.file_offset as u64, entry.file_length as u64),
        )
    }
}

} // verus!
