//! A decoder for the header that is handed the bytes piece by piece.
//!
//! The decoder does no reading of its own. It says how many bytes it wants
//! next, is fed exactly those, and stops at the first fault, so that a reader
//! never fetches more of the source than the header needs.

use vstd::prelude::*;
use crate::layout::all_zero;
use crate::layout::count_of;
use crate::layout::cpack_read_u32;
use crate::layout::entry_of;
use crate::layout::header_outcome;
use crate::layout::lemma_fields_of_extension;
use crate::layout::lemma_sound_prefix;
use crate::layout::magic_of;
use crate::layout::sound_prefix;
use crate::layout::table_of;
use crate::layout::terminator_of;
use crate::layout::FileIndex;
use crate::layout::HeaderFault;

verus! {

/// The part of the header that comes next.
#[derive(Clone, Copy, PartialEq, Eq, Structural)]
enum Stage {
    Magic,
    Count,
    Entry,
    Terminator,
    Complete,
}

/// The state of decoding one header.
pub struct HeaderDecoder {
    source_len: u64,
    stage: Stage,
    count: u32,
    table: Vec<FileIndex>,
    consumed: Ghost<Seq<u8>>,
}

impl HeaderDecoder {
    /// The length of the source that the entries are held against.
    pub closed spec fn source_len(&self) -> u64 {
        self.source_len
    }

    /// All bytes fed so far, in order.
    pub closed spec fn consumed(&self) -> Seq<u8> {
        self.consumed@
    }

    /// The number of bytes that the next call of `feed` takes; zero once the
    /// header is complete.
    pub closed spec fn pending(&self) -> nat {
        match self.stage {
            Stage::Magic | Stage::Count => 4,
            Stage::Entry | Stage::Terminator => 8,
            Stage::Complete => 0,
        }
    }

    /// An upper bound on the calls of `feed` that are still to come.
    pub closed spec fn chunks_left(&self) -> nat {
        match self.stage {
            Stage::Magic => 0x1_0000_0002,
            Stage::Count => 0x1_0000_0001,
            Stage::Entry => (self.count - self.table@.len() + 1) as nat,
            Stage::Terminator => 1,
            Stage::Complete => 0,
        }
    }

    /// The bytes fed so far are a header as far as they go, and the state
    /// holds what they say.
    pub closed spec fn wf(&self) -> bool {
        let bytes = self.consumed@;
        let entries = self.table@.len() as int;
        match self.stage {
            Stage::Magic => bytes.len() == 0 && entries == 0,
            Stage::Count => bytes.len() == 4 && entries == 0 && all_zero(magic_of(bytes)@),
            Stage::Entry => {
                &&& self.holds_entries()
                &&& bytes.len() == 8 + 8 * entries
                &&& entries < self.count
            },
            Stage::Terminator => {
                &&& self.holds_entries()
                &&& bytes.len() == 8 + 8 * entries
                &&& entries == self.count
            },
            Stage::Complete => {
                &&& self.holds_entries()
                &&& bytes.len() == 16 + 8 * entries
                &&& entries == self.count
                &&& all_zero(terminator_of(bytes, entries)@)
            },
        }
    }

    spec fn holds_entries(&self) -> bool {
        let bytes = self.consumed@;
        &&& sound_prefix(bytes, self.source_len, self.table@.len() as int)
        &&& self.count == count_of(bytes)
        &&& forall|id: int|
            0 <= id < self.table@.len() ==> self.table@[id] == #[trigger] entry_of(bytes, id)
    }

    /// While bytes are pending, fewer of them leave the header truncated.
    pub proof fn lemma_pending(&self, more: Seq<u8>)
        requires
            self.wf(),
            more.len() < self.pending(),
        ensures
            header_outcome(self.consumed() + more, self.source_len()) == Err::<
                Seq<FileIndex>,
                HeaderFault,
            >(HeaderFault::Truncated),
    {
        let bytes = self.consumed@;
        let longer = bytes + more;
        lemma_fields_of_extension(bytes, more);
        match self.stage {
            Stage::Entry | Stage::Terminator => {
                lemma_sound_prefix(longer, self.source_len, self.table@.len() as int);
            },
            _ => {},
        }
    }

    /// A decoder that has seen nothing yet, for a source of `source_len`
    /// bytes.
    pub fn new(source_len: u64) -> (decoder: Self)
        ensures
            decoder.wf(),
            decoder.source_len() == source_len,
            decoder.consumed() == Seq::<u8>::empty(),
    {
        HeaderDecoder {
            source_len,
            stage: Stage::Magic,
            count: 0,
            table: Vec::new(),
            consumed: Ghost(Seq::empty()),
        }
    }

    /// The number of bytes to feed next; zero once the header is complete.
    pub fn wanted(&self) -> (length: usize)
        ensures
            length == self.pending(),
    {
        match self.stage {
            Stage::Magic | Stage::Count => 4,
            Stage::Entry | Stage::Terminator => 8,
            Stage::Complete => 0,
        }
    }

    /// What a call of `feed` with `chunk` makes of the decoder `before`.
    pub open spec fn fed(
        before: Self,
        after: Self,
        chunk: Seq<u8>,
        r: Result<(), HeaderFault>,
    ) -> bool {
        &&& after.source_len() == before.source_len()
        &&& after.consumed() == before.consumed() + chunk
        &&& match r {
            Ok(()) => after.wf() && after.chunks_left() < before.chunks_left(),
            Err(fault) => fault != HeaderFault::Truncated && header_outcome(
                after.consumed(),
                after.source_len(),
            ) == Err::<Seq<FileIndex>, HeaderFault>(fault),
        }
    }

    /// Takes the next piece of the header.
    ///
    /// A fault is the outcome of the header for all bytes fed, this piece
    /// included; without one the decoder goes on.
    pub fn feed(&mut self, chunk: &[u8]) -> (r: Result<(), HeaderFault>)
        requires
            old(self).wf(),
            old(self).pending() > 0,
            chunk@.len() == old(self).pending(),
        ensures
            Self::fed(*old(self), *final(self), chunk@, r),
    {
        match self.stage {
            Stage::Magic => self.take_magic(chunk),
            Stage::Count => self.take_count(chunk),
            Stage::Entry => self.take_entry(chunk),
            Stage::Terminator | Stage::Complete => self.take_terminator(chunk),
        }
    }

    fn take_magic(&mut self, chunk: &[u8]) -> (r: Result<(), HeaderFault>)
        requires
            old(self).wf(),
            old(self).stage == Stage::Magic,
            chunk@.len() == 4,
        ensures
            Self::fed(*old(self), *final(self), chunk@, r),
    {
        let ghost bytes = self.consumed@ + chunk@;
        self.consumed = Ghost(bytes);
        let magic = [chunk[0], chunk[1], chunk[2], chunk[3]];
        assert(magic =~= magic_of(bytes));
        if magic[0] != 0 || magic[1] != 0 || magic[2] != 0 || magic[3] != 0 {
            assert(magic@[0] != 0 || magic@[1] != 0 || magic@[2] != 0 || magic@[3] != 0);
            return Err(HeaderFault::BadMagic(magic));
        }
        self.stage = Stage::Count;
        Ok(())
    }

    fn take_count(&mut self, chunk: &[u8]) -> (r: Result<(), HeaderFault>)
        requires
            old(self).wf(),
            old(self).stage == Stage::Count,
            chunk@.len() == 4,
        ensures
            Self::fed(*old(self), *final(self), chunk@, r),
    {
        let ghost before = self.consumed@;
        let ghost bytes = before + chunk@;
        self.consumed = Ghost(bytes);
        self.count = cpack_read_u32(chunk, 0);
        self.stage = if self.count == 0 {
            Stage::Terminator
        } else {
            Stage::Entry
        };
        proof {
            lemma_fields_of_extension(before, chunk@);
            assert(chunk@.subrange(0, 4) =~= bytes.subrange(4, 8));
            assert(self.count == count_of(bytes));
            assert(sound_prefix(bytes, self.source_len, 0));
        }
        Ok(())
    }

    fn take_entry(&mut self, chunk: &[u8]) -> (r: Result<(), HeaderFault>)
        requires
            old(self).wf(),
            old(self).stage == Stage::Entry,
            chunk@.len() == 8,
        ensures
            Self::fed(*old(self), *final(self), chunk@, r),
    {
        let ghost before = self.consumed@;
        let ghost bytes = before + chunk@;
        let ghost id = self.table@.len() as int;
        self.consumed = Ghost(bytes);
        let file_offset = cpack_read_u32(chunk, 0);
        let file_length = cpack_read_u32(chunk, 4);
        let entry = FileIndex { file_offset, file_length };
        proof {
            lemma_fields_of_extension(before, chunk@);
            assert(chunk@.subrange(0, 4) =~= bytes.subrange(8 + 8 * id, 12 + 8 * id));
            assert(chunk@.subrange(4, 8) =~= bytes.subrange(12 + 8 * id, 16 + 8 * id));
            assert(entry == entry_of(bytes, id));
            assert(sound_prefix(bytes, self.source_len, id));
            lemma_sound_prefix(bytes, self.source_len, id);
        }
        let end: u64 = file_offset as u64 + file_length as u64;
        if end > self.source_len {
            let id = self.table.len() as u32;
            return Err(HeaderFault::OutOfBounds(id, end, self.source_len));
        }
        self.table.push(entry);
        if self.table.len() == self.count as usize {
            self.stage = Stage::Terminator;
        }
        assert(sound_prefix(bytes, self.source_len, id + 1));
        Ok(())
    }

    fn take_terminator(&mut self, chunk: &[u8]) -> (r: Result<(), HeaderFault>)
        requires
            old(self).wf(),
            old(self).stage == Stage::Terminator,
            chunk@.len() == 8,
        ensures
            Self::fed(*old(self), *final(self), chunk@, r),
    {
        let ghost before = self.consumed@;
        let ghost bytes = before + chunk@;
        let ghost count = self.table@.len() as int;
        self.consumed = Ghost(bytes);
        let terminator = [
            chunk[0],
            chunk[1],
            chunk[2],
            chunk[3],
            chunk[4],
            chunk[5],
            chunk[6],
            chunk[7],
        ];
        proof {
            lemma_fields_of_extension(before, chunk@);
            assert(terminator =~= terminator_of(bytes, count));
            assert(sound_prefix(bytes, self.source_len, count));
            lemma_sound_prefix(bytes, self.source_len, count);
        }
        if terminator[0] != 0 || terminator[1] != 0 || terminator[2] != 0 || terminator[3] != 0
            || terminator[4] != 0 || terminator[5] != 0 || terminator[6] != 0 || terminator[7]
            != 0 {
            return Err(HeaderFault::BadTerminator(terminator));
        }
        self.stage = Stage::Complete;
        Ok(())
    }

    /// The offset table of a complete header.
    pub fn finish(self) -> (table: Vec<FileIndex>)
        requires
            self.wf(),
            self.pending() == 0,
        ensures
            header_outcome(self.consumed(), self.source_len()) == Ok::<
                Seq<FileIndex>,
                HeaderFault,
            >(table@),
    {
        proof {
            let bytes = self.consumed@;
            lemma_sound_prefix(bytes, self.source_len, self.count as int);
            assert(self.table@ =~= table_of(bytes, self.count as int));
        }
        self.table
    }
}

} // verus!
