//! The header of a cpack archive, as a function on bytes.
//!
//! ```text
//! offset 0      4 bytes, all zero
//! offset 4      u32, the number of entries N
//! offset 8      N entries of (u32 file_offset, u32 file_length)
//! offset 8+8N   8 bytes, all zero
//! ```
//!
//! Every integer is little-endian.

use vstd::prelude::*;

verus! {

/// Where one packed file lies in the source.
#[derive(Debug, Clone, Copy, PartialEq, Eq, Structural)]
pub struct FileIndex {
    /// First byte of the file, counted from the start of the source.
    pub file_offset: u32,
    /// Number of bytes of the file.
    pub file_length: u32,
}

impl FileIndex {
    /// The position just behind the last byte of the file.
    pub open spec fn end(self) -> int {
        self.file_offset + self.file_length
    }

    /// The file lies inside a source of `source_len` bytes.
    pub open spec fn within(self, source_len: int) -> bool {
        self.end() <= source_len
    }
}

/// Why a sequence of bytes is not the header of an archive.
#[derive(Debug, Clone, Copy, PartialEq, Eq)]
pub enum HeaderFault {
    /// The bytes stop before the header does.
    Truncated,
    /// The first four bytes, which are not all zero.
    BadMagic([u8; 4]),
    /// The entry with this id ends at the second number, behind the end of
    /// the source, which is the third.
    OutOfBounds(u32, u64, u64),
    /// The eight bytes behind the last entry, which are not all zero.
    BadTerminator([u8; 8]),
}

/// The value of four bytes read as a little-endian integer.
pub open spec fn le_u32(bytes: Seq<u8>) -> int
    recommends
        bytes.len() == 4,
{
    bytes[0] + 0x100 * bytes[1] + 0x1_0000 * bytes[2] + 0x100_0000 * bytes[3]
}

/// Every byte is zero.
pub open spec fn all_zero(bytes: Seq<u8>) -> bool {
    forall|i: int| 0 <= i < bytes.len() ==> bytes[i] == 0
}

/// The four bytes at the start of the header.
pub open spec fn magic_of(bytes: Seq<u8>) -> [u8; 4]
    recommends
        bytes.len() >= 4,
{
    [bytes[0], bytes[1], bytes[2], bytes[3]]
}

/// The number of entries that the header announces.
pub open spec fn count_of(bytes: Seq<u8>) -> int
    recommends
        bytes.len() >= 8,
{
    le_u32(bytes.subrange(4, 8))
}

/// The entry with the given id.
pub open spec fn entry_of(bytes: Seq<u8>, id: int) -> FileIndex
    recommends
        0 <= id,
        bytes.len() >= 16 + 8 * id,
{
    FileIndex {
        file_offset: le_u32(bytes.subrange(8 + 8 * id, 12 + 8 * id)) as u32,
        file_length: le_u32(bytes.subrange(12 + 8 * id, 16 + 8 * id)) as u32,
    }
}

/// The eight bytes behind `count` entries.
pub open spec fn terminator_of(bytes: Seq<u8>, count: int) -> [u8; 8]
    recommends
        0 <= count,
        bytes.len() >= 16 + 8 * count,
{
    let at = 8 + 8 * count;
    [
        bytes[at],
        bytes[at + 1],
        bytes[at + 2],
        bytes[at + 3],
        bytes[at + 4],
        bytes[at + 5],
        bytes[at + 6],
        bytes[at + 7],
    ]
}

/// The first `count` entries, by id.
pub open spec fn table_of(bytes: Seq<u8>, count: int) -> Seq<FileIndex> {
    Seq::new(count as nat, |id: int| entry_of(bytes, id))
}

/// What the header says from entry `id` on, the entries before it being in
/// order.
pub open spec fn entries_outcome(bytes: Seq<u8>, source_len: u64, count: int, id: int) -> Result<
    Seq<FileIndex>,
    HeaderFault,
>
    decreases count - id,
{
    if id >= count {
        if bytes.len() < 16 + 8 * count {
            Err(HeaderFault::Truncated)
        } else if !all_zero(terminator_of(bytes, count)@) {
            Err(HeaderFault::BadTerminator(terminator_of(bytes, count)))
        } else {
            Ok(table_of(bytes, count))
        }
    } else if bytes.len() < 16 + 8 * id {
        Err(HeaderFault::Truncated)
    } else if !entry_of(bytes, id).within(source_len as int) {
        Err(HeaderFault::OutOfBounds(id as u32, entry_of(bytes, id).end() as u64, source_len))
    } else {
        entries_outcome(bytes, source_len, count, id + 1)
    }
}

/// What a reader finds in `bytes`, taken from the start of a source of
/// `source_len` bytes: the offset table, or the first thing that is wrong.
pub open spec fn header_outcome(bytes: Seq<u8>, source_len: u64) -> Result<
    Seq<FileIndex>,
    HeaderFault,
> {
    if bytes.len() < 4 {
        Err(HeaderFault::Truncated)
    } else if !all_zero(magic_of(bytes)@) {
        Err(HeaderFault::BadMagic(magic_of(bytes)))
    } else if bytes.len() < 8 {
        Err(HeaderFault::Truncated)
    } else {
        entries_outcome(bytes, source_len, count_of(bytes), 0)
    }
}

/// Reads the little-endian integer that starts at `at`.
pub fn cpack_read_u32(bytes: &[u8], at: usize) -> (value: u32)
    requires
        at + 4 <= bytes@.len(),
    ensures
        value == le_u32(bytes@.subrange(at as int, at + 4)),
{
    let b0: u32 = bytes[at] as u32;
    let b1: u32 = bytes[at + 1] as u32;
    let b2: u32 = bytes[at + 2] as u32;
    let b3: u32 = bytes[at + 3] as u32;
    b0 + 0x100 * b1 + 0x1_0000 * b2 + 0x100_0000 * b3
}

/// The bytes start with a zero magic, a count, and `entries` entries that
/// all lie inside a source of `source_len` bytes.
pub open spec fn sound_prefix(bytes: Seq<u8>, source_len: u64, entries: int) -> bool {
    &&& 0 <= entries <= count_of(bytes)
    &&& bytes.len() >= 8 + 8 * entries
    &&& all_zero(magic_of(bytes)@)
    &&& forall|id: int|
        0 <= id < entries ==> (#[trigger] entry_of(bytes, id)).within(source_len as int)
}

/// The bytes start with a whole header in which nothing is wrong.
pub open spec fn whole_header(bytes: Seq<u8>, source_len: u64) -> bool {
    &&& sound_prefix(bytes, source_len, count_of(bytes))
    &&& bytes.len() >= 16 + 8 * count_of(bytes)
    &&& all_zero(terminator_of(bytes, count_of(bytes))@)
}

/// The bytes have this fault, and nothing before it is wrong. Of a
/// truncation this says only that no whole header is there.
pub open spec fn fault_found(bytes: Seq<u8>, source_len: u64, fault: HeaderFault) -> bool {
    match fault {
        HeaderFault::Truncated => !whole_header(bytes, source_len),
        HeaderFault::BadMagic(magic) => {
            &&& bytes.len() >= 4
            &&& magic == magic_of(bytes)
            &&& !all_zero(magic@)
        },
        HeaderFault::OutOfBounds(id, end, len) => {
            &&& id < count_of(bytes)
            &&& sound_prefix(bytes, source_len, id as int)
            &&& bytes.len() >= 16 + 8 * id
            &&& end == entry_of(bytes, id as int).end()
            &&& len == source_len
            &&& end > len
        },
        HeaderFault::BadTerminator(terminator) => {
            &&& sound_prefix(bytes, source_len, count_of(bytes))
            &&& bytes.len() >= 16 + 8 * count_of(bytes)
            &&& terminator == terminator_of(bytes, count_of(bytes))
            &&& !all_zero(terminator@)
        },
    }
}

/// Behind a sound prefix the outcome is that of the entries that follow it.
pub proof fn lemma_sound_prefix(bytes: Seq<u8>, source_len: u64, entries: int)
    requires
        sound_prefix(bytes, source_len, entries),
    ensures
        header_outcome(bytes, source_len) == entries_outcome(
            bytes,
            source_len,
            count_of(bytes),
            entries,
        ),
    decreases entries,
{
    if entries > 0 {
        lemma_sound_prefix(bytes, source_len, entries - 1);
    }
}

/// A whole header in which nothing is wrong gives its table: as many entries
/// as it announces, each as it stands in the bytes. With no entries the
/// table is empty.
pub proof fn lemma_whole_header_decodes(bytes: Seq<u8>, source_len: u64)
    requires
        whole_header(bytes, source_len),
    ensures
        header_outcome(bytes, source_len) == Ok::<Seq<FileIndex>, HeaderFault>(
            table_of(bytes, count_of(bytes)),
        ),
        table_of(bytes, count_of(bytes)).len() == count_of(bytes),
{
    lemma_sound_prefix(bytes, source_len, count_of(bytes));
}

/// A source that does not start with four zero bytes is refused for them,
/// whatever follows.
pub proof fn lemma_bad_magic(bytes: Seq<u8>, source_len: u64)
    requires
        bytes.len() >= 4,
        !all_zero(magic_of(bytes)@),
    ensures
        header_outcome(bytes, source_len) == Err::<Seq<FileIndex>, HeaderFault>(
            HeaderFault::BadMagic(magic_of(bytes)),
        ),
{
}

/// The first entry that ends behind the source is reported with its id, the
/// position at which it ends, and the length of the source.
pub proof fn lemma_entry_out_of_bounds(bytes: Seq<u8>, source_len: u64, id: u32)
    requires
        sound_prefix(bytes, source_len, id as int),
        id < count_of(bytes),
        bytes.len() >= 16 + 8 * id,
        !entry_of(bytes, id as int).within(source_len as int),
    ensures
        header_outcome(bytes, source_len) == Err::<Seq<FileIndex>, HeaderFault>(
            HeaderFault::OutOfBounds(id, entry_of(bytes, id as int).end() as u64, source_len),
        ),
{
    lemma_sound_prefix(bytes, source_len, id as int);
}

/// Behind a zero magic and entries that are all inside the source, eight
/// bytes that are not all zero are reported as they are.
pub proof fn lemma_bad_terminator(bytes: Seq<u8>, source_len: u64)
    requires
        sound_prefix(bytes, source_len, count_of(bytes)),
        bytes.len() >= 16 + 8 * count_of(bytes),
        !all_zero(terminator_of(bytes, count_of(bytes))@),
    ensures
        header_outcome(bytes, source_len) == Err::<Seq<FileIndex>, HeaderFault>(
            HeaderFault::BadTerminator(terminator_of(bytes, count_of(bytes))),
        ),
{
    lemma_sound_prefix(bytes, source_len, count_of(bytes));
}

proof fn lemma_entries_decoded(
    bytes: Seq<u8>,
    source_len: u64,
    count: int,
    id: int,
    table: Seq<FileIndex>,
)
    requires
        0 <= id <= count,
        entries_outcome(bytes, source_len, count, id) == Ok::<Seq<FileIndex>, HeaderFault>(table),
    ensures
        bytes.len() >= 16 + 8 * count,
        all_zero(terminator_of(bytes, count)@),
        table == table_of(bytes, count),
        forall|i: int|
            id <= i < count ==> (#[trigger] entry_of(bytes, i)).within(source_len as int),
    decreases count - id,
{
    if id < count {
        lemma_entries_decoded(bytes, source_len, count, id + 1, table);
    }
}

/// A table comes only out of a whole header in which nothing is wrong. It
/// holds the entries as they stand in the bytes, and each of them lies inside
/// the source.
pub proof fn lemma_decoded_table(bytes: Seq<u8>, source_len: u64, table: Seq<FileIndex>)
    requires
        header_outcome(bytes, source_len) == Ok::<Seq<FileIndex>, HeaderFault>(table),
    ensures
        whole_header(bytes, source_len),
        table == table_of(bytes, count_of(bytes)),
        table.len() == count_of(bytes) <= u32::MAX,
        forall|id: int| 0 <= id < table.len() ==> (#[trigger] table[id]).within(source_len as int),
{
    lemma_entries_decoded(bytes, source_len, count_of(bytes), 0, table);
}

proof fn lemma_entries_fault(
    bytes: Seq<u8>,
    source_len: u64,
    count: int,
    id: int,
    fault: HeaderFault,
)
    requires
        0 <= id <= count <= u32::MAX,
        sound_prefix(bytes, source_len, id),
        count == count_of(bytes),
        entries_outcome(bytes, source_len, count, id) == Err::<Seq<FileIndex>, HeaderFault>(fault),
    ensures
        fault_found(bytes, source_len, fault),
    decreases count - id,
{
    if id < count && bytes.len() >= 16 + 8 * id && entry_of(bytes, id).within(source_len as int) {
        lemma_entries_fault(bytes, source_len, count, id + 1, fault);
    }
}

/// A fault is reported only where the bytes have it, and it carries what
/// they hold.
pub proof fn lemma_reported_fault(bytes: Seq<u8>, source_len: u64, fault: HeaderFault)
    requires
        header_outcome(bytes, source_len) == Err::<Seq<FileIndex>, HeaderFault>(fault),
    ensures
        fault_found(bytes, source_len, fault),
{
    if bytes.len() >= 8 && all_zero(magic_of(bytes)@) {
        lemma_entries_fault(bytes, source_len, count_of(bytes), 0, fault);
    }
}

/// Bytes that follow a field do not change it.
pub proof fn lemma_fields_of_extension(bytes: Seq<u8>, more: Seq<u8>)
    ensures
        bytes.len() >= 4 ==> magic_of(bytes + more) == magic_of(bytes),
        bytes.len() >= 8 ==> count_of(bytes + more) == count_of(bytes),
        forall|id: int|
            0 <= id && bytes.len() >= 16 + 8 * id ==> #[trigger] entry_of(bytes + more, id)
                == entry_of(bytes, id),
        forall|count: int|
            0 <= count && bytes.len() >= 16 + 8 * count ==> #[trigger] terminator_of(
                bytes + more,
                count,
            ) == terminator_of(bytes, count),
{
}

proof fn lemma_entries_of_extension(
    bytes: Seq<u8>,
    more: Seq<u8>,
    source_len: u64,
    count: int,
    id: int,
)
    requires
        0 <= id,
        0 <= count,
        entries_outcome(bytes, source_len, count, id) != Err::<Seq<FileIndex>, HeaderFault>(
            HeaderFault::Truncated,
        ),
    ensures
        entries_outcome(bytes + more, source_len, count, id) == entries_outcome(
            bytes,
            source_len,
            count,
            id,
        ),
    decreases count - id,
{
    if id >= count {
        assert(table_of(bytes + more, count) =~= table_of(bytes, count));
    } else if entry_of(bytes, id).within(source_len as int) {
        lemma_entries_of_extension(bytes, more, source_len, count, id + 1);
    }
}

/// Once the bytes say what the header holds, no byte behind them changes it.
pub proof fn lemma_outcome_of_extension(bytes: Seq<u8>, more: Seq<u8>, source_len: u64)
    requires
        header_outcome(bytes, source_len) != Err::<Seq<FileIndex>, HeaderFault>(
            HeaderFault::Truncated,
        ),
    ensures
        header_outcome(bytes + more, source_len) == header_outcome(bytes, source_len),
{
    if all_zero(magic_of(bytes)@) {
        lemma_entries_of_extension(bytes, more, source_len, count_of(bytes), 0);
    }
}

} // verus!
