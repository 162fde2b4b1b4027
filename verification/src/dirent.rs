//! Lookup of a name among the entries of one directory block.
//!
//! A block starts with a table of 12-byte records: the child's node id (eight
//! bytes), the offset of its name within the block (two bytes), its file type
//! (one byte) and one unused byte. The first record's name offset marks the end
//! of the table. A name runs up to the next record's name offset, or to the end
//! of the block, and may be cut short by a zero byte.
use vstd::prelude::*;
use crate::error::{Error, ErrorKind, agrees};
use crate::types::{le_u16, le_u64, read_le_u16, read_le_u64};

verus! {

/// Number of bytes of one record of the table.
pub const DIRENT_SIZE: usize = 12;

/// The largest file type a record may carry.
pub const MAX_FILE_TYPE: u8 = 7;

/// Number of records in the table of a block of at least one record.
pub open spec fn entry_count(block: Seq<u8>) -> int {
    le_u16(block, 8) / 12
}

/// The node id that record `i` carries.
pub open spec fn entry_nid(block: Seq<u8>, i: int) -> int {
    le_u64(block, 12 * i)
}

/// Where the name of record `i` starts.
pub open spec fn entry_name_start(block: Seq<u8>, i: int) -> int {
    le_u16(block, 12 * i + 8)
}

/// Where the name of record `i` ends at the latest.
pub open spec fn entry_name_end(block: Seq<u8>, i: int) -> int {
    if i + 1 < entry_count(block) {
        entry_name_start(block, i + 1)
    } else {
        block.len() as int
    }
}

/// The file type that record `i` carries.
pub open spec fn entry_file_type(block: Seq<u8>, i: int) -> u8 {
    block[12 * i + 10]
}

/// The name of record `i` lies within the block, behind the table.
pub open spec fn entry_in_bounds(block: Seq<u8>, i: int) -> bool {
    12 * entry_count(block) <= entry_name_start(block, i) <= entry_name_end(block, i)
        <= block.len()
}

/// Record `i` is named `name`: the name's bytes stand at the record's name
/// offset and are followed by the end of the name's room or by a zero byte.
pub open spec fn entry_matches(block: Seq<u8>, i: int, name: Seq<u8>) -> bool {
    let start = entry_name_start(block, i);
    let end = entry_name_end(block, i);
    &&& start + name.len() <= end
    &&& block.subrange(start, start + name.len()) == name
    &&& (start + name.len() == end || block[start + name.len()] == 0)
}

/// The outcome of looking at the records from `i` on, in order: the first
/// record that is malformed ends the scan with its error, the first that is
/// named `name` ends it with its node id.
pub open spec fn scan_from(block: Seq<u8>, name: Seq<u8>, i: int) -> Result<Option<u64>, ErrorKind>
    decreases entry_count(block) - i,
{
    if i >= entry_count(block) {
        Ok(None)
    } else if entry_file_type(block, i) > MAX_FILE_TYPE {
        Err(ErrorKind::InvalidDirentFileType(entry_file_type(block, i)))
    } else if !entry_in_bounds(block, i) {
        Err(ErrorKind::CorruptedData)
    } else if entry_matches(block, i, name) {
        Ok(Some(entry_nid(block, i) as u64))
    } else {
        scan_from(block, name, i + 1)
    }
}

/// The node id that a directory block gives for `name`, if any. A block too
/// short for one record holds nothing; a table that is empty or does not fit
/// in the block is corrupt.
pub open spec fn spec_find(name: Seq<u8>, block: Seq<u8>) -> Result<Option<u64>, ErrorKind> {
    if block.len() < DIRENT_SIZE {
        Ok(None)
    } else if entry_count(block) == 0 || 12 * entry_count(block) > block.len() {
        Err(ErrorKind::CorruptedData)
    } else {
        scan_from(block, name, 0)
    }
}

/// Whether the `len` bytes of `block` from `start` on are those of `name`.
fn bytes_equal(block: &[u8], start: usize, name: &[u8]) -> (b: bool)
    requires
        start + name@.len() <= block@.len(),
    ensures
        b == (block@.subrange(start as int, start + name@.len()) == name@),
{
    let total: usize = block.len();
    let mut k: usize = 0;
    while k < name.len()
        invariant
            k <= name@.len(),
            total == block@.len(),
            start + name@.len() <= block@.len(),
            forall|j: int| 0 <= j < k ==> block@[start + j] == name@[j],
        decreases name@.len() - k,
    {
        if block[start + k] != name[k] {
            assert(block@.subrange(start as int, start + name@.len())[k as int] != name@[k as int]);
            return false;
        }
        k += 1;
    }
    assert(block@.subrange(start as int, start + name@.len()) =~= name@);
    true
}

/// Looks `name` up in one directory block.
pub fn find_nodeid_by_name(name: &[u8], block: &[u8]) -> (r: Result<Option<u64>, Error>)
    ensures
        agrees(r, spec_find(name@, block@)),
{
    let total: usize = block.len();
    if total < DIRENT_SIZE {
        return Ok(None);
    }
    let count: usize = (read_le_u16(block, 8) / 12) as usize;
    if count == 0 || 12 * count > total {
        return Err(Error::CorruptedData("directory table does not fit its block".to_owned()));
    }
    let mut i: usize = 0;
    while i < count
        invariant
            i <= count,
            count == entry_count(block@),
            12 * count <= total,
            total == block@.len(),
            spec_find(name@, block@) == scan_from(block@, name@, i as int),
        decreases count - i,
    {
        let file_type: u8 = block[12 * i + 10];
        if file_type > MAX_FILE_TYPE {
            return Err(Error::InvalidDirentFileType(file_type));
        }
        let start: usize = read_le_u16(block, 12 * i + 8) as usize;
        let end: usize = if i + 1 < count {
            read_le_u16(block, 12 * (i + 1) + 8) as usize
        } else {
            total
        };
        if start < 12 * count || end < start || end > total {
            return Err(Error::CorruptedData("directory entry name out of bounds".to_owned()));
        }
        if name.len() <= end - start && bytes_equal(block, start, name) && (start + name.len()
            == end || block[start + name.len()] == 0) {
            return Ok(Some(read_le_u64(block, 12 * i)));
        }
        i += 1;
    }
    Ok(None)
}

/// What a scan finds is the first record of the name: a node id that comes
/// out is that of a record named `name` before which no record is, and where
/// nothing comes out no record is named so.
pub proof fn lemma_scan_finds_first(block: Seq<u8>, name: Seq<u8>, i: int)
    requires
        0 <= i,
    ensures
        match scan_from(block, name, i) {
            Ok(Some(nid)) => exists|j: int|
                {
                    &&& i <= j < entry_count(block)
                    &&& #[trigger] entry_matches(block, j, name)
                    &&& nid == entry_nid(block, j) as u64
                    &&& forall|k: int| i <= k < j ==> !#[trigger] entry_matches(block, k, name)
                },
            Ok(None) => forall|k: int|
                i <= k < entry_count(block) ==> !#[trigger] entry_matches(block, k, name),
            Err(_) => true,
        },
    decreases entry_count(block) - i,
{
    if i < entry_count(block) && entry_file_type(block, i) <= MAX_FILE_TYPE && entry_in_bounds(
        block,
        i,
    ) {
        if entry_matches(block, i, name) {
            assert(forall|k: int| i <= k < i ==> !#[trigger] entry_matches(block, k, name));
        } else {
            lemma_scan_finds_first(block, name, i + 1);
            match scan_from(block, name, i + 1) {
                Ok(Some(nid)) => {
                    let j = choose|j: int|
                        {
                            &&& i + 1 <= j < entry_count(block)
                            &&& #[trigger] entry_matches(block, j, name)
                            &&& nid == entry_nid(block, j) as u64
                            &&& forall|k: int|
                                i + 1 <= k < j ==> !#[trigger] entry_matches(block, k, name)
                        };
                    assert(forall|k: int| i <= k < j ==> !#[trigger] entry_matches(block, k, name));
                },
                _ => {},
            }
        }
    }
}

} // verus!
