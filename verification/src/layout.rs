//! Where an inode's data lies: from a logical offset to the physical byte
//! range of the one block that covers it.
//!
//! Everything here is a function of the super block, the inode's fields and
//! the offset alone.
use vstd::prelude::*;
use vstd::arithmetic::power2::{pow2, lemma2_to64, lemma_pow2_unfold, lemma_pow2_strictly_increases};
use vstd::arithmetic::div_mod::{lemma_fundamental_div_mod, lemma_div_is_ordered_by_denominator};
use crate::error::{Error, ErrorKind, agrees, message_with_number};
use crate::types::{
    SuperBlock, Inode, Layout, ChunkBasedFormat, MAGIC_NUMBER, MIN_BLOCK_BITS, MAX_BLOCK_BITS,
    INODE_COMPACT_SIZE,
};

verus! {

/// What to read next in order to fetch a block.
#[derive(Debug, Clone, Copy, PartialEq, Eq, Structural)]
pub enum Fetch {
    /// The block itself: `len` bytes from `start` on.
    Range { start: u64, len: u64 },
    /// The four bytes at `at`, which hold the address of the offset's chunk.
    ChunkAddress { at: u64 },
}

/// A super block that an image may be opened with.
pub open spec fn valid_super_block(sb: SuperBlock) -> bool {
    &&& sb.magic == MAGIC_NUMBER
    &&& MIN_BLOCK_BITS <= sb.blk_size_bits <= MAX_BLOCK_BITS
}

/// Number of bytes of a block.
pub open spec fn block_size_of(sb: SuperBlock) -> int {
    pow2(sb.blk_size_bits as nat) as int
}

/// Byte offset at which block number `block` starts.
pub open spec fn block_start(sb: SuperBlock, block: int) -> int {
    block * block_size_of(sb)
}

/// Byte offset of the inode with node id `nid`.
pub open spec fn inode_offset(sb: SuperBlock, nid: u64) -> int {
    block_start(sb, sb.meta_blk_addr as int) + nid * INODE_COMPACT_SIZE
}

/// Byte offset of what follows an inode's fixed structure and its
/// extended-attribute area: the inline tail, or the table of chunk addresses.
pub open spec fn tail_start(sb: SuperBlock, inode: Inode) -> int {
    inode_offset(sb, inode.id()) + inode.size() + inode.xattr_size()
}

/// Number of units of `unit` bytes that `size` bytes take, the last one
/// possibly in part.
pub open spec fn units(size: int, unit: int) -> int {
    size / unit + if size % unit == 0 {
        0int
    } else {
        1int
    }
}

/// Number of blocks that an inode's data takes.
pub open spec fn block_count(sb: SuperBlock, inode: Inode) -> int {
    units(inode.data_size() as int, block_size_of(sb))
}

/// The range of the block that covers `offset`, for the two flat layouts.
/// With `inline`, the last block lies behind the inode and holds the bytes
/// that the full blocks leave over, which are none where the data ends on a
/// block boundary.
pub open spec fn spec_flat_range(sb: SuperBlock, inode: Inode, offset: u64, inline: bool) -> Result<
    (u64, u64),
    ErrorKind,
> {
    let bs = block_size_of(sb);
    let count = block_count(sb, inode);
    let index = offset as int / bs;
    if index >= count {
        Err(ErrorKind::OutOfRange(index as usize, count as usize))
    } else if inline && index == count - 1 {
        if tail_start(sb, inode) > u64::MAX {
            Err(ErrorKind::OutOfBounds)
        } else {
            Ok((tail_start(sb, inode) as u64, (inode.data_size() as int % bs) as u64))
        }
    } else {
        let start = block_start(sb, inode.raw_block_addr() as int) + index * bs;
        let left = inode.data_size() - index * bs;
        if start > u64::MAX {
            Err(ErrorKind::OutOfBounds)
        } else {
            Ok((start as u64, (if left < bs {
                left
            } else {
                bs
            }) as u64))
        }
    }
}

/// Number of bytes of a chunk of a chunk-based inode.
pub open spec fn chunk_size(sb: SuperBlock, inode: Inode) -> int {
    pow2(ChunkBasedFormat(inode.raw_block_addr()).chunk_size_bits() as nat) * block_size_of(sb)
}

/// Number of chunks that an inode's data takes.
pub open spec fn chunk_count(sb: SuperBlock, inode: Inode) -> int {
    units(inode.data_size() as int, chunk_size(sb, inode))
}

/// Where the address of the chunk that covers `offset` is stored.
pub open spec fn spec_chunk_address_at(sb: SuperBlock, inode: Inode, offset: u64) -> Result<
    u64,
    ErrorKind,
> {
    let format = ChunkBasedFormat(inode.raw_block_addr());
    let index = offset as int / chunk_size(sb, inode);
    let count = chunk_count(sb, inode);
    let at = tail_start(sb, inode) + 4 * index;
    if !format.is_valid() {
        Err(ErrorKind::CorruptedData)
    } else if format.is_indexes() {
        Err(ErrorKind::NotSupported)
    } else if index >= count {
        Err(ErrorKind::OutOfRange(index as usize, count as usize))
    } else if at > u64::MAX {
        Err(ErrorKind::OutOfBounds)
    } else {
        Ok(at as u64)
    }
}

/// The range of the block that covers `offset` in a chunk whose stored
/// address is `chunk_addr`. An address that is not positive marks a hole. A
/// block is full, except that every block of the last chunk has the length
/// that the data leaves over after its full blocks.
pub open spec fn spec_chunk_range(sb: SuperBlock, inode: Inode, offset: u64, chunk_addr: i32) -> Result<
    (u64, u64),
    ErrorKind,
> {
    let bs = block_size_of(sb);
    let index = offset as int / chunk_size(sb, inode);
    let within = (offset as int % chunk_size(sb, inode)) / bs;
    match spec_chunk_address_at(sb, inode, offset) {
        Err(k) => Err(k),
        Ok(_) => if chunk_addr <= 0 {
            Err(ErrorKind::CorruptedData)
        } else {
            Ok((block_start(sb, chunk_addr + within) as u64, (if index == chunk_count(sb, inode) - 1 {
                inode.data_size() as int % bs
            } else {
                bs
            }) as u64))
        },
    }
}

/// The first read that fetching the block at `offset` takes, by layout.
#[verifier::opaque]
pub open spec fn spec_locate(sb: SuperBlock, inode: Inode, offset: u64) -> Result<Fetch, ErrorKind> {
    match inode.spec_layout() {
        Err(k) => Err(k),
        Ok(Layout::FlatPlain) => match spec_flat_range(sb, inode, offset, false) {
            Err(k) => Err(k),
            Ok((start, len)) => Ok(Fetch::Range { start, len }),
        },
        Ok(Layout::FlatInline) => match spec_flat_range(sb, inode, offset, true) {
            Err(k) => Err(k),
            Ok((start, len)) => Ok(Fetch::Range { start, len }),
        },
        Ok(Layout::CompressedFull) => Err(ErrorKind::NotSupported),
        Ok(Layout::CompressedCompact) => Err(ErrorKind::NotSupported),
        Ok(Layout::ChunkBased) => match spec_chunk_address_at(sb, inode, offset) {
            Err(k) => Err(k),
            Ok(at) => Ok(Fetch::ChunkAddress { at }),
        },
    }
}

/// Two to the power of `bits`.
pub fn power_of_two(bits: u8) -> (v: u64)
    requires
        bits <= 31,
    ensures
        v == pow2(bits as nat),
        1 <= v <= 0x8000_0000,
{
    let mut v: u64 = 1;
    let mut i: u8 = 0;
    proof {
        lemma2_to64();
    }
    while i < bits
        invariant
            i <= bits <= 31,
            v == pow2(i as nat),
            1 <= v <= pow2(31),
            pow2(31) == 0x8000_0000,
        decreases bits - i,
    {
        proof {
            lemma_pow2_unfold((i + 1) as nat);
            if i + 1 < 31 {
                lemma_pow2_strictly_increases((i + 1) as nat, 31);
            }
        }
        v = v * 2;
        i += 1;
    }
    v
}

/// A valid super block's block size lies between 512 bytes and 16 MiB.
pub proof fn lemma_block_size_bounds(sb: SuperBlock)
    requires
        valid_super_block(sb),
    ensures
        512 <= block_size_of(sb) <= 0x100_0000,
{
    lemma2_to64();
    if sb.blk_size_bits > 9 {
        lemma_pow2_strictly_increases(9, sb.blk_size_bits as nat);
    }
    if sb.blk_size_bits < 24 {
        lemma_pow2_strictly_increases(sb.blk_size_bits as nat, 24);
    }
}

/// The block size of a valid super block.
pub fn block_size_for(sb: &SuperBlock) -> (bs: u64)
    requires
        valid_super_block(*sb),
    ensures
        bs == block_size_of(*sb),
        512 <= bs <= 0x100_0000,
{
    proof {
        lemma_block_size_bounds(*sb);
    }
    power_of_two(sb.blk_size_bits)
}

/// Byte offset at which block number `block` starts.
pub fn block_offset_in(sb: &SuperBlock, block: u32) -> (at: u64)
    requires
        valid_super_block(*sb),
    ensures
        at == block_start(*sb, block as int),
        at <= 0xFFFF_FFFF * 0x100_0000,
{
    let bs: u64 = block_size_for(sb);
    assert(block * bs <= 0xFFFF_FFFF * 0x100_0000) by (nonlinear_arith)
        requires
            block <= 0xFFFF_FFFF,
            0 <= bs <= 0x100_0000,
    ;
    (block as u64) * bs
}

/// Byte offset of what follows the inode, or nothing where that offset
/// exceeds 64 bits.
pub fn tail_offset(sb: &SuperBlock, inode: &Inode) -> (r: Option<u64>)
    requires
        valid_super_block(*sb),
    ensures
        r == (if tail_start(*sb, *inode) > u64::MAX {
            None
        } else {
            Some(tail_start(*sb, *inode) as u64)
        }),
{
    let base: u64 = block_offset_in(sb, sb.meta_blk_addr);
    let nid: u64 = inode.id();
    if nid > (u64::MAX - base) / 32 {
        return None;
    }
    let at: u64 = base + nid * 32;
    // The two sizes are at most 64 and 12 + 4 * 65534 bytes.
    at.checked_add(inode.size() + inode.xattr_size())
}

/// Every unit but the last is full: the units before the one with number
/// `index` end before the data does.
pub proof fn lemma_units_cover(size: int, unit: int, index: int)
    requires
        0 <= size,
        0 < unit,
        0 <= index < units(size, unit),
    ensures
        index * unit < size,
        index * unit + unit <= size || index == units(size, unit) - 1,
{
    lemma_fundamental_div_mod(size, unit);
    let q = size / unit;
    let m = size % unit;
    assert(index * unit < size && (index * unit + unit <= size || index == units(size, unit) - 1))
        by (nonlinear_arith)
        requires
            size == unit * q + m,
            0 <= m < unit,
            0 <= index,
            index < q + (if m == 0 { 0int } else { 1int }),
            units(size, unit) == q + (if m == 0 { 0int } else { 1int }),
    ;
}

/// Number of units of `unit` bytes that `size` bytes take.
pub fn count_units(size: u64, unit: u64) -> (n: u64)
    requires
        unit >= 2,
    ensures
        n == units(size as int, unit as int),
{
    assert(size as int / unit as int <= size / 2) by (nonlinear_arith)
        requires
            unit >= 2,
            size >= 0,
    ;
    if size % unit == 0 {
        size / unit
    } else {
        size / unit + 1
    }
}

/// The range of the block that covers `offset` under a flat layout.
pub fn flat_range(sb: &SuperBlock, inode: &Inode, offset: u64, inline: bool) -> (r: Result<
    (u64, u64),
    Error,
>)
    requires
        valid_super_block(*sb),
    ensures
        agrees(r, spec_flat_range(*sb, *inode, offset, inline)),
        r matches Ok((_, len)) ==> len <= block_size_of(*sb),
{
    let bs: u64 = block_size_for(sb);
    let size: u64 = inode.data_size();
    let count: u64 = count_units(size, bs);
    let index: u64 = offset / bs;
    if index >= count {
        return Err(Error::OutOfRange(index as usize, count as usize));
    }
    if inline && index == count - 1 {
        return match tail_offset(sb, inode) {
            Some(start) => Ok((start, size % bs)),
            None => Err(Error::OutOfBounds("inode tail offset overflow".to_owned())),
        };
    }
    proof {
        lemma_units_cover(size as int, bs as int, index as int);
    }
    let skipped: u64 = index * bs;
    let left: u64 = size - skipped;
    let len: u64 = if left < bs {
        left
    } else {
        bs
    };
    match block_offset_in(sb, inode.raw_block_addr()).checked_add(skipped) {
        Some(start) => Ok((start, len)),
        None => Err(Error::OutOfBounds("inode block offset overflow".to_owned())),
    }
}

/// Number of bytes of a chunk of a chunk-based inode.
pub fn chunk_size_for(sb: &SuperBlock, inode: &Inode) -> (cs: u64)
    requires
        valid_super_block(*sb),
    ensures
        cs == chunk_size(*sb, *inode),
        cs == pow2(ChunkBasedFormat(inode.raw_block_addr()).chunk_size_bits() as nat)
            * block_size_of(*sb),
        512 <= cs <= 0x8000_0000 * 0x100_0000,
{
    let bs: u64 = block_size_for(sb);
    let per_chunk: u64 = power_of_two(ChunkBasedFormat::new(inode.raw_block_addr()).chunk_size_bits());
    assert(512 <= per_chunk * bs <= 0x8000_0000 * 0x100_0000) by (nonlinear_arith)
        requires
            1 <= per_chunk <= 0x8000_0000,
            512 <= bs <= 0x100_0000,
    ;
    per_chunk * bs
}

/// Where the address of the chunk that covers `offset` is stored.
pub fn chunk_address_at(sb: &SuperBlock, inode: &Inode, offset: u64) -> (r: Result<u64, Error>)
    requires
        valid_super_block(*sb),
    ensures
        agrees(r, spec_chunk_address_at(*sb, *inode, offset)),
{
    let format = ChunkBasedFormat::new(inode.raw_block_addr());
    if !format.is_valid() {
        return Err(
            Error::CorruptedData(
                message_with_number("invalid chunk based format ", inode.raw_block_addr() as u64, ""),
            ),
        );
    }
    if format.is_indexes() {
        return Err(Error::NotSupported("chunk based format with indexes".to_owned()));
    }
    let cs: u64 = chunk_size_for(sb, inode);
    let count: u64 = count_units(inode.data_size(), cs);
    let index: u64 = offset / cs;
    if index >= count {
        return Err(Error::OutOfRange(index as usize, count as usize));
    }
    proof {
        lemma_div_is_ordered_by_denominator(offset as int, 512, cs as int);
    }
    let tail: u64 = match tail_offset(sb, inode) {
        Some(tail) => tail,
        None => {
            return Err(Error::OutOfBounds("chunk addr offset overflow".to_owned()));
        },
    };
    match tail.checked_add(4 * index) {
        Some(at) => Ok(at),
        None => Err(Error::OutOfBounds("chunk addr offset overflow".to_owned())),
    }
}

/// The range of the block that covers `offset` in a chunk whose stored
/// address is `chunk_addr`.
pub fn chunk_range(sb: &SuperBlock, inode: &Inode, offset: u64, chunk_addr: i32) -> (r: Result<
    (u64, u64),
    Error,
>)
    requires
        valid_super_block(*sb),
    ensures
        agrees(r, spec_chunk_range(*sb, *inode, offset, chunk_addr)),
        r matches Ok((_, len)) ==> len <= block_size_of(*sb),
{
    match chunk_address_at(sb, inode, offset) {
        Err(e) => {
            return Err(e);
        },
        Ok(_) => {},
    }
    if chunk_addr <= 0 {
        return Err(Error::CorruptedData("sparse chunks are not supported".to_owned()));
    }
    let bs: u64 = block_size_for(sb);
    let cs: u64 = chunk_size_for(sb, inode);
    let size: u64 = inode.data_size();
    let count: u64 = count_units(size, cs);
    let index: u64 = offset / cs;
    let within: u64 = (offset % cs) / bs;
    let ghost per_chunk = pow2(ChunkBasedFormat(inode.raw_block_addr()).chunk_size_bits() as nat) as int;
    proof {
        lemma2_to64();
        if ChunkBasedFormat(inode.raw_block_addr()).chunk_size_bits() < 31 {
            lemma_pow2_strictly_increases(
                ChunkBasedFormat(inode.raw_block_addr()).chunk_size_bits() as nat,
                31,
            );
        }
        assert(within < per_chunk) by (nonlinear_arith)
            requires
                within == (offset % cs) as int / bs as int,
                0 <= (offset % cs) < cs,
                cs == per_chunk * bs,
                bs > 0,
        ;
    }
    let block: u64 = chunk_addr as u64 + within;
    let len: u64 = if index == count - 1 {
        size % bs
    } else {
        bs
    };
    Ok((block_offset_in(sb, block as u32), len))
}

/// The first read that fetching the block at `offset` takes.
pub fn locate(sb: &SuperBlock, inode: &Inode, offset: u64) -> (r: Result<Fetch, Error>)
    requires
        valid_super_block(*sb),
    ensures
        agrees(r, spec_locate(*sb, *inode, offset)),
        r matches Ok(Fetch::Range { len, .. }) ==> len <= block_size_of(*sb),
{
    proof {
        reveal(spec_locate);
    }
    let layout = match inode.layout() {
        Ok(layout) => layout,
        Err(e) => {
            return Err(e);
        },
    };
    match layout {
        Layout::FlatPlain => match flat_range(sb, inode, offset, false) {
            Ok((start, len)) => Ok(Fetch::Range { start, len }),
            Err(e) => Err(e),
        },
        Layout::FlatInline => match flat_range(sb, inode, offset, true) {
            Ok((start, len)) => Ok(Fetch::Range { start, len }),
            Err(e) => Err(e),
        },
        Layout::CompressedFull | Layout::CompressedCompact => Err(
            Error::NotSupported("compressed compact layout".to_owned()),
        ),
        Layout::ChunkBased => match chunk_address_at(sb, inode, offset) {
            Ok(at) => Ok(Fetch::ChunkAddress { at }),
            Err(e) => Err(e),
        },
    }
}

} // verus!
