//! The fixed on-disk structures of an image, decoded into plain fields.
use vstd::prelude::*;
use crate::error::{Error, ErrorKind, agrees};

verus! {

/// Byte offset of the super block within an image.
pub const SUPER_BLOCK_OFFSET: usize = 1024;

/// Number of bytes the super block occupies.
pub const SUPER_BLOCK_SIZE: usize = 128;

/// The value every valid super block starts with.
pub const MAGIC_NUMBER: u32 = 0xE0F5_E1E2;

/// Number of bytes of a compact inode, and the unit node ids count in.
pub const INODE_COMPACT_SIZE: usize = 32;

/// Number of bytes of an extended inode.
pub const INODE_EXTENDED_SIZE: usize = 64;

/// Smallest block-size exponent an image may declare.
pub const MIN_BLOCK_BITS: u8 = 9;

/// Largest block-size exponent an image may declare.
pub const MAX_BLOCK_BITS: u8 = 24;

/// The little-endian number held in the two bytes of `s` from `at` on.
pub open spec fn le_u16(s: Seq<u8>, at: int) -> int {
    s[at] as int + 0x100 * (s[at + 1] as int)
}

/// The little-endian number held in the four bytes of `s` from `at` on.
pub open spec fn le_u32(s: Seq<u8>, at: int) -> int {
    le_u16(s, at) + 0x1_0000 * le_u16(s, at + 2)
}

/// The little-endian number held in the eight bytes of `s` from `at` on.
pub open spec fn le_u64(s: Seq<u8>, at: int) -> int {
    le_u32(s, at) + 0x1_0000_0000 * le_u32(s, at + 4)
}

/// The four bytes of `s` from `at` on, read as a little-endian two's
/// complement number.
pub open spec fn le_i32(s: Seq<u8>, at: int) -> int {
    if le_u32(s, at) >= 0x8000_0000 {
        le_u32(s, at) - 0x1_0000_0000
    } else {
        le_u32(s, at)
    }
}

/// Reads a little-endian `u16` at `at`.
pub fn read_le_u16(buf: &[u8], at: usize) -> (v: u16)
    requires
        at + 2 <= buf@.len(),
    ensures
        v == le_u16(buf@, at as int),
{
    let lo: u16 = buf[at] as u16;
    let hi: u16 = buf[at + 1] as u16;
    lo + 0x100 * hi
}

/// Reads a little-endian `u32` at `at`.
pub fn read_le_u32(buf: &[u8], at: usize) -> (v: u32)
    requires
        at + 4 <= buf@.len(),
    ensures
        v == le_u32(buf@, at as int),
{
    // The buffer's length fits a `usize`, and so do the offsets within it.
    let _len: usize = buf.len();
    let lo: u32 = read_le_u16(buf, at) as u32;
    let hi: u32 = read_le_u16(buf, at + 2) as u32;
    lo + 0x1_0000 * hi
}

/// Reads a little-endian `u64` at `at`.
pub fn read_le_u64(buf: &[u8], at: usize) -> (v: u64)
    requires
        at + 8 <= buf@.len(),
    ensures
        v == le_u64(buf@, at as int),
{
    // The buffer's length fits a `usize`, and so do the offsets within it.
    let _len: usize = buf.len();
    let lo: u64 = read_le_u32(buf, at) as u64;
    let hi: u64 = read_le_u32(buf, at + 4) as u64;
    lo + 0x1_0000_0000 * hi
}

/// Reads a little-endian `i32` at `at`.
pub fn read_le_i32(buf: &[u8], at: usize) -> (v: i32)
    requires
        at + 4 <= buf@.len(),
    ensures
        v == le_i32(buf@, at as int),
{
    let raw: u32 = read_le_u32(buf, at);
    if raw >= 0x8000_0000 {
        let low: u32 = raw - 0x8000_0000;
        (low as i32) - 0x4000_0000 - 0x4000_0000
    } else {
        raw as i32
    }
}

/// The decoded super block: the fields the engine reads.
#[derive(Debug, Clone, Copy, PartialEq, Eq, Structural)]
pub struct SuperBlock {
    pub magic: u32,
    pub blk_size_bits: u8,
    pub root_nid: u16,
    pub meta_blk_addr: u32,
}

impl SuperBlock {
    /// The super block that the first 128 bytes of `s` encode.
    pub open spec fn decode(s: Seq<u8>) -> SuperBlock {
        SuperBlock {
            magic: le_u32(s, 0) as u32,
            blk_size_bits: s[12],
            root_nid: le_u16(s, 14) as u16,
            meta_blk_addr: le_u32(s, 40) as u32,
        }
    }

    /// Number of bytes of the structure on disk.
    pub fn size() -> (n: usize)
        ensures
            n == SUPER_BLOCK_SIZE,
    {
        SUPER_BLOCK_SIZE
    }

    /// Decodes a super block; a buffer shorter than one is out of bounds.
    pub fn read_from(buf: &[u8]) -> (r: Result<SuperBlock, Error>)
        ensures
            agrees(
                r,
                if buf@.len() >= SUPER_BLOCK_SIZE {
                    Ok(SuperBlock::decode(buf@))
                } else {
                    Err(ErrorKind::OutOfBounds)
                },
            ),
    {
        if buf.len() < SUPER_BLOCK_SIZE {
            return Err(Error::OutOfBounds("super block is truncated".to_owned()));
        }
        Ok(
            SuperBlock {
                magic: read_le_u32(buf, 0),
                blk_size_bits: buf[12],
                root_nid: read_le_u16(buf, 14),
                meta_blk_addr: read_le_u32(buf, 40),
            },
        )
    }
}

/// How an inode's data is laid out in the image.
#[derive(Debug, Clone, Copy, PartialEq, Eq, Structural)]
pub enum Layout {
    FlatPlain,
    CompressedFull,
    FlatInline,
    CompressedCompact,
    ChunkBased,
}

/// A compact inode: 32 bytes on disk.
#[derive(Debug, Clone, Copy, PartialEq, Eq, Structural)]
pub struct InodeCompact {
    pub format: u16,
    pub xattr_count: u16,
    pub mode: u16,
    pub size: u32,
    pub raw_block_addr: u32,
}

/// An extended inode: 64 bytes on disk.
#[derive(Debug, Clone, Copy, PartialEq, Eq, Structural)]
pub struct InodeExtended {
    pub format: u16,
    pub xattr_count: u16,
    pub mode: u16,
    pub size: u64,
    pub raw_block_addr: u32,
}

impl InodeCompact {
    /// The compact inode that the first 32 bytes of `s` encode.
    pub open spec fn decode(s: Seq<u8>) -> InodeCompact {
        InodeCompact {
            format: le_u16(s, 0) as u16,
            xattr_count: le_u16(s, 2) as u16,
            mode: le_u16(s, 4) as u16,
            size: le_u32(s, 8) as u32,
            raw_block_addr: le_u32(s, 16) as u32,
        }
    }

    /// Number of bytes of the structure on disk.
    pub fn size() -> (n: usize)
        ensures
            n == INODE_COMPACT_SIZE,
    {
        INODE_COMPACT_SIZE
    }

    /// Decodes a compact inode; a buffer shorter than one is out of bounds.
    pub fn read_from(buf: &[u8]) -> (r: Result<InodeCompact, Error>)
        ensures
            agrees(
                r,
                if buf@.len() >= INODE_COMPACT_SIZE {
                    Ok(InodeCompact::decode(buf@))
                } else {
                    Err(ErrorKind::OutOfBounds)
                },
            ),
    {
        if buf.len() < INODE_COMPACT_SIZE {
            return Err(Error::OutOfBounds("compact inode is truncated".to_owned()));
        }
        Ok(
            InodeCompact {
                format: read_le_u16(buf, 0),
                xattr_count: read_le_u16(buf, 2),
                mode: read_le_u16(buf, 4),
                size: read_le_u32(buf, 8),
                raw_block_addr: read_le_u32(buf, 16),
            },
        )
    }
}

impl InodeExtended {
    /// The extended inode that the first 64 bytes of `s` encode.
    pub open spec fn decode(s: Seq<u8>) -> InodeExtended {
        InodeExtended {
            format: le_u16(s, 0) as u16,
            xattr_count: le_u16(s, 2) as u16,
            mode: le_u16(s, 4) as u16,
            size: le_u64(s, 8) as u64,
            raw_block_addr: le_u32(s, 16) as u32,
        }
    }

    /// Number of bytes of the structure on disk.
    pub fn size() -> (n: usize)
        ensures
            n == INODE_EXTENDED_SIZE,
    {
        INODE_EXTENDED_SIZE
    }

    /// Decodes an extended inode; a buffer shorter than one is out of bounds.
    pub fn read_from(buf: &[u8]) -> (r: Result<InodeExtended, Error>)
        ensures
            agrees(
                r,
                if buf@.len() >= INODE_EXTENDED_SIZE {
                    Ok(InodeExtended::decode(buf@))
                } else {
                    Err(ErrorKind::OutOfBounds)
                },
            ),
    {
        if buf.len() < INODE_EXTENDED_SIZE {
            return Err(Error::OutOfBounds("extended inode is truncated".to_owned()));
        }
        Ok(
            InodeExtended {
                format: read_le_u16(buf, 0),
                xattr_count: read_le_u16(buf, 2),
                mode: read_le_u16(buf, 4),
                size: read_le_u64(buf, 8),
                raw_block_addr: read_le_u32(buf, 16),
            },
        )
    }
}

/// A decoded inode together with the node id it was resolved from.
#[derive(Debug, Clone, Copy, PartialEq, Eq)]
pub enum Inode {
    Compact((u64, InodeCompact)),
    Extended((u64, InodeExtended)),
}

impl Inode {
    /// Whether a format field announces the compact encoding: its lowest bit
    /// is clear.
    pub open spec fn spec_is_compact_format(format: u16) -> bool {
        format % 2 == 0
    }

    /// Whether a format field announces the compact encoding.
    #[verifier::when_used_as_spec(spec_is_compact_format)]
    pub fn is_compact_format(format: u16) -> (b: bool)
        ensures
            b == Self::spec_is_compact_format(format),
    {
        format % 2 == 0
    }

    /// The node id the inode was resolved from.
    pub open spec fn spec_id(&self) -> u64 {
        match *self {
            Inode::Compact((nid, _)) => nid,
            Inode::Extended((nid, _)) => nid,
        }
    }

    /// The node id the inode was resolved from.
    #[verifier::when_used_as_spec(spec_id)]
    pub fn id(&self) -> (v: u64)
        ensures
            v == self.spec_id(),
    {
        match self {
            Inode::Compact((nid, _)) => *nid,
            Inode::Extended((nid, _)) => *nid,
        }
    }

    /// The format field: encoding and layout tag.
    pub open spec fn spec_format(&self) -> u16 {
        match *self {
            Inode::Compact((_, n)) => n.format,
            Inode::Extended((_, n)) => n.format,
        }
    }

    /// The format field: encoding and layout tag.
    #[verifier::when_used_as_spec(spec_format)]
    pub fn format(&self) -> (v: u16)
        ensures
            v == self.spec_format(),
    {
        match self {
            Inode::Compact((_, n)) => n.format,
            Inode::Extended((_, n)) => n.format,
        }
    }

    /// Logical length of the inode's data, in bytes.
    pub open spec fn spec_data_size(&self) -> u64 {
        match *self {
            Inode::Compact((_, n)) => n.size as u64,
            Inode::Extended((_, n)) => n.size,
        }
    }

    /// Logical length of the inode's data, in bytes.
    #[verifier::when_used_as_spec(spec_data_size)]
    pub fn data_size(&self) -> (v: u64)
        ensures
            v == self.spec_data_size(),
    {
        match self {
            Inode::Compact((_, n)) => n.size as u64,
            Inode::Extended((_, n)) => n.size,
        }
    }

    /// Number of bytes of the inode's fixed structure.
    pub open spec fn spec_size(&self) -> u64 {
        match *self {
            Inode::Compact(_) => INODE_COMPACT_SIZE as u64,
            Inode::Extended(_) => INODE_EXTENDED_SIZE as u64,
        }
    }

    /// Number of bytes of the inode's fixed structure.
    #[verifier::when_used_as_spec(spec_size)]
    pub fn size(&self) -> (v: u64)
        ensures
            v == self.spec_size(),
    {
        match self {
            Inode::Compact(_) => INODE_COMPACT_SIZE as u64,
            Inode::Extended(_) => INODE_EXTENDED_SIZE as u64,
        }
    }

    /// The count of the extended-attribute area, as stored.
    pub open spec fn spec_xattr_count(&self) -> u16 {
        match *self {
            Inode::Compact((_, n)) => n.xattr_count,
            Inode::Extended((_, n)) => n.xattr_count,
        }
    }

    /// Number of bytes of the extended-attribute area that follows the fixed
    /// structure: none for a count of zero, else a 12-byte header and four
    /// bytes for each count above one.
    pub open spec fn spec_xattr_size(&self) -> u64 {
        if self.spec_xattr_count() == 0 {
            0
        } else {
            (12 + 4 * (self.spec_xattr_count() - 1)) as u64
        }
    }

    /// Number of bytes of the extended-attribute area.
    #[verifier::when_used_as_spec(spec_xattr_size)]
    pub fn xattr_size(&self) -> (v: u64)
        ensures
            v == self.spec_xattr_size(),
    {
        let count: u16 = match self {
            Inode::Compact((_, n)) => n.xattr_count,
            Inode::Extended((_, n)) => n.xattr_count,
        };
        if count == 0 {
            0
        } else {
            12 + 4 * ((count - 1) as u64)
        }
    }

    /// The block-address field, whose meaning the layout decides.
    pub open spec fn spec_raw_block_addr(&self) -> u32 {
        match *self {
            Inode::Compact((_, n)) => n.raw_block_addr,
            Inode::Extended((_, n)) => n.raw_block_addr,
        }
    }

    /// The block-address field, whose meaning the layout decides.
    #[verifier::when_used_as_spec(spec_raw_block_addr)]
    pub fn raw_block_addr(&self) -> (v: u32)
        ensures
            v == self.spec_raw_block_addr(),
    {
        match self {
            Inode::Compact((_, n)) => n.raw_block_addr,
            Inode::Extended((_, n)) => n.raw_block_addr,
        }
    }

    /// The mode field: file type and permissions.
    pub open spec fn spec_mode(&self) -> u16 {
        match *self {
            Inode::Compact((_, n)) => n.mode,
            Inode::Extended((_, n)) => n.mode,
        }
    }

    /// The file type is the top four bits of the mode; 8 is a regular file.
    pub open spec fn spec_is_file(&self) -> bool {
        self.spec_mode() / 0x1000 == 8
    }

    /// Whether the inode is a regular file.
    #[verifier::when_used_as_spec(spec_is_file)]
    pub fn is_file(&self) -> (b: bool)
        ensures
            b == self.spec_is_file(),
    {
        let mode: u16 = match self {
            Inode::Compact((_, n)) => n.mode,
            Inode::Extended((_, n)) => n.mode,
        };
        mode / 0x1000 == 8
    }

    /// The file type is the top four bits of the mode; 4 is a directory.
    pub open spec fn spec_is_dir(&self) -> bool {
        self.spec_mode() / 0x1000 == 4
    }

    /// Whether the inode is a directory.
    #[verifier::when_used_as_spec(spec_is_dir)]
    pub fn is_dir(&self) -> (b: bool)
        ensures
            b == self.spec_is_dir(),
    {
        let mode: u16 = match self {
            Inode::Compact((_, n)) => n.mode,
            Inode::Extended((_, n)) => n.mode,
        };
        mode / 0x1000 == 4
    }

    /// The layout tag: bits 1 to 3 of the format field.
    pub open spec fn layout_tag(&self) -> u8 {
        ((self.spec_format() / 2) % 8) as u8
    }

    /// The layout that the tag names; tags above 4 name none.
    pub open spec fn spec_layout(&self) -> Result<Layout, ErrorKind> {
        let tag = self.layout_tag();
        if tag == 0 {
            Ok(Layout::FlatPlain)
        } else if tag == 1 {
            Ok(Layout::CompressedFull)
        } else if tag == 2 {
            Ok(Layout::FlatInline)
        } else if tag == 3 {
            Ok(Layout::CompressedCompact)
        } else if tag == 4 {
            Ok(Layout::ChunkBased)
        } else {
            Err(ErrorKind::InvalidLayout(tag))
        }
    }

    /// The layout of the inode's data; an unknown tag is refused by its value.
    pub fn layout(&self) -> (r: Result<Layout, Error>)
        ensures
            agrees(r, self.spec_layout()),
    {
        let tag: u8 = ((self.format() / 2) % 8) as u8;
        if tag == 0 {
            Ok(Layout::FlatPlain)
        } else if tag == 1 {
            Ok(Layout::CompressedFull)
        } else if tag == 2 {
            Ok(Layout::FlatInline)
        } else if tag == 3 {
            Ok(Layout::CompressedCompact)
        } else if tag == 4 {
            Ok(Layout::ChunkBased)
        } else {
            Err(Error::InvalidLayout(tag))
        }
    }
}

/// The block-address field of a chunk-based inode, read as a chunk format:
/// bits 0 to 4 hold the chunk-size exponent, bit 5 announces an index table,
/// and every higher bit must be clear.
#[derive(Debug, Clone, Copy, PartialEq, Eq, Structural)]
pub struct ChunkBasedFormat(pub u32);

impl ChunkBasedFormat {
    /// Reads a block-address field as a chunk format.
    pub fn new(raw: u32) -> (f: ChunkBasedFormat)
        ensures
            f.0 == raw,
    {
        ChunkBasedFormat(raw)
    }

    /// No bit above the index flag is set.
    pub open spec fn spec_is_valid(&self) -> bool {
        self.0 < 64
    }

    /// Whether no bit above the index flag is set.
    #[verifier::when_used_as_spec(spec_is_valid)]
    pub fn is_valid(&self) -> (b: bool)
        ensures
            b == self.spec_is_valid(),
    {
        self.0 < 64
    }

    /// The index flag is set.
    pub open spec fn spec_is_indexes(&self) -> bool {
        (self.0 / 32) % 2 == 1
    }

    /// Whether the format announces a table of chunk indexes.
    #[verifier::when_used_as_spec(spec_is_indexes)]
    pub fn is_indexes(&self) -> (b: bool)
        ensures
            b == self.spec_is_indexes(),
    {
        (self.0 / 32) % 2 == 1
    }

    /// The exponent of the number of blocks in a chunk.
    pub open spec fn spec_chunk_size_bits(&self) -> u8 {
        (self.0 % 32) as u8
    }

    /// The exponent of the number of blocks in a chunk.
    #[verifier::when_used_as_spec(spec_chunk_size_bits)]
    pub fn chunk_size_bits(&self) -> (b: u8)
        ensures
            b == self.spec_chunk_size_bits(),
    {
        (self.0 % 32) as u8
    }
}

} // verus!
