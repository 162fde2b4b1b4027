//! The engine: an opened image, and reading inodes, blocks, byte ranges and
//! paths out of it.
use std::sync::Arc;
use vstd::prelude::*;
use vstd::slice::slice_subrange;
use vstd::string::StringSliceAdditionalSpecFns;
use crate::error::{
    Error, ErrorKind, agrees, message_with_number, message_with_hex, decimal_text, hex_text,
};
use crate::image::{ReadAt, read_exact_at, spec_read_exact, follows, follows_bytes};
use crate::types::{
    SuperBlock, Inode, InodeCompact, InodeExtended, MAGIC_NUMBER, MIN_BLOCK_BITS, MAX_BLOCK_BITS,
    SUPER_BLOCK_OFFSET, SUPER_BLOCK_SIZE, INODE_COMPACT_SIZE, INODE_EXTENDED_SIZE, le_u16, le_i32,
    read_le_u16, read_le_i32,
};
use crate::layout::{
    Fetch, valid_super_block, block_size_of, block_start, inode_offset, block_count, spec_locate,
    spec_chunk_range, block_size_for, block_offset_in, count_units, locate, chunk_range,
    lemma_units_cover, lemma_block_size_bounds,
};
use crate::dirent::{spec_find, find_nodeid_by_name};
use crate::file::File;

verus! {

/// What an opened image is to a contract: the bytes of its store, the size it
/// was declared with, and its super block.
pub struct Image {
    pub contents: Seq<u8>,
    pub declared_size: u64,
    pub super_block: SuperBlock,
}

/// The byte that separates the components of a path.
pub const SEPARATOR: u8 = 47;

/// The byte of which the component that names a directory itself is made.
pub const DOT: u8 = 46;

/// What the super block found at its fixed offset makes of an image: the
/// super block, if its magic number and block-size exponent are in order.
pub open spec fn spec_check_super_block(sb: SuperBlock) -> Result<SuperBlock, ErrorKind> {
    if sb.magic != MAGIC_NUMBER {
        Err(ErrorKind::InvalidSuperblock)
    } else if !(MIN_BLOCK_BITS <= sb.blk_size_bits <= MAX_BLOCK_BITS) {
        Err(ErrorKind::InvalidSuperblock)
    } else {
        Ok(sb)
    }
}

/// The super block that an image of the given bytes and declared size opens
/// with.
pub open spec fn spec_open(contents: Seq<u8>, declared_size: u64) -> Result<SuperBlock, ErrorKind> {
    match spec_read_exact(
        contents,
        declared_size,
        SUPER_BLOCK_OFFSET as u64,
        SUPER_BLOCK_SIZE as nat,
    ) {
        Err(k) => Err(k),
        Ok(bytes) => spec_check_super_block(SuperBlock::decode(bytes)),
    }
}

/// Number of bytes of a component that starts at `pos`: up to the next
/// separator or the end of the path.
pub open spec fn name_len(path: Seq<u8>, pos: int) -> nat
    decreases path.len() - pos,
{
    if pos < 0 || pos >= path.len() || path[pos] == SEPARATOR {
        0
    } else {
        1 + name_len(path, pos + 1)
    }
}

/// A component that names no entry: the empty one and the single dot.
pub open spec fn is_skipped(name: Seq<u8>) -> bool {
    name.len() == 0 || (name.len() == 1 && name[0] == DOT)
}

/// Number of bytes that one step of a ranged read copies: what the caller
/// still wants, capped by what the block holds from the offset's place in it
/// on, and by what the data holds from the offset on.
pub open spec fn step_len(block_len: int, in_block: int, want: int, left: int) -> int {
    let available = if block_len > in_block {
        block_len - in_block
    } else {
        0
    };
    let capped = if want < available {
        want
    } else {
        available
    };
    if capped < left {
        capped
    } else {
        left
    }
}

impl Image {
    /// The bytes of a physical range.
    pub open spec fn read(self, offset: u64, len: nat) -> Result<Seq<u8>, ErrorKind> {
        spec_read_exact(self.contents, self.declared_size, offset, len)
    }

    /// The inode with node id `nid`: the two bytes at its offset tell its
    /// encoding, and the structure of that encoding is decoded from there.
    pub open spec fn inode(self, nid: u64) -> Result<Inode, ErrorKind> {
        let at = inode_offset(self.super_block, nid);
        if at > u64::MAX {
            Err(ErrorKind::OutOfBounds)
        } else {
            match self.read(at as u64, 2) {
                Err(k) => Err(k),
                Ok(head) => if Inode::is_compact_format(le_u16(head, 0) as u16) {
                    match self.read(at as u64, INODE_COMPACT_SIZE as nat) {
                        Err(k) => Err(k),
                        Ok(bytes) => Ok(Inode::Compact((nid, InodeCompact::decode(bytes)))),
                    }
                } else {
                    match self.read(at as u64, INODE_EXTENDED_SIZE as nat) {
                        Err(k) => Err(k),
                        Ok(bytes) => Ok(Inode::Extended((nid, InodeExtended::decode(bytes)))),
                    }
                },
            }
        }
    }

    /// The bytes of the block of `inode` that covers `offset`.
    #[verifier::opaque]
    pub open spec fn block(self, inode: Inode, offset: u64) -> Result<Seq<u8>, ErrorKind> {
        match spec_locate(self.super_block, inode, offset) {
            Err(k) => Err(k),
            Ok(Fetch::Range { start, len }) => self.read(start, len as nat),
            Ok(Fetch::ChunkAddress { at }) => match self.read(at, 4) {
                Err(k) => Err(k),
                Ok(raw) => match spec_chunk_range(
                    self.super_block,
                    inode,
                    offset,
                    le_i32(raw, 0) as i32,
                ) {
                    Err(k) => Err(k),
                    Ok((start, len)) => self.read(start, len as nat),
                },
            },
        }
    }

    /// The bytes that a read of `want` bytes at `offset` yields: block after
    /// block, until enough is read, the data ends, or a block has nothing to
    /// give at the offset.
    #[verifier::opaque]
    pub open spec fn range(self, inode: Inode, offset: int, want: int) -> Result<Seq<u8>, ErrorKind>
        decreases want,
    {
        if want <= 0 || offset < 0 || offset >= inode.data_size() {
            Ok(Seq::empty())
        } else {
            match self.block(inode, offset as u64) {
                Err(k) => Err(k),
                Ok(block) => {
                    let in_block = offset % block_size_of(self.super_block);
                    let n = step_len(
                        block.len() as int,
                        in_block,
                        want,
                        inode.data_size() - offset,
                    );
                    if n <= 0 {
                        Ok(Seq::empty())
                    } else {
                        match self.range(inode, offset + n, want - n) {
                            Err(k) => Err(k),
                            Ok(rest) => Ok(block.subrange(in_block, in_block + n) + rest),
                        }
                    }
                },
            }
        }
    }

    /// The node id that directory `dir` gives for `name` in its blocks from
    /// number `i` on, the first block that knows the name deciding.
    pub open spec fn lookup(self, dir: Inode, name: Seq<u8>, i: int) -> Result<Option<u64>, ErrorKind>
        decreases block_count(self.super_block, dir) - i,
    {
        if i < 0 || i >= block_count(self.super_block, dir) {
            Ok(None)
        } else {
            match self.block(dir, (i * block_size_of(self.super_block)) as u64) {
                Err(k) => Err(k),
                Ok(block) => match spec_find(name, block) {
                    Err(k) => Err(k),
                    Ok(Some(nid)) => Ok(Some(nid)),
                    Ok(None) => self.lookup(dir, name, i + 1),
                },
            }
        }
    }

    /// The node id that the components of `path` from `pos` on lead to from
    /// the directory `nid`; none where a directory lacks a component.
    pub open spec fn walk(self, nid: u64, path: Seq<u8>, pos: int) -> Result<Option<u64>, ErrorKind>
        decreases path.len() - pos,
    {
        if pos < 0 || pos >= path.len() {
            Ok(Some(nid))
        } else {
            let end = pos + name_len(path, pos);
            let name = path.subrange(pos, end);
            let next = if end < path.len() {
                end + 1
            } else {
                path.len() as int
            };
            if is_skipped(name) {
                self.walk(nid, path, next)
            } else {
                match self.inode(nid) {
                    Err(k) => Err(k),
                    Ok(dir) => match self.lookup(dir, name, 0) {
                        Err(k) => Err(k),
                        Ok(None) => Ok(None),
                        Ok(Some(child)) => self.walk(child, path, next),
                    },
                }
            }
        }
    }

    /// The inode that `path` names, walking from the root directory.
    pub open spec fn resolve(self, path: Seq<u8>) -> Result<Option<Inode>, ErrorKind> {
        match self.walk(self.super_block.root_nid as u64, path, 0) {
            Err(k) => Err(k),
            Ok(None) => Ok(None),
            Ok(Some(nid)) => match self.inode(nid) {
                Err(k) => Err(k),
                Ok(inode) => Ok(Some(inode)),
            },
        }
    }

    /// The inode of the regular file that `path` names.
    pub open spec fn resolve_file(self, path: Seq<u8>) -> Result<Inode, ErrorKind> {
        match self.resolve(path) {
            Err(k) => Err(k),
            Ok(None) => Err(ErrorKind::PathNotFound),
            Ok(Some(inode)) => if inode.is_file() {
                Ok(inode)
            } else {
                Err(ErrorKind::NotAFile)
            },
        }
    }
}

/// `Arc::clone`: another handle to the same value.
#[verifier::external_body]
fn share<R>(handle: &Arc<R>) -> (r: Arc<R>)
    ensures
        r == *handle,
{
    Arc::clone(handle)
}

/// Checks the magic number and the block-size exponent of a decoded super
/// block.
pub fn check_super_block(sb: SuperBlock) -> (r: Result<SuperBlock, Error>)
    ensures
        agrees(r, spec_check_super_block(sb)),
        r is Ok ==> valid_super_block(sb),
        r matches Err(Error::InvalidSuperblock(msg)) ==> msg@ == (if sb.magic != MAGIC_NUMBER {
            "invalid magic number: "@ + "0x"@ + hex_text(sb.magic)
        } else {
            "invalid block size bits: "@ + decimal_text(sb.blk_size_bits as u64)
        }),
{
    if sb.magic != MAGIC_NUMBER {
        return Err(Error::InvalidSuperblock(message_with_hex("invalid magic number: ", sb.magic)));
    }
    if sb.blk_size_bits < MIN_BLOCK_BITS || sb.blk_size_bits > MAX_BLOCK_BITS {
        let msg = message_with_number("invalid block size bits: ", sb.blk_size_bits as u64, "");
        proof {
            reveal_strlit("");
            assert(msg@ =~= "invalid block size bits: "@ + decimal_text(sb.blk_size_bits as u64));
        }
        return Err(Error::InvalidSuperblock(msg));
    }
    Ok(sb)
}

/// A read that wants nothing, or that starts at or behind the end of the
/// data, yields no byte and no error.
pub proof fn lemma_nothing_to_read(img: Image, inode: Inode, offset: int, want: int)
    requires
        want <= 0 || offset < 0 || offset >= inode.data_size(),
    ensures
        img.range(inode, offset, want) == Ok::<Seq<u8>, ErrorKind>(Seq::empty()),
{
    reveal(Image::range);
}

/// What one step of a ranged read contributes: where the block at `offset`
/// cannot be had, its error; else the step's bytes of the block and then what
/// the read from behind them yields, or nothing where the step has no byte to
/// give.
pub proof fn lemma_range_step(img: Image, inode: Inode, offset: int, want: int)
    requires
        want > 0,
        0 <= offset < inode.data_size(),
    ensures
        img.range(inode, offset, want) == (match img.block(inode, offset as u64) {
            Err(k) => Err::<Seq<u8>, ErrorKind>(k),
            Ok(block) => {
                let in_block = offset % block_size_of(img.super_block);
                let n = step_len(block.len() as int, in_block, want, inode.data_size() - offset);
                if n <= 0 {
                    Ok::<Seq<u8>, ErrorKind>(Seq::empty())
                } else {
                    match img.range(inode, offset + n, want - n) {
                        Err(k) => Err::<Seq<u8>, ErrorKind>(k),
                        Ok(rest) => Ok::<Seq<u8>, ErrorKind>(
                            block.subrange(in_block, in_block + n) + rest,
                        ),
                    }
                }
            },
        }),
{
    reveal(Image::range);
}

/// One step of stitching a ranged read together: with the step's bytes
/// written behind those written before, what is written and what the rest of
/// the read yields make up the whole read as before, and the buffer behind
/// the written bytes is still as it was at first.
proof fn lemma_stitch(
    whole: Result<Seq<u8>, ErrorKind>,
    here: Result<Seq<u8>, ErrorKind>,
    next: Result<Seq<u8>, ErrorKind>,
    before: Seq<u8>,
    first: Seq<u8>,
    after: Seq<u8>,
    piece: Seq<u8>,
    written: int,
)
    requires
        0 <= written,
        written + piece.len() <= before.len(),
        first.len() == before.len(),
        before.subrange(written, before.len() as int) == first.subrange(
            written,
            before.len() as int,
        ),
        after == before.subrange(0, written) + piece + before.subrange(
            written + piece.len(),
            before.len() as int,
        ),
        match here {
            Ok(rest) => whole == Ok::<Seq<u8>, ErrorKind>(before.subrange(0, written) + rest),
            Err(k) => whole == Err::<Seq<u8>, ErrorKind>(k),
        },
        here == (match next {
            Err(k) => Err::<Seq<u8>, ErrorKind>(k),
            Ok(rest) => Ok::<Seq<u8>, ErrorKind>(piece + rest),
        }),
    ensures
        after.len() == before.len(),
        after.subrange(written + piece.len(), before.len() as int) == first.subrange(
            written + piece.len(),
            before.len() as int,
        ),
        match next {
            Ok(rest) => whole == Ok::<Seq<u8>, ErrorKind>(
                after.subrange(0, written + piece.len()) + rest,
            ),
            Err(k) => whole == Err::<Seq<u8>, ErrorKind>(k),
        },
{
    let head = before.subrange(0, written);
    let len = before.len() as int;
    assert(after.subrange(0, written + piece.len()) =~= head + piece);
    assert(after.subrange(written + piece.len(), len) =~= first.subrange(
        written + piece.len(),
        len,
    )) by {
        assert forall|j: int| written + piece.len() <= j < len implies after[j] == first[j] by {
            assert(before.subrange(written, len)[j - written] == first.subrange(written, len)[j
                - written]);
        }
    }
    match next {
        Ok(rest) => {
            assert((head + piece) + rest =~= head + (piece + rest));
        },
        Err(_) => {},
    }
}

/// Copies `count` bytes of `src`, from `from` on, over those of `out` from
/// `at` on.
fn copy_into(out: &mut Vec<u8>, at: usize, src: &Vec<u8>, from: usize, count: usize)
    requires
        at + count <= old(out)@.len(),
        from + count <= src@.len(),
    ensures
        final(out)@ == old(out)@.subrange(0, at as int) + src@.subrange(from as int, from + count)
            + old(out)@.subrange(at + count, old(out)@.len() as int),
{
    let total: usize = out.len();
    let held: usize = src.len();
    let mut k: usize = 0;
    proof {
        assert(out@ =~= old(out)@.subrange(0, at as int) + src@.subrange(from as int, from + 0)
            + old(out)@.subrange(at + 0, total as int));
    }
    while k < count
        invariant
            k <= count,
            at + count <= total,
            from + count <= held,
            total == old(out)@.len(),
            held == src@.len(),
            out@ == old(out)@.subrange(0, at as int) + src@.subrange(from as int, from + k) + old(
                out,
            )@.subrange(at + k, total as int),
        decreases count - k,
    {
        out.set(at + k, src[from + k]);
        k += 1;
        proof {
            assert(out@ =~= old(out)@.subrange(0, at as int) + src@.subrange(from as int, from + k)
                + old(out)@.subrange(at + k, total as int));
        }
    }
}

/// An opened image: a handle to the store, the declared size, the validated
/// super block and the block size derived from it.
#[derive(Debug)]
pub struct EroFS<R: ReadAt> {
    reader: Arc<R>,
    image_size: u64,
    super_block: SuperBlock,
    block_size: usize,
}

impl<R: ReadAt> View for EroFS<R> {
    type V = Image;

    /// The store's bytes, the declared size and the super block.
    closed spec fn view(&self) -> Image {
        Image {
            contents: self.reader.contents(),
            declared_size: self.image_size,
            super_block: self.super_block,
        }
    }
}

impl<R: ReadAt> Clone for EroFS<R> {
    /// Another handle on the same store, with the same validated state.
    fn clone(&self) -> (r: Self)
        ensures
            r == *self,
    {
        EroFS {
            reader: share(&self.reader),
            image_size: self.image_size,
            super_block: self.super_block,
            block_size: self.block_size,
        }
    }
}

impl<R: ReadAt> EroFS<R> {
    /// The super block is valid and the block size is the one it declares.
    pub closed spec fn wf(&self) -> bool {
        &&& valid_super_block(self.super_block)
        &&& self.block_size == block_size_of(self.super_block)
    }

    /// Whether the store never fails.
    pub closed spec fn steady(&self) -> bool {
        self.reader.steady()
    }

    /// Opens an image: reads the super block at its fixed offset and checks
    /// it. Nothing else of the image is looked at.
    pub fn from_image(reader: R, image_size: u64) -> (r: Result<Self, Error>)
        ensures
            match r {
                Ok(fs) => {
                    &&& fs.wf()
                    &&& fs.steady() == reader.steady()
                    &&& fs@.contents == reader.contents()
                    &&& fs@.declared_size == image_size
                    &&& spec_open(reader.contents(), image_size) == Ok::<SuperBlock, ErrorKind>(
                        fs@.super_block,
                    )
                },
                Err(e) => reader.steady() ==> spec_open(reader.contents(), image_size) == Err::<
                    SuperBlock,
                    ErrorKind,
                >(e.kind()),
            },
    {
        let bytes = match read_exact_at(
            &reader,
            image_size,
            SUPER_BLOCK_OFFSET as u64,
            SuperBlock::size(),
        ) {
            Ok(bytes) => bytes,
            Err(e) => {
                return Err(e);
            },
        };
        let decoded = match SuperBlock::read_from(bytes.as_slice()) {
            Ok(decoded) => decoded,
            Err(e) => {
                return Err(e);
            },
        };
        let super_block = match check_super_block(decoded) {
            Ok(super_block) => super_block,
            Err(e) => {
                return Err(e);
            },
        };
        let block_size: usize = block_size_for(&super_block) as usize;
        Ok(EroFS { reader: Arc::new(reader), image_size, super_block, block_size })
    }

    /// The validated super block.
    pub fn super_block(&self) -> (sb: &SuperBlock)
        ensures
            *sb == self@.super_block,
            self.wf() ==> valid_super_block(*sb),
    {
        &self.super_block
    }

    /// The block size: two to the power of the super block's exponent.
    pub fn block_size(&self) -> (bs: usize)
        requires
            self.wf(),
        ensures
            bs == block_size_of(self@.super_block),
            valid_super_block(self@.super_block),
    {
        self.block_size
    }

    /// Byte offset at which block number `block` starts.
    pub fn block_offset(&self, block: u32) -> (at: u64)
        requires
            self.wf(),
        ensures
            at == block_start(self@.super_block, block as int),
    {
        block_offset_in(&self.super_block, block)
    }

    /// Byte offset of the inode with node id `nid`, where it fits 64 bits.
    pub fn get_inode_offset(&self, nid: u64) -> (at: u64)
        requires
            self.wf(),
            inode_offset(self@.super_block, nid) <= u64::MAX,
        ensures
            at == inode_offset(self@.super_block, nid),
    {
        self.block_offset(self.super_block.meta_blk_addr) + nid * (INODE_COMPACT_SIZE as u64)
    }

    /// Reads `len` bytes at the physical offset `offset`.
    fn read(&self, offset: u64, len: usize) -> (r: Result<Vec<u8>, Error>)
        ensures
            offset + len > self@.declared_size ==> r matches Err(Error::OutOfBounds(_)),
            follows_bytes(self.steady(), r, self@.read(offset, len as nat)),
    {
        read_exact_at(&*self.reader, self.image_size, offset, len)
    }

    /// Resolves a node id to its inode, reading it from the store anew.
    pub fn get_inode(&self, nid: u64) -> (r: Result<Inode, Error>)
        requires
            self.wf(),
        ensures
            follows(self.steady(), r, self@.inode(nid)),
            inode_offset(self@.super_block, nid) + 2 > self@.declared_size ==> r matches Err(
                Error::OutOfBounds(_),
            ),
    {
        let base: u64 = self.block_offset(self.super_block.meta_blk_addr);
        if nid > (u64::MAX - base) / 32 {
            return Err(Error::OutOfBounds("inode offset overflow".to_owned()));
        }
        let offset: u64 = self.get_inode_offset(nid);
        let head = match self.read(offset, 2) {
            Ok(head) => head,
            Err(e) => {
                return Err(e);
            },
        };
        let format: u16 = read_le_u16(head.as_slice(), 0);
        if Inode::is_compact_format(format) {
            let bytes = match self.read(offset, InodeCompact::size()) {
                Ok(bytes) => bytes,
                Err(e) => {
                    return Err(e);
                },
            };
            match InodeCompact::read_from(bytes.as_slice()) {
                Ok(inode) => Ok(Inode::Compact((nid, inode))),
                Err(e) => Err(e),
            }
        } else {
            let bytes = match self.read(offset, InodeExtended::size()) {
                Ok(bytes) => bytes,
                Err(e) => {
                    return Err(e);
                },
            };
            match InodeExtended::read_from(bytes.as_slice()) {
                Ok(inode) => Ok(Inode::Extended((nid, inode))),
                Err(e) => Err(e),
            }
        }
    }

    /// Fetches the one block of `inode` that covers `offset`. What the layout
    /// alone rules out fails with its own error, whatever the store does.
    pub fn get_inode_block(&self, inode: &Inode, offset: u64) -> (r: Result<Vec<u8>, Error>)
        requires
            self.wf(),
        ensures
            follows_bytes(self.steady(), r, self@.block(*inode, offset)),
            spec_locate(self@.super_block, *inode, offset) matches Err(k) ==> (r matches Err(e)
                && e.kind() == k),
            spec_locate(self@.super_block, *inode, offset) matches Ok(Fetch::Range { start, len })
                ==> start + len > self@.declared_size ==> r matches Err(Error::OutOfBounds(_)),
            spec_locate(self@.super_block, *inode, offset) matches Ok(Fetch::ChunkAddress { at })
                ==> at + 4 > self@.declared_size ==> r matches Err(Error::OutOfBounds(_)),
            r matches Ok(block) ==> block@.len() <= block_size_of(self@.super_block),
    {
        let fetch = match locate(&self.super_block, inode, offset) {
            Ok(fetch) => fetch,
            Err(e) => {
                proof {
                    reveal(Image::block);
                }
                return Err(e);
            },
        };
        proof {
            lemma_block_size_bounds(self.super_block);
            reveal(Image::block);
        }
        match fetch {
            Fetch::Range { start, len } => self.read(start, len as usize),
            Fetch::ChunkAddress { at } => {
                let raw = match self.read(at, 4) {
                    Ok(raw) => raw,
                    Err(e) => {
                        return Err(e);
                    },
                };
                let chunk_addr: i32 = read_le_i32(raw.as_slice(), 0);
                match chunk_range(&self.super_block, inode, offset, chunk_addr) {
                    Ok((start, len)) => self.read(start, len as usize),
                    Err(e) => Err(e),
                }
            },
        }
    }

    /// Reads the data of `inode` from `file_offset` on into `out`, block by
    /// block, and returns the number of bytes written, which stand at the
    /// front of `out`; the rest of `out` stays as it was. An empty `out` and an
    /// offset at or behind the end of the data give 0. A block that has
    /// nothing to give at the offset ends the read with what was written so
    /// far. An error on the way fails the whole read.
    #[verifier::rlimit(40)]
    pub fn read_inode_range(&self, inode: &Inode, file_offset: usize, out: &mut Vec<u8>) -> (r: Result<
        usize,
        Error,
    >)
        requires
            self.wf(),
        ensures
            final(out)@.len() == old(out)@.len(),
            match r {
                Ok(n) => {
                    &&& n <= old(out)@.len()
                    &&& self@.range(*inode, file_offset as int, old(out)@.len() as int) == Ok::<
                        Seq<u8>,
                        ErrorKind,
                    >(final(out)@.subrange(0, n as int))
                    &&& final(out)@.subrange(n as int, old(out)@.len() as int) == old(
                        out,
                    )@.subrange(n as int, old(out)@.len() as int)
                },
                Err(e) => self.steady() ==> self@.range(
                    *inode,
                    file_offset as int,
                    old(out)@.len() as int,
                ) == Err::<Seq<u8>, ErrorKind>(e.kind()),
            },
            old(out)@.len() == 0 || file_offset >= inode.data_size() ==> r == Ok::<usize, Error>(0)
                && final(out)@ == old(out)@,
            old(out)@.len() > 0 && file_offset < inode.data_size() ==> (spec_locate(
                self@.super_block,
                *inode,
                file_offset as u64,
            ) matches Err(k) ==> (r matches Err(e) && e.kind() == k)),
    {
        let total: usize = out.len();
        let size: u64 = inode.data_size();
        let bs: u64 = self.block_size as u64;
        let mut written: usize = 0;
        let mut offset: u64 = file_offset as u64;
        proof {
            lemma_block_size_bounds(self.super_block);
            match self@.range(*inode, file_offset as int, total as int) {
                Ok(all) => {
                    assert(out@.subrange(0, 0) + all =~= all);
                },
                Err(_) => {},
            }
        }
        while written < total && offset < size
            invariant
                self.wf(),
                bs == block_size_of(self@.super_block),
                bs >= 512,
                size == inode.data_size(),
                total == old(out)@.len(),
                out@.len() == total,
                written <= total,
                out@.subrange(written as int, total as int) == old(out)@.subrange(
                    written as int,
                    total as int,
                ),
                written == 0 ==> out@ == old(out)@ && offset == file_offset,
                written > 0 ==> file_offset < size,
                written > 0 ==> spec_locate(self@.super_block, *inode, file_offset as u64) is Ok,
                file_offset <= offset,
                match self@.range(*inode, offset as int, total - written) {
                    Ok(rest) => self@.range(*inode, file_offset as int, total as int) == Ok::<
                        Seq<u8>,
                        ErrorKind,
                    >(out@.subrange(0, written as int) + rest),
                    Err(k) => self@.range(*inode, file_offset as int, total as int) == Err::<
                        Seq<u8>,
                        ErrorKind,
                    >(k),
                },
            decreases total - written,
        {
            proof {
                lemma_range_step(self@, *inode, offset as int, total - written);
            }
            let block = match self.get_inode_block(inode, offset) {
                Ok(block) => block,
                Err(e) => {
                    return Err(e);
                },
            };
            let in_block: u64 = offset % bs;
            let held: u64 = block.len() as u64;
            let available: u64 = if held > in_block {
                held - in_block
            } else {
                0
            };
            let wanted: u64 = (total - written) as u64;
            let capped: u64 = if wanted < available {
                wanted
            } else {
                available
            };
            let n: u64 = if capped < size - offset {
                capped
            } else {
                size - offset
            };
            assert(n == step_len(
                block@.len() as int,
                offset as int % block_size_of(self@.super_block),
                total - written,
                inode.data_size() - offset,
            ));
            if n == 0 {
                proof {
                    assert(out@.subrange(0, written as int) + Seq::<u8>::empty()
                        =~= out@.subrange(0, written as int));
                }
                return Ok(written);
            }
            let ghost before = out@;
            let start: usize = in_block as usize;
            let count: usize = n as usize;
            copy_into(out, written, &block, start, count);
            proof {
                lemma_stitch(
                    self@.range(*inode, file_offset as int, total as int),
                    self@.range(*inode, offset as int, total - written),
                    self@.range(*inode, offset + n, total - written - n),
                    before,
                    old(out)@,
                    out@,
                    block@.subrange(start as int, start + count),
                    written as int,
                );
            }
            written = written + count;
            offset = offset + n;
        }
        proof {
            lemma_nothing_to_read(self@, *inode, offset as int, total - written);
            assert(out@.subrange(0, written as int) + Seq::<u8>::empty() =~= out@.subrange(
                0,
                written as int,
            ));
        }
        Ok(written)
    }

    /// Looks `name` up in the directory `dir`, block after block.
    pub fn find_in_directory(&self, dir: &Inode, name: &[u8]) -> (r: Result<Option<u64>, Error>)
        requires
            self.wf(),
        ensures
            follows(self.steady(), r, self@.lookup(*dir, name@, 0)),
    {
        let bs: u64 = self.block_size as u64;
        let size: u64 = dir.data_size();
        proof {
            lemma_block_size_bounds(self.super_block);
        }
        let count: u64 = count_units(size, bs);
        let mut i: u64 = 0;
        while i < count
            invariant
                self.wf(),
                bs == block_size_of(self@.super_block),
                bs >= 512,
                size == dir.data_size(),
                count == block_count(self@.super_block, *dir),
                i <= count,
                self@.lookup(*dir, name@, 0) == self@.lookup(*dir, name@, i as int),
            decreases count - i,
        {
            proof {
                lemma_units_cover(size as int, bs as int, i as int);
            }
            let block = match self.get_inode_block(dir, i * bs) {
                Ok(block) => block,
                Err(e) => {
                    return Err(e);
                },
            };
            match find_nodeid_by_name(name, block.as_slice()) {
                Err(e) => {
                    return Err(e);
                },
                Ok(Some(nid)) => {
                    return Ok(Some(nid));
                },
                Ok(None) => {},
            }
            i += 1;
        }
        Ok(None)
    }

    /// Walks the components of `path` from the root directory and returns the
    /// node id they lead to; none where a directory lacks a component.
    pub fn resolve_nid(&self, path: &[u8]) -> (r: Result<Option<u64>, Error>)
        requires
            self.wf(),
        ensures
            follows(
                self.steady(),
                r,
                self@.walk(self@.super_block.root_nid as u64, path@, 0),
            ),
    {
        let len: usize = path.len();
        let root: u64 = self.super_block.root_nid as u64;
        let mut nid: u64 = root;
        let mut pos: usize = 0;
        while pos < len
            invariant
                self.wf(),
                len == path@.len(),
                pos <= len,
                root == self@.super_block.root_nid,
                self@.walk(root, path@, 0) == self@.walk(nid, path@, pos as int),
            decreases len - pos,
        {
            let mut end: usize = pos;
            while end < len && path[end] != SEPARATOR
                invariant
                    pos <= end <= len,
                    len == path@.len(),
                    name_len(path@, pos as int) == (end - pos) + name_len(path@, end as int),
                decreases len - end,
            {
                end += 1;
            }
            let name = slice_subrange(path, pos, end);
            let next: usize = if end < len {
                end + 1
            } else {
                len
            };
            let skipped: bool = name.len() == 0 || (name.len() == 1 && name[0] == DOT);
            if !skipped {
                let dir = match self.get_inode(nid) {
                    Ok(dir) => dir,
                    Err(e) => {
                        return Err(e);
                    },
                };
                match self.find_in_directory(&dir, name) {
                    Err(e) => {
                        return Err(e);
                    },
                    Ok(None) => {
                        return Ok(None);
                    },
                    Ok(Some(child)) => {
                        nid = child;
                    },
                }
            }
            pos = next;
        }
        Ok(Some(nid))
    }

    /// Resolves a path of components separated by `/` to its inode; none
    /// where a directory on the way lacks a component. Empty components and
    /// `.` are passed over.
    pub fn get_path_inode_str(&self, path: &str) -> (r: Result<Option<Inode>, Error>)
        requires
            self.wf(),
        ensures
            follows(self.steady(), r, self@.resolve(path.spec_bytes())),
    {
        match self.resolve_nid(path.as_bytes()) {
            Err(e) => Err(e),
            Ok(None) => Ok(None),
            Ok(Some(nid)) => match self.get_inode(nid) {
                Err(e) => Err(e),
                Ok(inode) => Ok(Some(inode)),
            },
        }
    }

    /// As `get_path_inode_str`.
    pub fn get_path_inode(&self, path: &str) -> (r: Result<Option<Inode>, Error>)
        requires
            self.wf(),
        ensures
            follows(self.steady(), r, self@.resolve(path.spec_bytes())),
    {
        self.get_path_inode_str(path)
    }

    /// Opens an inode as a file; an inode that is no regular file is refused.
    pub fn open_inode_file(&self, inode: Inode) -> (r: Result<File<R>, Error>)
        ensures
            match r {
                Ok(file) => inode.is_file() && file.snapshot() == inode && file.engine() == *self,
                Err(e) => !inode.is_file() && e.kind() == ErrorKind::NotAFile,
            },
            r matches Err(Error::NotAFile(msg)) ==> msg@ == "inode "@ + decimal_text(inode.id())
                + " is not a regular file"@,
    {
        if !inode.is_file() {
            return Err(
                Error::NotAFile(message_with_number("inode ", inode.id(), " is not a regular file")),
            );
        }
        Ok(File::new(inode, self.clone()))
    }

    /// Opens the regular file that `path` names.
    pub fn open_path(&self, path: &str) -> (r: Result<File<R>, Error>)
        requires
            self.wf(),
        ensures
            match r {
                Ok(file) => file.engine() == *self && self@.resolve_file(path.spec_bytes())
                    == Ok::<Inode, ErrorKind>(file.snapshot()),
                Err(e) => self.steady() ==> self@.resolve_file(path.spec_bytes()) == Err::<
                    Inode,
                    ErrorKind,
                >(e.kind()),
            },
    {
        let inode = match self.get_path_inode_str(path) {
            Err(e) => {
                return Err(e);
            },
            Ok(None) => {
                return Err(Error::PathNotFound(path.to_owned()));
            },
            Ok(Some(inode)) => inode,
        };
        self.open_inode_file(inode)
    }

    /// As `open_path`.
    pub fn open(&self, path: &str) -> (r: Result<File<R>, Error>)
        requires
            self.wf(),
        ensures
            match r {
                Ok(file) => file.engine() == *self && self@.resolve_file(path.spec_bytes())
                    == Ok::<Inode, ErrorKind>(file.snapshot()),
                Err(e) => self.steady() ==> self@.resolve_file(path.spec_bytes()) == Err::<
                    Inode,
                    ErrorKind,
                >(e.kind()),
            },
    {
        self.open_path(path)
    }

    /// As `open_path`.
    pub fn open_str(&self, path: &str) -> (r: Result<File<R>, Error>)
        requires
            self.wf(),
        ensures
            match r {
                Ok(file) => file.engine() == *self && self@.resolve_file(path.spec_bytes())
                    == Ok::<Inode, ErrorKind>(file.snapshot()),
                Err(e) => self.steady() ==> self@.resolve_file(path.spec_bytes()) == Err::<
                    Inode,
                    ErrorKind,
                >(e.kind()),
            },
    {
        self.open_path(path)
    }
}

} // verus!
