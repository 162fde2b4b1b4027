//! What holds of the engine as a whole, proved from the definitions that its
//! contracts are stated in.
use vstd::prelude::*;
use vstd::arithmetic::div_mod::lemma_fundamental_div_mod;
use vstd::arithmetic::power2::{pow2, lemma_pow2_pos};
use crate::error::{Error, ErrorKind};
use crate::image::{follows, spec_read_exact};
use crate::types::{
    Inode, Layout, ChunkBasedFormat, SuperBlock, le_i32, SUPER_BLOCK_OFFSET, SUPER_BLOCK_SIZE,
};
use crate::layout::{
    Fetch, valid_super_block, block_size_of, block_start, tail_start, units, block_count,
    chunk_size, chunk_count, spec_flat_range, spec_chunk_address_at, spec_chunk_range, spec_locate,
    lemma_block_size_bounds,
};
use crate::filesystem::{Image, step_len, spec_open, lemma_range_step, lemma_nothing_to_read};

verus! {

/// Where the offset `offset` of `size` bytes lies in units of `unit` bytes.
pub proof fn lemma_unit_of_offset(size: int, unit: int, offset: int)
    requires
        0 <= offset < size,
        0 < unit,
    ensures
        0 <= offset / unit < units(size, unit),
        0 <= offset % unit < unit,
        offset == (offset / unit) * unit + offset % unit,
        (units(size, unit) - 1) * unit < size,
        size - (units(size, unit) - 1) * unit == (if size % unit == 0 {
            unit
        } else {
            size % unit
        }),
        offset / unit < units(size, unit) - 1 ==> (offset / unit) * unit + unit <= (units(size, unit)
            - 1) * unit,
{
    lemma_fundamental_div_mod(offset, unit);
    lemma_fundamental_div_mod(size, unit);
    let q = size / unit;
    let m = size % unit;
    let index = offset / unit;
    let rest = offset % unit;
    let count = units(size, unit);
    assert(0 <= index) by (nonlinear_arith)
        requires
            offset == unit * index + rest,
            0 <= rest < unit,
            0 <= offset,
    ;
    assert(index < count) by (nonlinear_arith)
        requires
            offset == unit * index + rest,
            0 <= rest < unit,
            size == unit * q + m,
            0 <= m < unit,
            offset < size,
            count == q + (if m == 0 { 0int } else { 1int }),
    ;
    assert(index * unit == unit * index) by (nonlinear_arith);
    assert((count - 1) * unit == unit * q + (if m == 0 { -unit } else { 0int })) by (nonlinear_arith)
        requires
            count == q + (if m == 0 { 0int } else { 1int }),
    ;
    assert(index < count - 1 ==> index * unit + unit <= (count - 1) * unit) by (nonlinear_arith)
        requires
            0 < unit,
    ;
}

/// The data of an inode of a flat layout, put together from the image by
/// the layout's rule: the bytes from the inode's block address on and, with
/// the inline layout, the last block's bytes from behind the inode instead,
/// which are those that the full blocks leave over.
pub open spec fn flat_data(img: Image, inode: Inode) -> Seq<u8> {
    let bs = block_size_of(img.super_block);
    let size = inode.data_size() as int;
    let base = block_start(img.super_block, inode.raw_block_addr() as int);
    let tail = tail_start(img.super_block, inode);
    let full = (block_count(img.super_block, inode) - 1) * bs;
    if size == 0 {
        Seq::empty()
    } else if inode.spec_layout() == Ok::<Layout, ErrorKind>(Layout::FlatInline) {
        img.contents.subrange(base, base + full) + img.contents.subrange(tail, tail + size % bs)
    } else {
        img.contents.subrange(base, base + size)
    }
}

/// The image holds the data of an inode of a flat layout: the ranges that
/// `flat_data` is made of end within the declared size and within the store.
pub open spec fn holds_flat_data(img: Image, inode: Inode) -> bool {
    let bs = block_size_of(img.super_block);
    let size = inode.data_size() as int;
    let base = block_start(img.super_block, inode.raw_block_addr() as int);
    let tail = tail_start(img.super_block, inode);
    let full = (block_count(img.super_block, inode) - 1) * bs;
    let limit = if img.declared_size < img.contents.len() {
        img.declared_size as int
    } else {
        img.contents.len() as int
    };
    if size == 0 {
        true
    } else if inode.spec_layout() == Ok::<Layout, ErrorKind>(Layout::FlatInline) {
        base + full <= limit && tail + size % bs <= limit
    } else {
        base + size <= limit
    }
}

/// The bytes that a block of an inode of a flat layout has to give from an
/// offset's place in it on.
pub open spec fn bytes_from(block: Seq<u8>, in_block: int) -> Seq<u8> {
    if block.len() > in_block {
        block.subrange(in_block, block.len() as int)
    } else {
        Seq::empty()
    }
}

/// Under a flat layout, the block that covers an offset can be had, and what
/// it has to give from the offset on are the bytes of the inode's data from
/// the offset on: at least one where the data goes on, and none beyond it.
pub proof fn lemma_flat_block(img: Image, inode: Inode, offset: int)
    requires
        valid_super_block(img.super_block),
        inode.spec_layout() == Ok::<Layout, ErrorKind>(Layout::FlatPlain) || inode.spec_layout()
            == Ok::<Layout, ErrorKind>(Layout::FlatInline),
        holds_flat_data(img, inode),
        0 <= offset < inode.data_size(),
        offset <= flat_data(img, inode).len(),
    ensures
        img.block(inode, offset as u64) is Ok,
        ({
            let given = bytes_from(
                img.block(inode, offset as u64)->Ok_0,
                offset % block_size_of(img.super_block),
            );
            &&& offset + given.len() <= flat_data(img, inode).len()
            &&& offset < flat_data(img, inode).len() ==> given.len() > 0
            &&& given == flat_data(img, inode).subrange(offset, offset + given.len())
        }),
{
    reveal(Image::block);
    reveal(spec_locate);
    let sb = img.super_block;
    let bs = block_size_of(sb);
    let size = inode.data_size() as int;
    let data = flat_data(img, inode);
    let inline = inode.spec_layout() == Ok::<Layout, ErrorKind>(Layout::FlatInline);
    let base = block_start(sb, inode.raw_block_addr() as int);
    let tail = tail_start(sb, inode);
    let count = block_count(sb, inode);
    lemma_block_size_bounds(sb);
    lemma_unit_of_offset(size, bs, offset);
    let index = offset / bs;
    let in_block = offset % bs;
    if inline && index == count - 1 {
        let rem = size % bs;
        assert(spec_flat_range(sb, inode, offset as u64, inline) == Ok::<(u64, u64), ErrorKind>(
            (tail as u64, rem as u64),
        ));
        let block = if rem == 0 {
            Seq::<u8>::empty()
        } else {
            img.contents.subrange(tail, tail + rem)
        };
        assert(img.block(inode, offset as u64) == Ok::<Seq<u8>, ErrorKind>(block));
        let given = bytes_from(block, in_block);
        assert(given =~= data.subrange(offset, offset + given.len()));
    } else {
        let start = base + index * bs;
        let left = size - index * bs;
        let len = if left < bs {
            left
        } else {
            bs
        };
        assert(spec_flat_range(sb, inode, offset as u64, inline) == Ok::<(u64, u64), ErrorKind>(
            (start as u64, len as u64),
        ));
        let block = img.contents.subrange(start, start + len);
        assert(img.block(inode, offset as u64) == Ok::<Seq<u8>, ErrorKind>(block));
        let given = bytes_from(block, in_block);
        assert(given =~= data.subrange(offset, offset + given.len()));
    }
}

/// A ranged read of an inode of a flat layout yields the bytes of the
/// inode's data, as the layout's rule puts it together, from the offset on:
/// as many as are wanted, or all there are.
pub proof fn lemma_flat_read(img: Image, inode: Inode, offset: int, want: int)
    requires
        valid_super_block(img.super_block),
        inode.spec_layout() == Ok::<Layout, ErrorKind>(Layout::FlatPlain) || inode.spec_layout()
            == Ok::<Layout, ErrorKind>(Layout::FlatInline),
        holds_flat_data(img, inode),
        0 <= offset <= flat_data(img, inode).len(),
        0 <= want,
    ensures
        img.range(inode, offset, want) == Ok::<Seq<u8>, ErrorKind>(
            flat_data(img, inode).subrange(
                offset,
                if offset + want < flat_data(img, inode).len() {
                    offset + want
                } else {
                    flat_data(img, inode).len() as int
                },
            ),
        ),
    decreases want,
{
    let size = inode.data_size() as int;
    let data = flat_data(img, inode);
    let end = if offset + want < data.len() {
        offset + want
    } else {
        data.len() as int
    };
    if want <= 0 || offset >= size {
        lemma_flat_data_len(img, inode);
        lemma_nothing_to_read(img, inode, offset, want);
        assert(data.subrange(offset, end) =~= Seq::<u8>::empty());
    } else {
        lemma_range_step(img, inode, offset, want);
        lemma_flat_block(img, inode, offset);
        lemma_block_size_bounds(img.super_block);
        let block = img.block(inode, offset as u64)->Ok_0;
        let in_block = offset % block_size_of(img.super_block);
        let given = bytes_from(block, in_block);
        let n = step_len(block.len() as int, in_block, want, size - offset);
        if n <= 0 {
            assert(data.subrange(offset, end) =~= Seq::<u8>::empty());
        } else {
            lemma_flat_read(img, inode, offset + n, want - n);
            assert(block.subrange(in_block, in_block + n) =~= given.subrange(0, n));
            assert(given.subrange(0, n) + data.subrange(offset + n, end) =~= data.subrange(
                offset,
                end,
            ));
        }
    }
}

/// The data of an inode of a flat layout is no longer than the inode says:
/// as long under the plain layout and where the data does not end on a block
/// boundary, one block shorter under the inline layout where it does.
pub proof fn lemma_flat_data_len(img: Image, inode: Inode)
    requires
        valid_super_block(img.super_block),
        inode.spec_layout() == Ok::<Layout, ErrorKind>(Layout::FlatPlain) || inode.spec_layout()
            == Ok::<Layout, ErrorKind>(Layout::FlatInline),
        holds_flat_data(img, inode),
    ensures
        flat_data(img, inode).len() <= inode.data_size(),
        inode.spec_layout() == Ok::<Layout, ErrorKind>(Layout::FlatPlain) || inode.data_size() as int
            % block_size_of(img.super_block) != 0 ==> flat_data(img, inode).len()
            == inode.data_size(),
        inode.spec_layout() == Ok::<Layout, ErrorKind>(Layout::FlatInline) && inode.data_size() > 0
            && inode.data_size() as int % block_size_of(img.super_block) == 0 ==> flat_data(
            img,
            inode,
        ).len() == inode.data_size() - block_size_of(img.super_block),
{
    lemma_block_size_bounds(img.super_block);
    if inode.data_size() > 0 {
        lemma_unit_of_offset(inode.data_size() as int, block_size_of(img.super_block), 0);
    }
}

/// A read of a whole file of a flat layout, from offset 0 into room for at
/// least the file's size, yields exactly the inode's data as the layout's
/// rule puts it together.
pub proof fn lemma_flat_full_read(img: Image, inode: Inode, want: int)
    requires
        valid_super_block(img.super_block),
        inode.spec_layout() == Ok::<Layout, ErrorKind>(Layout::FlatPlain) || inode.spec_layout()
            == Ok::<Layout, ErrorKind>(Layout::FlatInline),
        holds_flat_data(img, inode),
        want >= inode.data_size(),
    ensures
        img.range(inode, 0, want) == Ok::<Seq<u8>, ErrorKind>(flat_data(img, inode)),
{
    let data = flat_data(img, inode);
    lemma_flat_data_len(img, inode);
    lemma_flat_read(img, inode, 0, want);
    assert(data.subrange(0, data.len() as int) =~= data);
}

/// In a chunk-based inode, a chunk whose stored address is zero or negative
/// is a hole, and fetching a block of it fails as corrupted data.
pub proof fn lemma_chunk_hole(img: Image, inode: Inode, offset: u64, at: u64, raw: Seq<u8>)
    requires
        inode.spec_layout() == Ok::<Layout, ErrorKind>(Layout::ChunkBased),
        spec_chunk_address_at(img.super_block, inode, offset) == Ok::<u64, ErrorKind>(at),
        img.read(at, 4) == Ok::<Seq<u8>, ErrorKind>(raw),
        le_i32(raw, 0) <= 0,
    ensures
        img.block(inode, offset) == Err::<Seq<u8>, ErrorKind>(ErrorKind::CorruptedData),
{
    reveal(Image::block);
    reveal(spec_locate);
}

/// In a chunk-based inode whose chunk format is in order, an offset in a
/// chunk that the data does not reach is out of range, with the chunk's
/// number and the number of chunks, whatever the image holds.
pub proof fn lemma_chunk_out_of_range(img: Image, inode: Inode, offset: u64)
    requires
        inode.spec_layout() == Ok::<Layout, ErrorKind>(Layout::ChunkBased),
        ChunkBasedFormat(inode.raw_block_addr()).is_valid(),
        !ChunkBasedFormat(inode.raw_block_addr()).is_indexes(),
        offset as int / chunk_size(img.super_block, inode) >= chunk_count(img.super_block, inode),
    ensures
        img.block(inode, offset) == Err::<Seq<u8>, ErrorKind>(
            ErrorKind::OutOfRange(
                (offset as int / chunk_size(img.super_block, inode)) as usize,
                chunk_count(img.super_block, inode) as usize,
            ),
        ),
{
    reveal(Image::block);
    reveal(spec_locate);
}

/// In a chunk-based inode of one chunk, the block at offset 0 lies at the
/// chunk's stored address and has as many bytes as the data leaves over
/// after its full blocks: all of the data where that is less than a block,
/// which is then the lesser of the block size and the data size.
pub proof fn lemma_single_chunk_block(img: Image, inode: Inode, at: u64, raw: Seq<u8>)
    requires
        valid_super_block(img.super_block),
        inode.spec_layout() == Ok::<Layout, ErrorKind>(Layout::ChunkBased),
        chunk_count(img.super_block, inode) == 1,
        spec_chunk_address_at(img.super_block, inode, 0) == Ok::<u64, ErrorKind>(at),
        img.read(at, 4) == Ok::<Seq<u8>, ErrorKind>(raw),
        le_i32(raw, 0) > 0,
    ensures
        img.block(inode, 0) == img.read(
            block_start(img.super_block, le_i32(raw, 0)) as u64,
            (inode.data_size() as int % block_size_of(img.super_block)) as nat,
        ),
        img.block(inode, 0) matches Ok(block) ==> block.len() == inode.data_size() as int
            % block_size_of(img.super_block),
        img.block(inode, 0) matches Ok(block) ==> (inode.data_size() < block_size_of(
            img.super_block,
        ) ==> block.len() == inode.data_size()),
{
    reveal(Image::block);
    reveal(spec_locate);
    let sb = img.super_block;
    let bs = block_size_of(sb);
    let cs = chunk_size(sb, inode);
    lemma_block_size_bounds(sb);
    lemma_pow2_pos(ChunkBasedFormat(inode.raw_block_addr()).chunk_size_bits() as nat);
    assert(cs > 0) by (nonlinear_arith)
        requires
            cs == pow2(ChunkBasedFormat(inode.raw_block_addr()).chunk_size_bits() as nat) * bs,
            pow2(ChunkBasedFormat(inode.raw_block_addr()).chunk_size_bits() as nat) > 0,
            bs > 0,
    ;
    assert(0int / cs == 0 && 0int % cs == 0) by (nonlinear_arith)
        requires
            cs != 0,
    ;
    assert(0int / bs == 0) by (nonlinear_arith)
        requires
            bs > 0,
    ;
    assert(inode.data_size() < bs ==> inode.data_size() as int % bs == inode.data_size())
        by (nonlinear_arith)
        requires
            bs > 0,
            inode.data_size() >= 0,
    ;
    let rem = inode.data_size() as int % bs;
    let start = block_start(sb, le_i32(raw, 0));
    assert(spec_chunk_range(sb, inode, 0, le_i32(raw, 0) as i32) == Ok::<(u64, u64), ErrorKind>(
        (start as u64, rem as u64),
    ));
    if rem != 0 {
        assert(img.read(start as u64, rem as nat) matches Ok(block) ==> block.len() == rem);
    }
}

/// A block whose physical range ends beyond the declared size of the image
/// is out of bounds, under every layout: the range of a flat layout, the
/// place of a chunk's address, and the range within the chunk.
pub proof fn lemma_block_beyond_image(img: Image, inode: Inode, offset: u64)
    ensures
        spec_locate(img.super_block, inode, offset) matches Ok(Fetch::Range { start, len })
            ==> start + len > img.declared_size ==> img.block(inode, offset) == Err::<
            Seq<u8>,
            ErrorKind,
        >(ErrorKind::OutOfBounds),
        spec_locate(img.super_block, inode, offset) matches Ok(Fetch::ChunkAddress { at }) ==> at
            + 4 > img.declared_size ==> img.block(inode, offset) == Err::<Seq<u8>, ErrorKind>(
            ErrorKind::OutOfBounds,
        ),
        spec_locate(img.super_block, inode, offset) matches Ok(Fetch::ChunkAddress { at }) ==> (
        img.read(at, 4) matches Ok(raw) ==> (spec_chunk_range(
            img.super_block,
            inode,
            offset,
            le_i32(raw, 0) as i32,
        ) matches Ok((start, len)) ==> start + len > img.declared_size ==> img.block(inode, offset)
            == Err::<Seq<u8>, ErrorKind>(ErrorKind::OutOfBounds))),
{
    reveal(Image::block);
}

/// Resolving a path is repeatable: what a resolution returns is fixed by the
/// image and the path, so two resolutions that both succeed return the same
/// inode or the same absence, and with a steady store the second succeeds or
/// fails as the first did, with an error of the same kind.
pub proof fn lemma_resolution_repeats(
    img: Image,
    steady: bool,
    path: Seq<u8>,
    first: Result<Option<Inode>, Error>,
    second: Result<Option<Inode>, Error>,
)
    requires
        follows(steady, first, img.resolve(path)),
        follows(steady, second, img.resolve(path)),
    ensures
        first matches Ok(a) ==> (second matches Ok(b) ==> a == b),
        steady ==> (first is Ok <==> second is Ok),
        steady ==> (first matches Err(e1) ==> (second matches Err(e2) ==> e1.kind() == e2.kind())),
{
}

/// An image whose super block can be read opens with exactly the super block
/// that the bytes at the fixed offset decode to, if the magic number and the
/// block-size exponent are in order; if either is not, it does not open, and
/// the failure is an invalid super block.
pub proof fn lemma_open_checks_header(contents: Seq<u8>, declared_size: u64, bytes: Seq<u8>)
    requires
        spec_read_exact(
            contents,
            declared_size,
            SUPER_BLOCK_OFFSET as u64,
            SUPER_BLOCK_SIZE as nat,
        ) == Ok::<Seq<u8>, ErrorKind>(bytes),
    ensures
        bytes == contents.subrange(
            SUPER_BLOCK_OFFSET as int,
            SUPER_BLOCK_OFFSET + SUPER_BLOCK_SIZE,
        ),
        valid_super_block(SuperBlock::decode(bytes)) ==> spec_open(contents, declared_size) == Ok::<
            SuperBlock,
            ErrorKind,
        >(SuperBlock::decode(bytes)),
        !valid_super_block(SuperBlock::decode(bytes)) ==> spec_open(contents, declared_size)
            == Err::<SuperBlock, ErrorKind>(ErrorKind::InvalidSuperblock),
{
}

/// A ranged read yields no more bytes than are wanted, and none from behind
/// the end of the data.
pub proof fn lemma_range_len(img: Image, inode: Inode, offset: int, want: int)
    requires
        0 <= offset,
    ensures
        img.range(inode, offset, want) matches Ok(bytes) ==> {
            &&& want <= 0 ==> bytes.len() == 0
            &&& want > 0 ==> bytes.len() <= want
            &&& offset >= inode.data_size() ==> bytes.len() == 0
            &&& offset < inode.data_size() ==> offset + bytes.len() <= inode.data_size()
        },
    decreases want,
{
    if want <= 0 || offset >= inode.data_size() {
        lemma_nothing_to_read(img, inode, offset, want);
    } else {
        lemma_range_step(img, inode, offset, want);
        match img.block(inode, offset as u64) {
            Err(_) => {},
            Ok(block) => {
                let in_block = offset % block_size_of(img.super_block);
                let n = step_len(block.len() as int, in_block, want, inode.data_size() - offset);
                lemma_pow2_pos(img.super_block.blk_size_bits as nat);
                if n > 0 {
                    lemma_range_len(img, inode, offset + n, want - n);
                    assert(block.subrange(in_block, in_block + n).len() == n);
                }
            },
        }
    }
}

} // verus!
