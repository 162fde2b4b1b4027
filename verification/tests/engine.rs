use erofs::dirent::find_nodeid_by_name;
use erofs::error::{Error, ErrorKind};
use erofs::filesystem::{check_super_block, EroFS};
use erofs::image::{read_exact_at, ReadAt};
use erofs::layout::{
    block_offset_in, block_size_for, chunk_address_at, chunk_range, count_units, flat_range,
    locate, power_of_two, Fetch,
};
use erofs::types::{
    read_le_i32, read_le_u16, read_le_u32, read_le_u64, ChunkBasedFormat, Inode, InodeCompact,
    InodeExtended, Layout, SuperBlock, MAGIC_NUMBER,
};

const BS: usize = 4096;
const META: usize = 4096;
const DIR_BLOCK: usize = 2;
const DATA_BLOCK: usize = 3;
const FULL_BLOCK: usize = 4;
const IMAGE_LEN: usize = 5 * BS;

const NID_ROOT: u64 = 0;
const NID_HELLO: u64 = 2;
const NID_INLINE: u64 = 4;
const NID_CHUNK: u64 = 8;
const NID_SPARSE: u64 = 10;
const NID_EXTENDED: u64 = 12;
const NID_PACKED: u64 = 14;
const NID_ODD: u64 = 15;
const NID_ALIGNED: u64 = 16;
const NID_INDEXED: u64 = 18;
const NID_WIDE: u64 = 20;

fn put(image: &mut Vec<u8>, at: usize, bytes: &[u8]) {
    image[at..at + bytes.len()].copy_from_slice(bytes);
}

fn put_compact(image: &mut Vec<u8>, nid: u64, format: u16, mode: u16, size: u32, raw: u32) {
    let at = META + 32 * nid as usize;
    put(image, at, &format.to_le_bytes());
    put(image, at + 4, &mode.to_le_bytes());
    put(image, at + 8, &size.to_le_bytes());
    put(image, at + 16, &raw.to_le_bytes());
}

fn sample_image() -> Vec<u8> {
    let mut image = vec![0u8; IMAGE_LEN];
    put(&mut image, 1024, &MAGIC_NUMBER.to_le_bytes());
    image[1024 + 12] = 12;
    put(&mut image, 1024 + 14, &(NID_ROOT as u16).to_le_bytes());
    put(&mut image, 1024 + 40, &1u32.to_le_bytes());

    put_compact(&mut image, NID_ROOT, 0, 0o040755, 64, DIR_BLOCK as u32);
    let dir = DIR_BLOCK * BS;
    put(&mut image, dir, &NID_HELLO.to_le_bytes());
    put(&mut image, dir + 8, &12u16.to_le_bytes());
    image[dir + 10] = 1;
    put(&mut image, dir + 12, b"hello.txt");

    put_compact(&mut image, NID_HELLO, 0, 0o100644, 10, DATA_BLOCK as u32);
    put(&mut image, DATA_BLOCK * BS, b"0123456789");

    put_compact(&mut image, NID_INLINE, 2 << 1, 0o100644, 4100, FULL_BLOCK as u32);
    for i in 0..BS {
        image[FULL_BLOCK * BS + i] = (i % 251) as u8;
    }
    put(&mut image, META + 32 * NID_INLINE as usize + 32, b"TAIL");

    put_compact(&mut image, NID_CHUNK, 4 << 1, 0o100644, 10, 0);
    put(&mut image, META + 32 * NID_CHUNK as usize + 32, &(DATA_BLOCK as i32).to_le_bytes());

    put_compact(&mut image, NID_SPARSE, 4 << 1, 0o100644, 10, 0);
    put(&mut image, META + 32 * NID_SPARSE as usize + 32, &(-1i32).to_le_bytes());

    let at = META + 32 * NID_EXTENDED as usize;
    put(&mut image, at, &1u16.to_le_bytes());
    put(&mut image, at + 4, &0o100644u16.to_le_bytes());
    put(&mut image, at + 8, &10u64.to_le_bytes());
    put(&mut image, at + 16, &(DATA_BLOCK as u32).to_le_bytes());

    put_compact(&mut image, NID_PACKED, 1 << 1, 0o100644, 10, 0);
    put_compact(&mut image, NID_ODD, 5 << 1, 0o100644, 10, 0);
    put_compact(&mut image, NID_ALIGNED, 2 << 1, 0o100644, 4096, FULL_BLOCK as u32);
    put_compact(&mut image, NID_INDEXED, 4 << 1, 0o100644, 10, 0x20);
    put_compact(&mut image, NID_WIDE, 4 << 1, 0o100644, 10, 0x40);
    image
}

fn sample() -> EroFS<Vec<u8>> {
    EroFS::from_image(sample_image(), IMAGE_LEN as u64).unwrap()
}

fn sample_super_block() -> SuperBlock {
    SuperBlock { magic: MAGIC_NUMBER, blk_size_bits: 12, root_nid: 0, meta_blk_addr: 1 }
}

fn compact(nid: u64, format: u16, size: u32, raw: u32) -> Inode {
    Inode::Compact((
        nid,
        InodeCompact { format, xattr_count: 0, mode: 0o100644, size, raw_block_addr: raw },
    ))
}

fn kind<T>(r: Result<T, Error>) -> ErrorKind {
    match r {
        Ok(_) => panic!("an error was expected"),
        Err(e) => e.kind(),
    }
}

#[test]
fn open_reflects_the_super_block() {
    let fs = sample();
    assert_eq!(*fs.super_block(), sample_super_block());
    assert_eq!(fs.block_size(), 4096);
    assert_eq!(fs.block_offset(3), 3 * 4096);
    assert_eq!(fs.get_inode_offset(2), 4096 + 64);
}

#[test]
fn open_rejects_a_wrong_magic_number() {
    let mut image = sample_image();
    image[1024] ^= 0xFF;
    let r = EroFS::from_image(image, IMAGE_LEN as u64);
    assert_eq!(kind(r), ErrorKind::InvalidSuperblock);
}

#[test]
fn open_rejects_a_block_size_exponent_out_of_range() {
    for bits in [0u8, 8, 25, 255] {
        let mut image = sample_image();
        image[1024 + 12] = bits;
        let r = EroFS::from_image(image, IMAGE_LEN as u64);
        assert_eq!(kind(r), ErrorKind::InvalidSuperblock);
    }
    for bits in [9u8, 24] {
        let mut image = sample_image();
        image[1024 + 12] = bits;
        let fs = EroFS::from_image(image, IMAGE_LEN as u64).unwrap();
        assert_eq!(fs.block_size(), 1usize << bits);
    }
}

#[test]
fn open_rejects_an_image_too_short_for_a_super_block() {
    let r = EroFS::from_image(sample_image(), 1100);
    assert_eq!(kind(r), ErrorKind::OutOfBounds);
    let r = EroFS::from_image(vec![0u8; 1100], 4096);
    assert_eq!(kind(r), ErrorKind::OutOfBounds);
}

#[test]
fn check_super_block_names_the_field() {
    let mut sb = sample_super_block();
    assert_eq!(check_super_block(sb).unwrap(), sb);
    sb.magic = 0xdeadbeef;
    match check_super_block(sb) {
        Err(Error::InvalidSuperblock(msg)) => assert_eq!(msg, "invalid magic number: 0xdeadbeef"),
        _ => panic!("the magic number was not refused"),
    }
    sb.magic = MAGIC_NUMBER;
    sb.blk_size_bits = 30;
    match check_super_block(sb) {
        Err(Error::InvalidSuperblock(msg)) => assert_eq!(msg, "invalid block size bits: 30"),
        _ => panic!("the exponent was not refused"),
    }
}

#[test]
fn hello_txt_end_to_end() {
    let fs = sample();
    let file = fs.open_path("/hello.txt").unwrap();
    assert_eq!(file.size(), 10);
    assert_eq!(file.inode().id(), NID_HELLO);
    let mut out = vec![0u8; 10];
    assert_eq!(file.read_at(0, &mut out).unwrap(), 10);
    assert_eq!(out, b"0123456789".to_vec());
    let mut more = vec![7u8; 10];
    assert_eq!(file.read_at(10, &mut more).unwrap(), 0);
    assert_eq!(more, vec![7u8; 10]);
}

#[test]
fn flat_inline_tail_comes_from_behind_the_inode() {
    let fs = sample();
    let inode = fs.get_inode(NID_INLINE).unwrap();
    assert_eq!(inode.data_size(), 4100);
    assert_eq!(inode.layout().unwrap(), Layout::FlatInline);
    let mut out = vec![0u8; 4];
    assert_eq!(fs.read_inode_range(&inode, 4096, &mut out).unwrap(), 4);
    assert_eq!(out, b"TAIL".to_vec());
    assert_eq!(
        locate(fs.super_block(), &inode, 4096).unwrap(),
        Fetch::Range { start: 4096 + 32 * NID_INLINE + 32, len: 4 }
    );
    assert_eq!(
        locate(fs.super_block(), &inode, 100).unwrap(),
        Fetch::Range { start: 4 * 4096, len: 4096 }
    );
}

#[test]
fn flat_full_read_equals_the_layout() {
    let fs = sample();
    let image = sample_image();
    let inode = fs.get_inode(NID_INLINE).unwrap();
    let mut out = vec![0u8; 5000];
    assert_eq!(fs.read_inode_range(&inode, 0, &mut out).unwrap(), 4100);
    let mut expected = image[FULL_BLOCK * BS..FULL_BLOCK * BS + 4096].to_vec();
    expected.extend_from_slice(b"TAIL");
    assert_eq!(&out[..4100], &expected[..]);
    assert!(out[4100..].iter().all(|b| *b == 0));

    let mut mid = vec![0u8; 10];
    assert_eq!(fs.read_inode_range(&inode, 4090, &mut mid).unwrap(), 10);
    assert_eq!(&mid[..], &expected[4090..4100]);

    let plain = fs.get_inode(NID_HELLO).unwrap();
    let mut part = vec![0u8; 4];
    assert_eq!(fs.read_inode_range(&plain, 3, &mut part).unwrap(), 4);
    assert_eq!(part, b"3456".to_vec());
}

#[test]
fn flat_inline_on_a_block_boundary_has_no_tail() {
    let fs = sample();
    let inode = fs.get_inode(NID_ALIGNED).unwrap();
    assert_eq!(
        locate(fs.super_block(), &inode, 0).unwrap(),
        Fetch::Range { start: 4096 + 32 * NID_ALIGNED + 32, len: 0 }
    );
    let mut out = vec![9u8; 16];
    assert_eq!(fs.read_inode_range(&inode, 0, &mut out).unwrap(), 0);
    assert_eq!(out, vec![9u8; 16]);
}

#[test]
fn empty_buffer_and_end_of_data_read_nothing() {
    let fs = sample();
    let inode = fs.get_inode(NID_HELLO).unwrap();
    let mut empty: Vec<u8> = Vec::new();
    assert_eq!(fs.read_inode_range(&inode, 0, &mut empty).unwrap(), 0);
    let mut out = vec![1u8; 4];
    assert_eq!(fs.read_inode_range(&inode, 10, &mut out).unwrap(), 0);
    assert_eq!(fs.read_inode_range(&inode, 11, &mut out).unwrap(), 0);
    assert_eq!(out, vec![1u8; 4]);
    let odd = fs.get_inode(NID_ODD).unwrap();
    assert_eq!(fs.read_inode_range(&odd, 10, &mut out).unwrap(), 0);
}

#[test]
fn reads_beyond_the_declared_size_are_out_of_bounds() {
    let declared = (DATA_BLOCK * BS + 5) as u64;
    let fs = EroFS::from_image(sample_image(), declared).unwrap();
    let inode = fs.get_inode(NID_HELLO).unwrap();
    let mut out = vec![0u8; 10];
    assert_eq!(kind(fs.read_inode_range(&inode, 0, &mut out)), ErrorKind::OutOfBounds);
    assert_eq!(kind(fs.get_inode_block(&inode, 0)), ErrorKind::OutOfBounds);
    let inline = fs.get_inode(NID_INLINE).unwrap();
    assert_eq!(kind(fs.get_inode_block(&inline, 0)), ErrorKind::OutOfBounds);
    let chunk = fs.get_inode(NID_CHUNK).unwrap();
    assert_eq!(kind(fs.get_inode_block(&chunk, 0)), ErrorKind::OutOfBounds);
    assert_eq!(kind(fs.get_inode(1 << 40)), ErrorKind::OutOfBounds);
    assert_eq!(kind(fs.get_inode(u64::MAX)), ErrorKind::OutOfBounds);

    let image = sample_image();
    assert_eq!(kind(read_exact_at(&image, 100, 96, 5)), ErrorKind::OutOfBounds);
    assert_eq!(kind(read_exact_at(&image, u64::MAX, u64::MAX, 5)), ErrorKind::OutOfBounds);
    assert_eq!(kind(read_exact_at(&image, u64::MAX, IMAGE_LEN as u64 - 2, 5)), ErrorKind::OutOfBounds);
    assert_eq!(read_exact_at(&image, 100, 95, 5).unwrap(), image[95..100].to_vec());
    assert_eq!(read_exact_at(&image, 100, 100, 0).unwrap(), Vec::<u8>::new());
}

#[test]
fn chunk_based_reads() {
    let fs = sample();
    let inode = fs.get_inode(NID_CHUNK).unwrap();
    assert_eq!(inode.layout().unwrap(), Layout::ChunkBased);
    assert_eq!(fs.get_inode_block(&inode, 0).unwrap(), b"0123456789".to_vec());
    assert_eq!(kind(fs.get_inode_block(&inode, 4096)), ErrorKind::OutOfRange(1, 1));
    let mut out = vec![0u8; 10];
    assert_eq!(fs.read_inode_range(&inode, 2, &mut out).unwrap(), 8);
    assert_eq!(&out[..8], b"23456789");

    let sparse = fs.get_inode(NID_SPARSE).unwrap();
    assert_eq!(kind(fs.get_inode_block(&sparse, 0)), ErrorKind::CorruptedData);
    assert_eq!(kind(fs.read_inode_range(&sparse, 0, &mut out)), ErrorKind::CorruptedData);

    let indexed = fs.get_inode(NID_INDEXED).unwrap();
    assert_eq!(kind(fs.get_inode_block(&indexed, 0)), ErrorKind::NotSupported);
    let wide = fs.get_inode(NID_WIDE).unwrap();
    match fs.get_inode_block(&wide, 0) {
        Err(Error::CorruptedData(msg)) => assert_eq!(msg, "invalid chunk based format 64"),
        _ => panic!("the chunk format was not refused"),
    }
}

#[test]
fn chunk_geometry() {
    let sb = sample_super_block();
    // Chunks of four blocks, 40000 bytes: three chunks, the last one short.
    let inode = compact(8, 4 << 1, 40000, 2);
    assert_eq!(chunk_address_at(&sb, &inode, 0).unwrap(), 4096 + 32 * 8 + 32);
    assert_eq!(chunk_address_at(&sb, &inode, 16384).unwrap(), 4096 + 32 * 8 + 32 + 4);
    assert_eq!(chunk_address_at(&sb, &inode, 39999).unwrap(), 4096 + 32 * 8 + 32 + 8);
    assert_eq!(kind(chunk_address_at(&sb, &inode, 3 * 16384)), ErrorKind::OutOfRange(3, 3));
    assert_eq!(chunk_range(&sb, &inode, 0, 7).unwrap(), (7 * 4096, 4096));
    assert_eq!(chunk_range(&sb, &inode, 16384 + 4096 + 5, 7).unwrap(), (8 * 4096, 4096));
    assert_eq!(chunk_range(&sb, &inode, 2 * 16384 + 4096, 7).unwrap(), (8 * 4096, 40000 % 4096));
    assert_eq!(kind(chunk_range(&sb, &inode, 0, 0)), ErrorKind::CorruptedData);
    assert_eq!(kind(chunk_range(&sb, &inode, 0, -5)), ErrorKind::CorruptedData);
    assert_eq!(kind(chunk_range(&sb, &inode, 3 * 16384, 7)), ErrorKind::OutOfRange(3, 3));
    assert_eq!(
        chunk_range(&sb, &inode, 16384 - 1, i32::MAX).unwrap(),
        ((i32::MAX as u64 + 3) * 4096, 4096)
    );
    assert_eq!(
        locate(&sb, &inode, 16384).unwrap(),
        Fetch::ChunkAddress { at: 4096 + 32 * 8 + 32 + 4 }
    );
}

#[test]
fn flat_geometry() {
    let sb = sample_super_block();
    let inode = compact(2, 0, 10000, 3);
    assert_eq!(flat_range(&sb, &inode, 0, false).unwrap(), (3 * 4096, 4096));
    assert_eq!(flat_range(&sb, &inode, 4096, false).unwrap(), (4 * 4096, 4096));
    assert_eq!(flat_range(&sb, &inode, 9999, false).unwrap(), (5 * 4096, 10000 - 8192));
    assert_eq!(flat_range(&sb, &inode, 9999, true).unwrap(), (4096 + 64 + 32, 10000 - 8192));
    assert_eq!(flat_range(&sb, &inode, 8191, true).unwrap(), (4 * 4096, 4096));
    assert_eq!(kind(flat_range(&sb, &inode, 3 * 4096, false)), ErrorKind::OutOfRange(3, 3));
    let empty = compact(2, 0, 0, 3);
    assert_eq!(kind(flat_range(&sb, &empty, 0, false)), ErrorKind::OutOfRange(0, 0));
    let far = compact(u64::MAX / 32, 2 << 1, 10, 3);
    assert_eq!(kind(flat_range(&sb, &far, 0, true)), ErrorKind::OutOfBounds);
    let with_attrs = Inode::Extended((
        1,
        InodeExtended { format: 5, xattr_count: 3, mode: 0o100644, size: 10, raw_block_addr: 0 },
    ));
    assert_eq!(with_attrs.xattr_size(), 12 + 8);
    assert_eq!(flat_range(&sb, &with_attrs, 0, true).unwrap(), (4096 + 32 + 64 + 20, 10));
    assert_eq!(count_units(0, 512), 0);
    assert_eq!(count_units(512, 512), 1);
    assert_eq!(count_units(513, 512), 2);
    assert_eq!(power_of_two(0), 1);
    assert_eq!(power_of_two(31), 1 << 31);
    assert_eq!(block_size_for(&sb), 4096);
    assert_eq!(block_offset_in(&sb, u32::MAX), (u32::MAX as u64) << 12);
}

#[test]
fn unsupported_and_unknown_layouts() {
    let fs = sample();
    let packed = fs.get_inode(NID_PACKED).unwrap();
    assert_eq!(packed.layout().unwrap(), Layout::CompressedFull);
    assert_eq!(kind(fs.get_inode_block(&packed, 0)), ErrorKind::NotSupported);
    let compact3 = compact(1, 3 << 1, 10, 0);
    assert_eq!(compact3.layout().unwrap(), Layout::CompressedCompact);
    assert_eq!(kind(locate(fs.super_block(), &compact3, 0)), ErrorKind::NotSupported);
    let odd = fs.get_inode(NID_ODD).unwrap();
    assert_eq!(kind(odd.layout()), ErrorKind::InvalidLayout(5));
    assert_eq!(kind(fs.get_inode_block(&odd, 0)), ErrorKind::InvalidLayout(5));
}

#[test]
fn inodes_of_both_encodings() {
    let fs = sample();
    let hello = fs.get_inode(NID_HELLO).unwrap();
    assert_eq!(
        hello,
        Inode::Compact((
            NID_HELLO,
            InodeCompact { format: 0, xattr_count: 0, mode: 0o100644, size: 10, raw_block_addr: 3 }
        ))
    );
    assert_eq!(hello.size(), 32);
    assert!(hello.is_file());
    assert!(!hello.is_dir());
    let ext = fs.get_inode(NID_EXTENDED).unwrap();
    assert_eq!(
        ext,
        Inode::Extended((
            NID_EXTENDED,
            InodeExtended { format: 1, xattr_count: 0, mode: 0o100644, size: 10, raw_block_addr: 3 }
        ))
    );
    assert_eq!(ext.size(), 64);
    assert_eq!(ext.id(), NID_EXTENDED);
    assert_eq!(ext.raw_block_addr(), 3);
    assert_eq!(ext.format(), 1);
    let mut out = vec![0u8; 10];
    assert_eq!(fs.read_inode_range(&ext, 0, &mut out).unwrap(), 10);
    assert_eq!(out, b"0123456789".to_vec());
    assert!(Inode::is_compact_format(0x0004));
    assert!(!Inode::is_compact_format(0x0005));
    let root = fs.get_inode(NID_ROOT).unwrap();
    assert!(root.is_dir());
    assert!(!root.is_file());
}

#[test]
fn path_resolution_is_repeatable() {
    let fs = sample();
    let first = fs.get_path_inode_str("/hello.txt").unwrap().unwrap();
    let other = fs.get_path_inode_str("/").unwrap().unwrap();
    let second = fs.get_path_inode_str("/hello.txt").unwrap().unwrap();
    assert_eq!(first, second);
    assert_eq!(first.id(), NID_HELLO);
    assert_eq!(other.id(), NID_ROOT);
    for path in ["hello.txt", "//hello.txt", "./hello.txt", "/./hello.txt/", "/hello.txt/."] {
        assert_eq!(fs.get_path_inode(path).unwrap().unwrap().id(), NID_HELLO);
    }
    assert_eq!(fs.get_path_inode_str("").unwrap().unwrap().id(), NID_ROOT);
    assert_eq!(fs.resolve_nid(b"/hello.txt").unwrap(), Some(NID_HELLO));
}

#[test]
fn missing_paths_are_not_found() {
    let fs = sample();
    assert_eq!(fs.get_path_inode_str("/absent").unwrap(), None);
    assert_eq!(fs.get_path_inode_str("/hello").unwrap(), None);
    assert_eq!(fs.get_path_inode_str("/hello.txt2").unwrap(), None);
    match fs.open_path("/absent") {
        Err(Error::PathNotFound(path)) => assert_eq!(path, "/absent"),
        _ => panic!("the path was found"),
    }
    assert_eq!(kind(fs.open("/absent")), ErrorKind::PathNotFound);
    assert_eq!(kind(fs.open_str("/absent")), ErrorKind::PathNotFound);
    // An empty directory has no block to look into.
    let mut image = sample_image();
    put_compact(&mut image, NID_ROOT, 0, 0o040755, 0, DIR_BLOCK as u32);
    let fs = EroFS::from_image(image, IMAGE_LEN as u64).unwrap();
    assert_eq!(fs.get_path_inode_str("/hello.txt").unwrap(), None);
}

#[test]
fn directories_do_not_open_as_files() {
    let fs = sample();
    assert_eq!(kind(fs.open_path("/")), ErrorKind::NotAFile);
    let root = fs.get_inode(NID_ROOT).unwrap();
    match fs.open_inode_file(root) {
        Err(Error::NotAFile(msg)) => assert_eq!(msg, "inode 0 is not a regular file"),
        _ => panic!("a directory was opened as a file"),
    }
    let hello = fs.get_inode(NID_HELLO).unwrap();
    let file = fs.open_inode_file(hello).unwrap();
    assert_eq!(*file.inode(), hello);
    assert_eq!(*file.fs().super_block(), *fs.super_block());
    let copy = fs.clone();
    assert_eq!(copy.block_size(), fs.block_size());
    assert_eq!(copy.get_inode(NID_HELLO).unwrap(), hello);
}

fn dir_block(entries: &[(u64, u8, &[u8])], len: usize) -> Vec<u8> {
    let mut block = vec![0u8; len];
    let mut name_at = 12 * entries.len();
    for (i, (nid, file_type, name)) in entries.iter().enumerate() {
        put(&mut block, 12 * i, &nid.to_le_bytes());
        put(&mut block, 12 * i + 8, &(name_at as u16).to_le_bytes());
        block[12 * i + 10] = *file_type;
        put(&mut block, name_at, name);
        name_at += name.len();
    }
    block
}

#[test]
fn directory_lookup() {
    let block = dir_block(&[(5, 2, b"."), (6, 2, b".."), (7, 1, b"a"), (9, 1, b"ab")], 64);
    assert_eq!(find_nodeid_by_name(b".", &block).unwrap(), Some(5));
    assert_eq!(find_nodeid_by_name(b"..", &block).unwrap(), Some(6));
    assert_eq!(find_nodeid_by_name(b"a", &block).unwrap(), Some(7));
    assert_eq!(find_nodeid_by_name(b"ab", &block).unwrap(), Some(9));
    assert_eq!(find_nodeid_by_name(b"abc", &block).unwrap(), None);
    assert_eq!(find_nodeid_by_name(b"b", &block).unwrap(), None);
    assert_eq!(find_nodeid_by_name(b"", &block).unwrap(), None);
    let exact = dir_block(&[(7, 1, b"a"), (9, 1, b"ab")], 27);
    assert_eq!(find_nodeid_by_name(b"ab", &exact).unwrap(), Some(9));
    assert_eq!(find_nodeid_by_name(b"a", &[0u8; 4]).unwrap(), None);
    assert_eq!(kind(find_nodeid_by_name(b"a", &[0u8; 12])), ErrorKind::CorruptedData);
    let mut bad = dir_block(&[(7, 9, b"a")], 32);
    assert_eq!(kind(find_nodeid_by_name(b"a", &bad)), ErrorKind::InvalidDirentFileType(9));
    bad[10] = 1;
    bad[8] = 40;
    assert_eq!(kind(find_nodeid_by_name(b"a", &bad)), ErrorKind::CorruptedData);
    let mut crossed = dir_block(&[(7, 1, b"abc"), (9, 1, b"d")], 64);
    crossed[12 + 8] = 24;
    crossed[8] = 26;
    assert_eq!(kind(find_nodeid_by_name(b"abc", &crossed)), ErrorKind::CorruptedData);
}

#[test]
fn little_endian_numbers() {
    let bytes = [0x01u8, 0x02, 0x03, 0x04, 0x05, 0x06, 0x07, 0x08, 0xFF, 0xFF, 0xFF, 0xFF];
    assert_eq!(read_le_u16(&bytes, 1), 0x0302);
    assert_eq!(read_le_u32(&bytes, 0), 0x04030201);
    assert_eq!(read_le_u64(&bytes, 0), 0x0807060504030201);
    assert_eq!(read_le_i32(&bytes, 8), -1);
    assert_eq!(read_le_i32(&bytes, 0), 0x04030201);
    assert_eq!(read_le_i32(&[0, 0, 0, 0x80], 0), i32::MIN);
    assert_eq!(read_le_i32(&[0xFF, 0xFF, 0xFF, 0x7F], 0), i32::MAX);
}

#[test]
fn truncated_structures_are_out_of_bounds() {
    assert_eq!(kind(SuperBlock::read_from(&[0u8; 127])), ErrorKind::OutOfBounds);
    assert_eq!(kind(InodeCompact::read_from(&[0u8; 31])), ErrorKind::OutOfBounds);
    assert_eq!(kind(InodeExtended::read_from(&[0u8; 63])), ErrorKind::OutOfBounds);
    assert_eq!(SuperBlock::size(), 128);
    assert_eq!(InodeCompact::size(), 32);
    assert_eq!(InodeExtended::size(), 64);
    let image = sample_image();
    assert_eq!(SuperBlock::read_from(&image[1024..1152]).unwrap(), sample_super_block());
}

#[test]
fn chunk_format_bits() {
    let f = ChunkBasedFormat::new(0x23);
    assert!(f.is_valid());
    assert!(f.is_indexes());
    assert_eq!(f.chunk_size_bits(), 3);
    let g = ChunkBasedFormat::new(0x1F);
    assert!(g.is_valid());
    assert!(!g.is_indexes());
    assert_eq!(g.chunk_size_bits(), 31);
    assert!(!ChunkBasedFormat::new(0x40).is_valid());
}

#[test]
fn memory_store_reads() {
    let store: Vec<u8> = vec![1, 2, 3, 4, 5];
    assert_eq!(store.read_at(1, 3).unwrap(), vec![2, 3, 4]);
    assert_eq!(store.read_at(3, 10).unwrap(), vec![4, 5]);
    assert_eq!(store.read_at(5, 10).unwrap(), Vec::<u8>::new());
    assert_eq!(store.read_at(u64::MAX, 1).unwrap(), Vec::<u8>::new());
    assert_eq!(kind(read_exact_at(&store, 100, 3, 3)), ErrorKind::OutOfBounds);
}

#[test]
fn error_kinds() {
    assert_eq!(Error::OutOfRange(3, 2).kind(), ErrorKind::OutOfRange(3, 2));
    assert_eq!(Error::NotADirectory("x".to_string()).kind(), ErrorKind::NotADirectory);
    assert_eq!(Error::InvalidLayout(6).kind(), ErrorKind::InvalidLayout(6));
    assert_eq!(Error::PathNotFound("p".to_string()).kind(), ErrorKind::PathNotFound);
}

#[test]
fn error_messages() {
    let text = |e: Error| e.message();
    assert_eq!(text(Error::InvalidSuperblock("bad".to_string())), "invalid super block: bad");
    assert_eq!(text(Error::InvalidDirentFileType(9)), "invalid dirent file type: 9");
    assert_eq!(text(Error::InvalidLayout(7)), "invalid layout: 7");
    assert_eq!(text(Error::PathNotFound("/a/b".to_string())), "path not found: /a/b");
    assert_eq!(text(Error::NotAFile("inode 3".to_string())), "not a file: inode 3");
    assert_eq!(text(Error::NotADirectory("inode 4".to_string())), "not a directory: inode 4");
    assert_eq!(text(Error::OutOfBounds("read".to_string())), "out of bounds: read");
    assert_eq!(text(Error::OutOfRange(12, 5)), "out of range 12 of 5");
    assert_eq!(text(Error::NotSupported("this".to_string())), "this not supported yet");
    assert_eq!(text(Error::CorruptedData("chunk".to_string())), "corrupted data: chunk");
    let fs = sample();
    match fs.open_path("/") {
        Err(e) => assert_eq!(e.message(), "not a file: inode 0 is not a regular file"),
        Ok(_) => panic!("a directory was opened as a file"),
    }
}
