use erofs::error::Error;
use erofs::filesystem::EroFS;
use erofs::image::{read_exact_at, ReadAt};
use erofs::types::MAGIC_NUMBER;

/// A store that hands out at most three bytes for each read.
struct Trickle {
    bytes: Vec<u8>,
}

impl ReadAt for Trickle {
    fn read_at(&self, offset: u64, len: usize) -> Result<Vec<u8>, Error> {
        let short = if len < 3 { len } else { 3 };
        self.bytes.read_at(offset, short)
    }
}

/// A store whose every read fails.
struct Broken;

impl ReadAt for Broken {
    fn read_at(&self, _offset: u64, _len: usize) -> Result<Vec<u8>, Error> {
        Err(Error::NotSupported("broken store".to_string()))
    }
}

fn tiny_image() -> Vec<u8> {
    let mut image = vec![0u8; 8192];
    image[1024..1028].copy_from_slice(&MAGIC_NUMBER.to_le_bytes());
    image[1024 + 12] = 9;
    image[1024 + 14] = 1;
    image[1024 + 40] = 8;
    // The one inode, with node id 1: a flat plain file of 600 bytes in block 10.
    let at = 8 * 512 + 32;
    image[at + 4..at + 6].copy_from_slice(&0o100644u16.to_le_bytes());
    image[at + 8..at + 12].copy_from_slice(&600u32.to_le_bytes());
    image[at + 16] = 10;
    for i in 0..600 {
        image[5120 + i] = (i % 200) as u8;
    }
    image
}

#[test]
fn short_reads_are_asked_again() {
    let image = tiny_image();
    let store = Trickle { bytes: image.clone() };
    assert_eq!(read_exact_at(&store, 8192, 5120, 100).unwrap(), image[5120..5220].to_vec());
    let fs = EroFS::from_image(store, 8192).unwrap();
    assert_eq!(fs.block_size(), 512);
    let inode = fs.get_inode(1).unwrap();
    let mut out = vec![0u8; 700];
    assert_eq!(fs.read_inode_range(&inode, 0, &mut out).unwrap(), 600);
    assert_eq!(&out[..600], &image[5120..5720]);
}

#[test]
fn a_store_that_ends_early_is_out_of_bounds() {
    let store = Trickle { bytes: vec![0u8; 1100] };
    match read_exact_at(&store, 4096, 1024, 128) {
        Err(Error::OutOfBounds(msg)) => assert_eq!(msg, "unexpected EOF from backing reader"),
        _ => panic!("the read went through"),
    }
    assert!(matches!(EroFS::from_image(store, 4096), Err(Error::OutOfBounds(_))));
}

#[test]
fn a_failing_store_fails_the_read() {
    assert!(matches!(read_exact_at(&Broken, 4096, 0, 4), Err(Error::NotSupported(_))));
    assert!(matches!(read_exact_at(&Broken, 4096, 4095, 4), Err(Error::OutOfBounds(_))));
    assert_eq!(read_exact_at(&Broken, 4096, 0, 0).unwrap(), Vec::<u8>::new());
    assert!(matches!(EroFS::from_image(Broken, 4096), Err(Error::NotSupported(_))));
}
