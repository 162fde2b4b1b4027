//! A handle on one regular file of an image.
use vstd::prelude::*;
use crate::error::{Error, ErrorKind};
use crate::image::ReadAt;
use crate::types::Inode;
use crate::filesystem::EroFS;

verus! {

/// An inode, as it was when the file was opened, and the image it lives in.
pub struct File<R: ReadAt> {
    inode: Inode,
    fs: EroFS<R>,
}

impl<R: ReadAt> File<R> {
    /// The inode the file was opened with.
    pub closed spec fn snapshot(&self) -> Inode {
        self.inode
    }

    /// The image the file lives in.
    pub closed spec fn engine(&self) -> EroFS<R> {
        self.fs
    }

    /// A handle on `inode` within `fs`.
    pub fn new(inode: Inode, fs: EroFS<R>) -> (f: Self)
        ensures
            f.snapshot() == inode,
            f.engine() == fs,
    {
        File { inode, fs }
    }

    /// The inode, as it was when the file was opened.
    pub fn inode(&self) -> (inode: &Inode)
        ensures
            *inode == self.snapshot(),
    {
        &self.inode
    }

    /// Reads the file's data from `offset` on into `out`: the engine's ranged
    /// read on the file's inode.
    pub fn read_at(&self, offset: usize, out: &mut Vec<u8>) -> (r: Result<usize, Error>)
        requires
            self.engine().wf(),
        ensures
            final(out)@.len() == old(out)@.len(),
            match r {
                Ok(n) => {
                    &&& n <= old(out)@.len()
                    &&& self.engine()@.range(self.snapshot(), offset as int, old(out)@.len() as int) == Ok::<
                        Seq<u8>,
                        ErrorKind,
                    >(final(out)@.subrange(0, n as int))
                    &&& final(out)@.subrange(n as int, old(out)@.len() as int) == old(
                        out,
                    )@.subrange(n as int, old(out)@.len() as int)
                },
                Err(e) => self.engine().steady() ==> self.engine()@.range(
                    self.snapshot(),
                    offset as int,
                    old(out)@.len() as int,
                ) == Err::<Seq<u8>, ErrorKind>(e.kind()),
            },
    {
        self.fs.read_inode_range(&self.inode, offset, out)
    }

    /// The image the file lives in.
    pub fn fs(&self) -> (fs: &EroFS<R>)
        ensures
            *fs == self.engine(),
    {
        &self.fs
    }

    /// Number of bytes of the file.
    pub fn size(&self) -> (n: u64)
        ensures
            n == self.snapshot().data_size(),
    {
        self.inode.data_size()
    }
}

} // verus!
