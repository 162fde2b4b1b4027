//! The backing store of an image, and the one primitive every read goes
//! through.
use vstd::prelude::*;
use crate::error::{Error, ErrorKind};

verus! {

/// A random-access byte source.
///
/// A store stands for a fixed sequence of bytes, its `contents`. A read may
/// fail, or hand back fewer bytes than were asked for; what it does hand back
/// is a piece of the contents.
pub trait ReadAt {
    /// The bytes the store holds. A store that does not say holds some
    /// sequence of bytes of which nothing is known.
    open spec fn contents(&self) -> Seq<u8> {
        arbitrary()
    }

    /// Whether every read succeeds and makes progress while bytes are left. A
    /// store that does not say is not taken to.
    open spec fn steady(&self) -> bool {
        false
    }

    /// Reads at most `len` bytes that start at `offset`. No byte back, with
    /// `len` above zero, means that the data has ended.
    fn read_at(&self, offset: u64, len: usize) -> (r: Result<Vec<u8>, Error>)
        ensures
            r matches Ok(bytes) ==> bytes@.len() <= len,
            r matches Ok(bytes) ==> bytes@.len() > 0 ==> {
                &&& offset + bytes@.len() <= self.contents().len()
                &&& bytes@ == self.contents().subrange(offset as int, offset + bytes@.len())
            },
            self.steady() ==> r is Ok,
            self.steady() && len > 0 && offset < self.contents().len() ==> (r matches Ok(bytes)
                && bytes@.len() > 0),
    ;
}

/// An image held in memory: reads never fail and return all that is there.
impl ReadAt for Vec<u8> {
    /// The bytes of the vector.
    open spec fn contents(&self) -> Seq<u8> {
        self@
    }

    /// Reads from memory never fail.
    open spec fn steady(&self) -> bool {
        true
    }

    /// Copies what the vector holds of the range asked for.
    fn read_at(&self, offset: u64, len: usize) -> (r: Result<Vec<u8>, Error>)
        ensures
            r matches Ok(bytes) && bytes@.len() == (if offset >= self@.len() {
                0int
            } else if self@.len() - offset < len {
                self@.len() - offset
            } else {
                len as int
            }),
    {
        let mut bytes: Vec<u8> = Vec::new();
        if offset >= self.len() as u64 {
            return Ok(bytes);
        }
        let start: usize = offset as usize;
        let total: usize = self.len();
        let left: usize = total - start;
        let count: usize = if left < len {
            left
        } else {
            len
        };
        let mut i: usize = 0;
        while i < count
            invariant
                i <= count,
                start + count <= total,
                total == self@.len(),
                bytes@ == self@.subrange(start as int, start + i),
            decreases count - i,
        {
            bytes.push(self[start + i]);
            i += 1;
        }
        Ok(bytes)
    }
}

/// What a read of `len` bytes at `offset` yields from a store that holds
/// `contents` and is declared `image_size` bytes long: the bytes, if the range
/// ends within the declared size and, unless it is empty, within the contents.
pub open spec fn spec_read_exact(contents: Seq<u8>, image_size: u64, offset: u64, len: nat) -> Result<
    Seq<u8>,
    ErrorKind,
> {
    if offset + len > image_size {
        Err(ErrorKind::OutOfBounds)
    } else if len == 0 {
        Ok(Seq::empty())
    } else if offset + len > contents.len() {
        Err(ErrorKind::OutOfBounds)
    } else {
        Ok(contents.subrange(offset as int, offset + len))
    }
}

/// An executable result follows a specified one: on success it is the
/// specified value; on failure, if the store is steady, the specified value is
/// an error of the same kind.
pub open spec fn follows<T>(steady: bool, r: Result<T, Error>, s: Result<T, ErrorKind>) -> bool {
    match r {
        Ok(v) => s == Ok::<T, ErrorKind>(v),
        Err(e) => steady ==> s == Err::<T, ErrorKind>(e.kind()),
    }
}

/// As `follows`, for a buffer of bytes and its view.
pub open spec fn follows_bytes(steady: bool, r: Result<Vec<u8>, Error>, s: Result<
    Seq<u8>,
    ErrorKind,
>) -> bool {
    match r {
        Ok(v) => s == Ok::<Seq<u8>, ErrorKind>(v@),
        Err(e) => steady ==> s == Err::<Seq<u8>, ErrorKind>(e.kind()),
    }
}

/// Reads exactly `len` bytes at `offset`, asking the store again after each
/// short read. A range that ends beyond the declared size is refused before
/// the store is asked; a read that yields no byte while some are still owed is
/// the end of the data, and out of bounds as well.
pub fn read_exact_at<R: ReadAt>(reader: &R, image_size: u64, offset: u64, len: usize) -> (r: Result<
    Vec<u8>,
    Error,
>)
    ensures
        offset + len > image_size ==> r matches Err(Error::OutOfBounds(_)),
        follows_bytes(
            reader.steady(),
            r,
            spec_read_exact(reader.contents(), image_size, offset, len as nat),
        ),
{
    let end: u64 = match offset.checked_add(len as u64) {
        Some(end) => end,
        None => {
            return Err(Error::OutOfBounds("read range overflow".to_owned()));
        },
    };
    if end > image_size {
        return Err(Error::OutOfBounds("read beyond image size".to_owned()));
    }
    let mut out: Vec<u8> = Vec::new();
    while out.len() < len
        invariant
            out@.len() <= len,
            offset + len <= image_size,
            out@.len() > 0 ==> offset + out@.len() <= reader.contents().len(),
            out@.len() > 0 ==> out@ == reader.contents().subrange(
                offset as int,
                offset + out@.len(),
            ),
        decreases len - out@.len(),
    {
        let filled: usize = out.len();
        let mut piece: Vec<u8> = match reader.read_at(offset + filled as u64, len - filled) {
            Ok(piece) => piece,
            Err(e) => {
                return Err(e);
            },
        };
        if piece.len() == 0 {
            return Err(Error::OutOfBounds("unexpected EOF from backing reader".to_owned()));
        }
        out.append(&mut piece);
        assert(out@ == reader.contents().subrange(offset as int, offset + out@.len()));
    }
    proof {
        if len == 0 {
            assert(out@ == Seq::<u8>::empty());
        }
    }
    Ok(out)
}

} // verus!
