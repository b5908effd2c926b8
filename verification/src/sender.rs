//! The sender's decision logic: input validation, resolution of the name
//! under which the file is announced, and the wire frame that precedes the
//! content. Reading the file and talking to the socket stay with the caller.

use vstd::prelude::*;

use crate::codec::append_range;
use crate::codec::encode_frame;
use crate::codec::frame_bytes;
use crate::errors::TransferError;
use crate::paths::SLASH;

verus! {

/// Accepts the input path only when it exists and names a regular file;
/// anything else is rejected before any connection is attempted.
pub fn validate_input(exists: bool, is_file: bool) -> (r: Result<(), TransferError>)
    ensures
        exists && is_file ==> r == Ok::<(), TransferError>(()),
        !(exists && is_file) ==> r == Err::<(), TransferError>(TransferError::InvalidInput),
{
    if exists && is_file {
        Ok(())
    } else {
        Err(TransferError::InvalidInput)
    }
}

/// Index of the first byte after the last `/` of `p`; 0 when `p` has none.
pub open spec fn cut_index(p: Seq<u8>) -> int
    decreases p.len(),
{
    if p.len() == 0 {
        0
    } else if p.last() == SLASH {
        p.len() as int
    } else {
        cut_index(p.drop_last())
    }
}

/// The final path component of `p`: the bytes after its last `/`.
pub open spec fn last_component(p: Seq<u8>) -> Seq<u8> {
    p.skip(cut_index(p))
}

/// Extracts the final path component: everything after the last `/`, or the
/// whole path when it has none.
pub fn base_name(path: &Vec<u8>) -> (r: Vec<u8>)
    ensures
        r@ == last_component(path@),
{
    let len = path.len();
    proof {
        assert(path@.take(len as int) =~= path@);
    }
    let mut i: usize = len;
    while i > 0
        invariant
            i <= len,
            len == path@.len(),
            cut_index(path@) == cut_index(path@.take(i as int)),
        decreases i,
    {
        if path[i - 1] == SLASH {
            proof {
                assert(cut_index(path@.take(i as int)) == i);
            }
            let mut r: Vec<u8> = Vec::new();
            append_range(&mut r, path, i, len);
            proof {
                assert(path@.subrange(i as int, len as int) =~= last_component(path@));
            }
            return r;
        }
        proof {
            assert(path@.take(i as int).drop_last() =~= path@.take(i as int - 1));
        }
        i -= 1;
    }
    let mut r: Vec<u8> = Vec::new();
    append_range(&mut r, path, 0, len);
    proof {
        assert(path@.subrange(0, len as int) =~= last_component(path@));
    }
    r
}

/// What the sender announces about the file it is about to stream: the
/// final path component as the filename, and the size the filesystem
/// reported. Built once per send, immediately before the transfer.
#[derive(Debug)]
pub struct FileDescriptor {
    /// The name the receiver will store the file under.
    pub name: Vec<u8>,
    /// The content size in bytes, as read from filesystem metadata.
    pub size: u64,
}

impl FileDescriptor {
    /// Describes the file at `path` whose metadata reported `size` bytes.
    pub fn new(path: &Vec<u8>, size: u64) -> (d: FileDescriptor)
        ensures
            d.name@ == last_component(path@),
            d.size == size,
    {
        FileDescriptor { name: base_name(path), size }
    }

    /// The bytes written before the content: the 24-byte header, then the
    /// raw filename.
    pub fn frame(&self) -> (out: Vec<u8>)
        ensures
            out@ == frame_bytes(self.name@, self.size),
    {
        encode_frame(&self.name, self.size)
    }
}

} // verus!
