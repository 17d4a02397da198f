//! An open file: its bytes, its path and the flag a watcher raises when the
//! file changes on disk.

use vstd::prelude::*;

verus! {

/// Why a file could not be read.
#[derive(Clone, Copy, Debug, PartialEq, Eq, Structural)]
pub enum IoError {
    NotFound,
    PermissionDenied,
    TruncatedRead,
    Other,
}

/// A file held in memory. The buffer is only ever replaced as a whole.
#[derive(Debug)]
pub struct BinaryFile {
    pub path: String,
    pub bytes: Vec<u8>,
    pub modified: bool,
}

impl View for BinaryFile {
    type V = Seq<u8>;

    open spec fn view(&self) -> Seq<u8> {
        self.bytes@
    }
}

impl BinaryFile {
    /// A file at `path` holding `bytes`, not marked as changed.
    pub fn new(path: String, bytes: Vec<u8>) -> (r: Self)
        ensures
            r.path == path,
            r.bytes == bytes,
            !r.modified,
    {
        BinaryFile { path, bytes, modified: false }
    }

    /// Makes a file from the outcome of reading `path`: the file when the read
    /// succeeded, the read's error otherwise.
    pub fn load(path: String, read: Result<Vec<u8>, IoError>) -> (r: Result<Self, IoError>)
        ensures
            match read {
                Ok(bytes) => r is Ok && r->Ok_0.path == path && r->Ok_0.bytes == bytes
                    && !r->Ok_0.modified,
                Err(e) => r == Err::<Self, IoError>(e),
            },
    {
        match read {
            Ok(bytes) => Ok(BinaryFile::new(path, bytes)),
            Err(e) => Err(e),
        }
    }

    /// Takes the outcome of reading the file again. A successful read replaces
    /// the whole buffer; a failed one leaves the file as it was.
    pub fn reload(&mut self, read: Result<Vec<u8>, IoError>) -> (r: Result<(), IoError>)
        ensures
            final(self).path == old(self).path,
            final(self).modified == old(self).modified,
            match read {
                Ok(bytes) => r is Ok && final(self).bytes == bytes,
                Err(e) => r == Err::<(), IoError>(e) && final(self).bytes == old(self).bytes,
            },
    {
        match read {
            Ok(bytes) => {
                self.bytes = bytes;
                Ok(())
            },
            Err(e) => Err(e),
        }
    }

    /// Number of bytes held.
    pub fn len(&self) -> (r: usize)
        ensures
            r == self@.len(),
    {
        self.bytes.len()
    }

    /// Records that the file changed on disk.
    pub fn mark_modified(&mut self)
        ensures
            final(self).modified,
            final(self).path == old(self).path,
            final(self).bytes == old(self).bytes,
    {
        self.modified = true;
    }

    /// Reads the change flag and lowers it.
    pub fn take_modified(&mut self) -> (r: bool)
        ensures
            r == old(self).modified,
            !final(self).modified,
            final(self).path == old(self).path,
            final(self).bytes == old(self).bytes,
    {
        let was = self.modified;
        self.modified = false;
        was
    }
}

/// The byte a file holds at `offset`, if it reaches that far.
pub open spec fn byte_at(file: Seq<u8>, offset: int) -> Option<u8> {
    if 0 <= offset < file.len() {
        Some(file[offset])
    } else {
        None
    }
}

} // verus!
