//! File reader implementations.

use vstd::prelude::*;
use crate::bytes::copy_range;
use crate::error::Error;
use crate::metadata::types::{window, FileReader};
use crate::text::owned;

verus! {

/// A [`FileReader`] over an in-memory buffer (for testing or in-memory data).
#[derive(Debug, Clone)]
pub struct BufferReader {
    data: Vec<u8>,
    extension: String,
}

impl BufferReader {
    pub fn new(data: Vec<u8>, extension: &str) -> (r: BufferReader)
        ensures
            r.content() == data@,
            r.file_extension() == extension@,
    {
        BufferReader { data, extension: owned(extension) }
    }
}

impl FileReader for BufferReader {
    closed spec fn content(&self) -> Seq<u8> {
        self.data@
    }

    closed spec fn file_extension(&self) -> Seq<char> {
        self.extension@
    }

    open spec fn reads_succeed(&self) -> bool {
        true
    }

    fn size(&self) -> (r: u64) {
        self.data.len() as u64
    }

    fn extension(&self) -> (r: &str) {
        self.extension.as_str()
    }

    fn read(&self, offset: u64, length: u64) -> (r: Result<Vec<u8>, Error>) {
        let len = self.data.len();
        let start: usize = if offset < len as u64 { offset as usize } else { len };
        let end: usize = if length < (len - start) as u64 { start + length as usize } else { len };
        let r = copy_range(self.data.as_slice(), start, end);
        assert(r@ == window(self.data@, offset as int, length as int));
        Ok(r)
    }
}

/// Create a [`FileReader`] from a buffer.
pub fn create_buffer_reader(data: Vec<u8>, extension: &str) -> (r: BufferReader)
    ensures
        r.content() == data@,
        r.file_extension() == extension@,
{
    BufferReader::new(data, extension)
}

} // verus!
