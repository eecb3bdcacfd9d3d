use vstd::prelude::*;

verus! {

/// One fixed-size memory page: an owned byte buffer together with the byte
/// offset of its first byte within the flat address space that the owning
/// pager manages.
#[derive(Debug, Clone)]
pub struct Page {
    /// Byte offset of the start of this page relative to all other pages.
    offset: usize,
    /// The page's bytes; exactly one page size long.
    buffer: Vec<u8>,
}

impl View for Page {
    type V = Seq<u8>;

    closed spec fn view(&self) -> Seq<u8> {
        self.buffer@
    }
}

impl Page {
    /// The byte offset recorded at construction.
    pub closed spec fn spec_offset(&self) -> usize {
        self.offset
    }

    /// Make the page for slot `i`, taking ownership of its buffer. The
    /// offset is fixed here, once, as `i` times the buffer's length.
    pub fn new(i: usize, buf: Vec<u8>) -> (page: Page)
        requires
            i * buf@.len() <= usize::MAX,
        ensures
            page@ == buf@,
            page.spec_offset() == i * buf@.len(),
    {
        let offset = i * buf.len();
        Page { offset, buffer: buf }
    }

    /// Byte offset for the start of this page relative to all other pages.
    pub fn offset(&self) -> (r: usize)
        ensures
            r == self.spec_offset(),
    {
        self.offset
    }

    /// The number of bytes the page holds.
    pub fn len(&self) -> (r: usize)
        ensures
            r == self@.len(),
    {
        self.buffer.len()
    }

    /// Read the byte at index `i`.
    pub fn get_byte(&self, i: usize) -> (r: u8)
        requires
            i < self@.len(),
        ensures
            r == self@[i as int],
    {
        self.buffer[i]
    }

    /// Overwrite the byte at index `i`. The page's length and offset do not
    /// change.
    pub fn set_byte(&mut self, i: usize, value: u8)
        requires
            i < old(self)@.len(),
        ensures
            final(self)@ == old(self)@.update(i as int, value),
            final(self).spec_offset() == old(self).spec_offset(),
    {
        let slot = &mut self.buffer[i];
        *slot = value;
    }

    /// The page's bytes as a read-only slice.
    pub fn as_slice(&self) -> (r: &[u8])
        ensures
            r@ == self@,
    {
        self.buffer.as_slice()
    }
}

} // verus!
