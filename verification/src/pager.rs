use crate::iter::Iter;
use crate::page::Page;
use vstd::arithmetic::div_mod::lemma_fundamental_div_mod;
use vstd::arithmetic::div_mod::lemma_fundamental_div_mod_converse;
use vstd::arithmetic::mul::lemma_mul_inequality;
use vstd::arithmetic::mul::lemma_mul_is_commutative;
use vstd::pervasive::unreached;
use vstd::prelude::*;

verus! {

/// A page buffer of `n` zero bytes, as a mathematical sequence.
pub open spec fn zero_page(n: nat) -> Seq<u8> {
    Seq::new(n, |j: int| 0u8)
}

/// Whether every byte of `s` is zero.
pub open spec fn is_zero_seq(s: Seq<u8>) -> bool {
    forall|j: int| 0 <= j < s.len() ==> s[j] == 0u8
}

/// Chunk `i` of a flat byte image: the `page_size` bytes that follow a
/// header of `off` bytes and `i` whole chunks.
pub open spec fn chunk_of(bytes: Seq<u8>, off: int, page_size: int, i: int) -> Seq<u8> {
    bytes.subrange(off + i * page_size, off + i * page_size + page_size)
}

/// What rebuilding from a flat byte image leaves in logical slot `i`: an
/// all-zero chunk is elided into an absent slot, and any other chunk
/// becomes a page holding exactly that chunk's bytes, at byte offset `i`
/// times the page size.
pub open spec fn restored_slot(
    bytes: Seq<u8>,
    off: int,
    page_size: int,
    slot: Option<Page>,
    i: int,
) -> bool {
    if is_zero_seq(chunk_of(bytes, off, page_size, i)) {
        slot is None
    } else {
        &&& slot matches Some(pg)
        &&& pg@ == chunk_of(bytes, off, page_size, i)
        &&& pg.spec_offset() == i * page_size
    }
}

/// The flat byte image of a sequence of logical slots: the pages' buffers
/// laid end to end in slot order, with `page_size` zero bytes standing in
/// for each absent slot.
pub open spec fn flatten(slots: Seq<Option<Page>>, page_size: nat) -> Seq<u8> {
    Seq::new(
        slots.len() * page_size,
        |k: int| match slots[k / page_size as int] {
            Some(pg) => pg@[k % page_size as int],
            None => 0u8,
        },
    )
}

/// Round trip through a flat byte image. Flattening a pager's slots gives
/// a whole number of chunks, and rebuilding from that image restores
/// exactly the slots whose page held at least one nonzero byte, with the
/// same bytes; an absent slot, or a page of only zeros, comes back absent.
/// The last conclusion speaks of any slot value that satisfies
/// `restored_slot`, which is what `Pager::from_bytes` guarantees of every
/// slot it rebuilds.
pub proof fn lemma_flatten_round_trip(slots: Seq<Option<Page>>, page_size: nat)
    requires
        page_size > 0,
        forall|i: int|
            0 <= i < slots.len() ==> (#[trigger] slots[i] matches Some(pg) ==> pg@.len()
                == page_size),
    ensures
        (flatten(slots, page_size).len() as int) % (page_size as int) == 0,
        (flatten(slots, page_size).len() as int) / (page_size as int) == slots.len(),
        forall|i: int|
            0 <= i < slots.len() ==> #[trigger] chunk_of(
                flatten(slots, page_size),
                0,
                page_size as int,
                i,
            ) == (match slots[i] {
                Some(pg) => pg@,
                None => zero_page(page_size),
            }),
        forall|i: int, slot: Option<Page>|
            0 <= i < slots.len() && #[trigger] restored_slot(
                flatten(slots, page_size),
                0,
                page_size as int,
                slot,
                i,
            ) ==> match slots[i] {
                Some(pg) => (if is_zero_seq(pg@) {
                    slot is None
                } else {
                    slot matches Some(rp) && rp@ == pg@
                }),
                None => slot is None,
            },
{
    let fl = flatten(slots, page_size);
    let ps = page_size as int;
    let n = slots.len() as int;
    lemma_mul_is_commutative(n, ps);
    lemma_fundamental_div_mod_converse(n * ps, ps, n, 0);
    assert forall|i: int| 0 <= i < n implies #[trigger] chunk_of(fl, 0, ps, i) == (match slots[i] {
        Some(pg) => pg@,
        None => zero_page(page_size),
    }) by {
        lemma_mul_inequality(0, i, ps);
        lemma_mul_inequality(i + 1, n, ps);
        assert((i + 1) * ps == i * ps + ps) by (nonlinear_arith);
        let target = (match slots[i] {
            Some(pg) => pg@,
            None => zero_page(page_size),
        });
        assert forall|k: int| 0 <= k < ps implies chunk_of(fl, 0, ps, i)[k] == target[k] by {
            lemma_fundamental_div_mod_converse(i * ps + k, ps, i, k);
        };
        assert(chunk_of(fl, 0, ps, i) =~= target);
    };
    assert forall|i: int, slot: Option<Page>|
        0 <= i < slots.len() && #[trigger] restored_slot(fl, 0, ps, slot, i) implies match slots[i] {
        Some(pg) => (if is_zero_seq(pg@) {
            slot is None
        } else {
            slot matches Some(rp) && rp@ == pg@
        }),
        None => slot is None,
    } by {
        assert(is_zero_seq(zero_page(page_size)));
    };
}

/// The number of leading header bytes that a rebuild skips: the given
/// offset, or zero when none was given.
pub open spec fn header_len(offset: Option<usize>) -> int {
    match offset {
        Some(o) => o as int,
        None => 0int,
    }
}

/// Why a pager could not be rebuilt from a flat byte image.
#[derive(Clone, Copy, Debug, PartialEq, Eq, Structural)]
pub enum RestoreError {
    /// The image, after the skipped header, is not a whole number of
    /// pages: `len` is the number of bytes after the header, which is not
    /// a multiple of `page_size`.
    SizeMismatch { len: usize, page_size: usize },
}

/// A sparse, growable array of optional fixed-size pages, indexed by page
/// number.
///
/// The pager's abstract value (its view) is the sequence of its logical
/// slots, one per page number from zero up to its length; each slot holds
/// the page allocated there, or nothing. The length is one past the highest
/// page number ever allocated, so unpopulated holes below it count toward
/// it, and it never decreases. Backing capacity beyond the length is
/// invisible in the view and never holds a page.
#[derive(Debug)]
pub struct Pager {
    /// The size in bytes of every page this pager owns.
    page_size: usize,
    /// The backing slots; their count only grows, by doubling.
    pages: Vec<Option<Page>>,
    /// One past the highest page number ever allocated.
    length: usize,
}

impl View for Pager {
    type V = Seq<Option<Page>>;

    closed spec fn view(&self) -> Seq<Option<Page>> {
        Seq::new(self.length as nat, |i: int| self.pages@[i])
    }
}

impl Pager {
    /// The page size fixed at construction.
    pub closed spec fn spec_page_size(&self) -> usize {
        self.page_size
    }

    /// Internal well-formedness: the backing slots cover the logical
    /// length, nothing lives beyond the length, and every present page is
    /// exactly one page size long.
    pub closed spec fn wf(&self) -> bool {
        &&& self.length <= self.pages@.len()
        &&& forall|i: int|
            self.length <= i < self.pages@.len() ==> #[trigger] self.pages@[i] is None
        &&& forall|i: int|
            0 <= i < self.pages@.len() ==> (#[trigger] self.pages@[i] matches Some(p)
                ==> p@.len() == self.page_size)
    }

    /// An empty pager with the given page size. The page size may be zero;
    /// the degenerate case is handled by the growth step. A small number of
    /// backing slots is set up front so that early accesses need no growth.
    pub fn new(page_size: usize) -> (pager: Pager)
        ensures
            pager.wf(),
            pager.spec_page_size() == page_size,
            pager@.len() == 0,
    {
        let mut pages: Vec<Option<Page>> = Vec::new();
        let mut i: usize = 0;
        while i < 16
            invariant
                i <= 16,
                pages@.len() == i,
                forall|j: int| 0 <= j < i ==> pages@[j] is None,
            decreases 16 - i,
        {
            pages.push(None);
            i = i + 1;
        }
        Pager { page_size, pages, length: 0 }
    }

    /// A pager restored from previously built pages. Every supplied slot,
    /// present or absent, counts as a logical slot, so the length is the
    /// number of slots given. Each present page must already be exactly
    /// `page_size` bytes long.
    pub fn with_pages(page_size: usize, pages: Vec<Option<Page>>) -> (pager: Pager)
        requires
            forall|i: int|
                0 <= i < pages@.len() ==> (#[trigger] pages@[i] matches Some(p)
                    ==> p@.len() == page_size),
        ensures
            pager.wf(),
            pager.spec_page_size() == page_size,
            pager@ == pages@,
    {
        let length = pages.len();
        let pager = Pager { page_size, pages, length };
        proof {
            assert(pager@ =~= pager.pages@);
        }
        pager
    }

    /// Rebuild a pager from a flat byte image: the logical concatenation
    /// of all pages' buffers, optionally preceded by a header of `offset`
    /// bytes to skip. The image after the header must be a whole number of
    /// `page_size`-sized chunks; otherwise nothing is built and the size
    /// mismatch is reported. Each all-zero chunk is elided into an absent
    /// slot; every other chunk becomes a present page. Every chunk, zero
    /// or not, counts as a logical slot, so the length is the chunk count.
    pub fn from_bytes(bytes: &Vec<u8>, page_size: usize, offset: Option<usize>) -> (r: Result<
        Pager,
        RestoreError,
    >)
        requires
            page_size > 0,
            offset matches Some(o) ==> o <= bytes@.len(),
        ensures
            r is Err <==> (bytes@.len() - header_len(offset)) % (page_size as int) != 0,
            r matches Err(e) ==> e == (RestoreError::SizeMismatch {
                len: (bytes@.len() - header_len(offset)) as usize,
                page_size,
            }),
            r matches Ok(pager) ==> {
                &&& pager.wf()
                &&& pager.spec_page_size() == page_size
                &&& pager@.len() == (bytes@.len() - header_len(offset)) / (page_size as int)
                &&& forall|i: int|
                    0 <= i < pager@.len() ==> #[trigger] restored_slot(
                        bytes@,
                        header_len(offset),
                        page_size as int,
                        pager@[i],
                        i,
                    )
            },
    {
        let off = match offset {
            Some(o) => o,
            None => 0,
        };
        let body_len = bytes.len() - off;
        if body_len % page_size != 0 {
            return Err(RestoreError::SizeMismatch { len: body_len, page_size });
        }
        let page_count = body_len / page_size;
        proof {
            lemma_fundamental_div_mod(body_len as int, page_size as int);
            lemma_mul_is_commutative(page_count as int, page_size as int);
            assert(page_count * page_size == body_len);
        }
        let mut pages: Vec<Option<Page>> = Vec::new();
        let mut base: usize = off;
        let mut index: usize = 0;
        while index < page_count
            invariant
                page_size > 0,
                index <= page_count,
                pages@.len() == index,
                base == off + index * page_size,
                off + body_len == bytes@.len(),
                bytes@.len() <= usize::MAX,
                page_count * page_size == body_len,
                forall|k: int|
                    0 <= k < index ==> #[trigger] restored_slot(
                        bytes@,
                        off as int,
                        page_size as int,
                        pages@[k],
                        k,
                    ),
                forall|k: int|
                    0 <= k < index ==> (#[trigger] pages@[k] matches Some(pg) ==> pg@.len()
                        == page_size),
            decreases page_count - index,
        {
            proof {
                lemma_mul_inequality(index + 1, page_count as int, page_size as int);
                assert((index + 1) * page_size == index * page_size + page_size) by (nonlinear_arith);
            }
            let mut buf: Vec<u8> = Vec::new();
            let mut j: usize = 0;
            while j < page_size
                invariant
                    j <= page_size,
                    buf@.len() == j,
                    base + page_size <= bytes@.len(),
                    bytes@.len() <= usize::MAX,
                    forall|t: int| 0 <= t < j ==> buf@[t] == bytes@[base + t],
                decreases page_size - j,
            {
                buf.push(bytes[base + j]);
                j = j + 1;
            }
            proof {
                assert(buf@ =~= chunk_of(bytes@, off as int, page_size as int, index as int));
            }
            if is_zeroed(&buf) {
                pages.push(None);
            } else {
                let pg = Page::new(index, buf);
                pages.push(Some(pg));
            }
            base = base + page_size;
            index = index + 1;
        }
        Ok(Pager::with_pages(page_size, pages))
    }

    /// The number of logical slots: one past the highest page number ever
    /// allocated, holes included. Not the count of populated slots.
    pub fn len(&self) -> (r: usize)
        ensures
            r == self@.len(),
    {
        self.length
    }

    /// Whether no page number was ever allocated.
    pub fn is_empty(&self) -> (r: bool)
        ensures
            r == (self@.len() == 0),
    {
        self.length == 0
    }

    /// The size in bytes of every page this pager owns.
    pub fn page_size(&self) -> (r: usize)
        ensures
            r == self.spec_page_size(),
    {
        self.page_size
    }

    /// Look up a page without allocating. Out-of-range page numbers and
    /// unpopulated slots both yield nothing; nothing is grown or changed,
    /// however large `page_num` is.
    pub fn get(&self, page_num: usize) -> (r: Option<&Page>)
        requires
            self.wf(),
        ensures
            match r {
                Some(page) => page_num < self@.len() && self@[page_num as int] == Some(*page),
                None => !(page_num < self@.len() && self@[page_num as int] is Some),
            },
    {
        if page_num < self.pages.len() {
            self.pages[page_num].as_ref()
        } else {
            None
        }
    }

    /// Look up a page mutably without allocating. The lookup itself changes
    /// nothing; whatever the caller writes through the returned reference
    /// is the one change to the slot.
    pub fn get_mut(&mut self, page_num: usize) -> (r: Option<&mut Page>)
        requires
            old(self).wf(),
        ensures
            final(self).spec_page_size() == old(self).spec_page_size(),
            final(self)@.len() == old(self)@.len(),
            match r {
                Some(page) => {
                    &&& page_num < old(self)@.len()
                    &&& old(self)@[page_num as int] == Some(*page)
                    &&& final(self)@ == old(self)@.update(page_num as int, Some(*final(page)))
                    &&& ((*final(page))@.len() == old(self).spec_page_size() ==> final(self).wf())
                },
                None => {
                    &&& !(page_num < old(self)@.len() && old(self)@[page_num as int] is Some)
                    &&& final(self)@ == old(self)@
                    &&& final(self).wf()
                },
            },
    {
        if page_num < self.pages.len() {
            let slot = &mut self.pages[page_num];
            slot.as_mut()
        } else {
            None
        }
    }

    /// Fetch the page at `page_num`, allocating it first if it was never
    /// touched. A fresh page is one page size of zero bytes, at byte offset
    /// `page_num` times the page size; an existing page is returned as it
    /// stands. The length becomes the larger of its old value and
    /// `page_num + 1`, so it never decreases; every other slot keeps its
    /// contents, and slots newly brought below the length are absent.
    pub fn get_mut_or_alloc(&mut self, page_num: usize) -> (page: &mut Page)
        requires
            old(self).wf(),
            page_num <= usize::MAX / 2,
            page_num * old(self).spec_page_size() <= usize::MAX,
        ensures
            final(self).spec_page_size() == old(self).spec_page_size(),
            old(self)@.len() <= page_num ==> final(self)@.len() == page_num + 1,
            old(self)@.len() > page_num ==> final(self)@.len() == old(self)@.len(),
            final(self)@[page_num as int] == Some(*final(page)),
            forall|j: int|
                0 <= j < final(self)@.len() && j != page_num
                    ==> #[trigger] final(self)@[j] == (if j < old(self)@.len() {
                        old(self)@[j]
                    } else {
                        None::<Page>
                    }),
            page_num < old(self)@.len() && old(self)@[page_num as int] is Some
                ==> old(self)@[page_num as int] == Some(*page),
            !(page_num < old(self)@.len() && old(self)@[page_num as int] is Some) ==> {
                &&& (*page)@ == zero_page(old(self).spec_page_size() as nat)
                &&& page.spec_offset() == page_num * old(self).spec_page_size()
            },
            (*page)@.len() == old(self).spec_page_size(),
            (*final(page))@.len() == old(self).spec_page_size() ==> final(self).wf(),
    {
        if page_num >= self.pages.len() {
            self.grow_pages(page_num);
        }
        if self.pages[page_num].is_none() {
            let buf = zero_buffer(self.page_size);
            let fresh = Page::new(page_num, buf);
            let slot = &mut self.pages[page_num];
            *slot = Some(fresh);
        }
        if page_num >= self.length {
            self.length = page_num + 1;
        }
        let slot = &mut self.pages[page_num];
        match slot.as_mut() {
            Some(page) => page,
            None => unreached(),
        }
    }

    /// Walk the logical slots in page-number order, from page number zero
    /// up to the length. Each call starts a fresh traversal.
    pub fn iter(&self) -> (it: Iter<'_>)
        requires
            self.wf(),
        ensures
            it.wf(),
            it.spec_pager() == self,
            it.spec_cursor() == 0,
    {
        Iter::new(self)
    }

    /// Borrow the logical slot at `page_num`, which must be below the
    /// length.
    pub(crate) fn slot_at(&self, page_num: usize) -> (slot: &Option<Page>)
        requires
            self.wf(),
            page_num < self@.len(),
        ensures
            *slot == self@[page_num as int],
    {
        &self.pages[page_num]
    }

    /// Grow the backing slots so that `index` is in range, filling the new
    /// slots with absent pages. Capacity doubles until it passes `index`,
    /// after a bump to one when it was zero, so the doubling terminates.
    fn grow_pages(&mut self, index: usize)
        requires
            old(self).wf(),
            old(self).pages@.len() <= index,
            index <= usize::MAX / 2,
        ensures
            final(self).wf(),
            final(self).page_size == old(self).page_size,
            final(self).length == old(self).length,
            final(self)@ == old(self)@,
            index < final(self).pages@.len(),
            forall|j: int|
                0 <= j < old(self).pages@.len()
                    ==> #[trigger] final(self).pages@[j] == old(self).pages@[j],
            forall|j: int|
                old(self).pages@.len() <= j < final(self).pages@.len()
                    ==> #[trigger] final(self).pages@[j] is None,
    {
        let start_len = self.pages.len();
        let mut new_len = start_len * 2;
        if new_len == 0 {
            new_len = 1;
        }
        while new_len <= index
            invariant
                1 <= new_len,
                index <= usize::MAX / 2,
            decreases (if new_len <= index { index + 1 - new_len } else { 0int }),
        {
            new_len = new_len * 2;
        }
        while self.pages.len() < new_len
            invariant
                old(self).pages@.len() <= self.pages@.len(),
                self.pages@.len() <= new_len,
                old(self).pages@.len() < new_len,
                self.page_size == old(self).page_size,
                self.length == old(self).length,
                forall|j: int|
                    0 <= j < old(self).pages@.len()
                        ==> #[trigger] self.pages@[j] == old(self).pages@[j],
                forall|j: int|
                    old(self).pages@.len() <= j < self.pages@.len()
                        ==> #[trigger] self.pages@[j] is None,
            decreases new_len - self.pages@.len(),
        {
            self.pages.push(None);
        }
        proof {
            assert(self@ =~= old(self)@);
        }
    }
}

/// The default pager has a page size of 1024 bytes and no pages.
impl Default for Pager {
    fn default() -> (pager: Pager)
        ensures
            pager.wf(),
            pager.spec_page_size() == 1024,
            pager@.len() == 0,
    {
        Pager::new(1024)
    }
}

/// Whether a buffer consists of zero bytes only.
fn is_zeroed(bytes: &Vec<u8>) -> (r: bool)
    ensures
        r == is_zero_seq(bytes@),
{
    let mut i: usize = 0;
    while i < bytes.len()
        invariant
            i <= bytes@.len(),
            forall|j: int| 0 <= j < i ==> bytes@[j] == 0u8,
        decreases bytes@.len() - i,
    {
        if bytes[i] != 0 {
            return false;
        }
        i = i + 1;
    }
    true
}

/// A vector of `n` zero bytes, the buffer of a freshly allocated page.
fn zero_buffer(n: usize) -> (buf: Vec<u8>)
    ensures
        buf@ == zero_page(n as nat),
{
    let mut buf: Vec<u8> = Vec::new();
    let mut i: usize = 0;
    while i < n
        invariant
            i <= n,
            buf@.len() == i,
            forall|j: int| 0 <= j < i ==> buf@[j] == 0u8,
        decreases n - i,
    {
        buf.push(0);
        i = i + 1;
    }
    proof {
        assert(buf@ =~= zero_page(n as nat));
    }
    buf
}

} // verus!
