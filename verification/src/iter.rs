use crate::page::Page;
use crate::pager::Pager;
use vstd::prelude::*;

verus! {

/// A cursor over a pager's logical slots, in page-number order.
///
/// Each step yields one slot, present or absent, for the page numbers from
/// zero up to the pager's length, and then reports exhaustion. The walk is
/// read-only: it never allocates and never changes the pager.
pub struct Iter<'a> {
    /// The pager being walked.
    pager: &'a Pager,
    /// The next page number to yield.
    cursor: usize,
}

impl<'a> Iter<'a> {
    /// The pager under this cursor.
    pub closed spec fn spec_pager(&self) -> &'a Pager {
        self.pager
    }

    /// The next page number to yield.
    pub closed spec fn spec_cursor(&self) -> usize {
        self.cursor
    }

    /// The cursor is over a well-formed pager and sits no further than one
    /// past its last slot.
    pub open spec fn wf(&self) -> bool {
        &&& self.spec_pager().wf()
        &&& self.spec_cursor() <= self.spec_pager()@.len()
    }

    pub(crate) fn new(pager: &'a Pager) -> (it: Iter<'a>)
        requires
            pager.wf(),
        ensures
            it.wf(),
            it.spec_pager() == pager,
            it.spec_cursor() == 0,
    {
        Iter { pager, cursor: 0 }
    }

    /// The next slot, or nothing once every slot up to the pager's length
    /// has been yielded.
    pub fn next(&mut self) -> (r: Option<&'a Option<Page>>)
        requires
            old(self).wf(),
        ensures
            final(self).wf(),
            final(self).spec_pager() == old(self).spec_pager(),
            old(self).spec_cursor() < old(self).spec_pager()@.len() ==> {
                &&& final(self).spec_cursor() == old(self).spec_cursor() + 1
                &&& r matches Some(slot) && *slot == old(self).spec_pager()@[old(
                    self,
                ).spec_cursor() as int]
            },
            old(self).spec_cursor() >= old(self).spec_pager()@.len() ==> {
                &&& r is None
                &&& final(self).spec_cursor() == old(self).spec_cursor()
            },
    {
        let pager = self.pager;
        if self.cursor < pager.len() {
            let slot = pager.slot_at(self.cursor);
            self.cursor = self.cursor + 1;
            Some(slot)
        } else {
            None
        }
    }
}

} // verus!
