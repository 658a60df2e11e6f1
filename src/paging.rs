//! Reading a paged list endpoint to its end.
//!
//! The caller asks [`Paginator::next_page`] which page to request, performs
//! the request, and hands the page's items to [`Paginator::accept`]; a page
//! shorter than [`PAGE_SIZE`] ends the listing. A failed request ends the
//! listing too: the caller drops the paginator and returns the error, so no
//! partial list is ever handed on.

use vstd::prelude::*;

verus! {

/// The number of items requested per page.
pub const PAGE_SIZE: usize = 100;

/// Progress through a paged listing.
pub struct Paginator<T> {
    pages_read: u32,
    finished: bool,
    items: Vec<T>,
}

impl<T> Paginator<T> {
    /// The items of all pages read so far, in page order.
    pub closed spec fn fetched(&self) -> Seq<T> {
        self.items@
    }

    /// The number of pages read so far.
    pub closed spec fn pages_read(&self) -> nat {
        self.pages_read as nat
    }

    /// Whether the listing has ended.
    pub closed spec fn is_done(&self) -> bool {
        self.finished
    }

    /// A listing that has not ended can still number its next page.
    pub closed spec fn well_formed(&self) -> bool {
        !self.finished ==> self.pages_read < u32::MAX
    }

    /// The page to request next: pages are numbered from 1.
    pub open spec fn pending_page(&self) -> Option<u32> {
        if self.is_done() {
            None
        } else {
            Some((self.pages_read() + 1) as u32)
        }
    }

    pub fn new() -> (p: Self)
        ensures
            p.well_formed(),
            !p.is_done(),
            p.pages_read() == 0,
            p.fetched() == Seq::<T>::empty(),
            p.pending_page() == Some(1u32),
    {
        Paginator { pages_read: 0, finished: false, items: Vec::new() }
    }

    /// The page to request next, or `None` once the listing has ended.
    pub fn next_page(&self) -> (r: Option<u32>)
        requires
            self.well_formed(),
        ensures
            r == self.pending_page(),
    {
        if self.finished {
            None
        } else {
            Some(self.pages_read + 1)
        }
    }

    /// Records the items of the page that [`Paginator::next_page`] named. A
    /// page shorter than [`PAGE_SIZE`] is the last; so is the page with the
    /// largest number that can be requested.
    pub fn accept(&mut self, page: Vec<T>)
        requires
            old(self).well_formed(),
            !old(self).is_done(),
        ensures
            final(self).well_formed(),
            final(self).fetched() == old(self).fetched() + page@,
            final(self).pages_read() == old(self).pages_read() + 1,
            final(self).is_done() == (page@.len() < PAGE_SIZE || final(self).pages_read()
                == u32::MAX),
    {
        let mut page = page;
        let short = page.len() < PAGE_SIZE;
        self.items.append(&mut page);
        self.pages_read = self.pages_read + 1;
        self.finished = short || self.pages_read == u32::MAX;
    }

    /// Whether the listing has ended.
    pub fn is_finished(&self) -> (r: bool)
        ensures
            r == self.is_done(),
    {
        self.finished
    }

    /// All items read, in page order.
    pub fn into_items(self) -> (r: Vec<T>)
        ensures
            r@ == self.fetched(),
    {
        self.items
    }
}

} // verus!
