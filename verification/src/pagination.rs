//! Drains a paged collection eagerly: pages are requested one after
//! another and appended whole, until the server answers with an empty page.

use vstd::prelude::*;

verus! {

/// The walk over one paged collection. The host fetches the page the
/// machine names next and feeds the items back in.
pub struct Paginator<T> {
    pub page: u32,
    pub requests: u32,
    pub items: Vec<T>,
    pub finished: bool,
}

impl<T> Paginator<T> {
    /// A fresh walk, about to request page 1.
    pub fn new() -> (r: Paginator<T>)
        ensures
            r.page == 1,
            r.requests == 0,
            r.items@.len() == 0,
            !r.finished,
    {
        Paginator { page: 1, requests: 0, items: Vec::new(), finished: false }
    }

    /// Absorbs the page just fetched: its items are appended whole, and
    /// the walk finishes exactly when the page was empty; otherwise the
    /// next request names the following page.
    pub fn absorb_page(&mut self, page_items: Vec<T>) -> (done: bool)
        requires
            !old(self).finished,
            old(self).page < u32::MAX,
            old(self).requests < u32::MAX,
        ensures
            final(self).items@ == old(self).items@ + page_items@,
            final(self).requests == old(self).requests + 1,
            done == (page_items@.len() == 0),
            final(self).finished == done,
            !done ==> final(self).page == old(self).page + 1,
            done ==> final(self).page == old(self).page,
    {
        self.requests = self.requests + 1;
        let mut incoming = page_items;
        let empty = incoming.len() == 0;
        self.items.append(&mut incoming);
        if empty {
            self.finished = true;
        } else {
            self.page = self.page + 1;
        }
        empty
    }

    /// Hands the collected items out once the walk has finished.
    pub fn into_items(self) -> (r: Vec<T>)
        requires
            self.finished,
        ensures
            r@ == self.items@,
    {
        self.items
    }
}

} // verus!
