//! The back and forward history of visited pages.
use vstd::prelude::*;
use crate::page::TelePage;

verus! {

/// The visited pages, oldest first, and the position of the one shown.
pub struct HistoryView {
    pub pages: Seq<TelePage>,
    pub current: int,
}

impl HistoryView {
    pub open spec fn wf(self) -> bool {
        0 <= self.current < self.pages.len()
    }
}

/// A linear history: going to a new page drops the pages ahead of the
/// current one.
pub struct TeleHistory {
    pages: Vec<TelePage>,
    current: usize,
}

impl View for TeleHistory {
    type V = HistoryView;

    closed spec fn view(&self) -> HistoryView {
        HistoryView { pages: self.pages@, current: self.current as int }
    }
}

impl TeleHistory {
    /// A history that holds `first_page` alone.
    pub fn new(first_page: TelePage) -> (r: TeleHistory)
        ensures
            r@.pages == seq![first_page],
            r@.current == 0,
            r@.wf(),
    {
        let mut pages: Vec<TelePage> = Vec::new();
        pages.push(first_page);
        assert(pages@ =~= seq![first_page]);
        TeleHistory { pages, current: 0 }
    }

    /// Goes to `page`: the pages after the current one are dropped, `page` is
    /// appended and becomes the current one.
    pub fn add(&mut self, page: TelePage)
        requires
            old(self)@.wf(),
        ensures
            final(self)@.pages == old(self)@.pages.take(old(self)@.current + 1).push(page),
            final(self)@.current == old(self)@.current + 1,
            final(self)@.wf(),
    {
        // The length fits in a usize, so `current + 1` does too.
        let len = self.pages.len();
        assert(self.current < len);
        self.pages.truncate(self.current + 1);
        self.pages.push(page);
        self.current = self.current + 1;
    }

    /// Steps back one page, if there is one before the current page.
    pub fn prev(&mut self) -> (r: Option<TelePage>)
        requires
            old(self)@.wf(),
        ensures
            final(self)@.wf(),
            final(self)@.pages == old(self)@.pages,
            old(self)@.current > 0 ==> final(self)@.current == old(self)@.current - 1 && r == Some(
                old(self)@.pages[old(self)@.current - 1],
            ),
            old(self)@.current == 0 ==> final(self)@.current == 0 && r is None,
    {
        if self.current > 0 {
            self.current = self.current - 1;
            return Some(self.pages[self.current]);
        }
        None
    }

    /// Steps back one page and drops the pages after it, so that the page left
    /// cannot be reached forward again.
    pub fn prev_trunc(&mut self) -> (r: Option<TelePage>)
        requires
            old(self)@.wf(),
        ensures
            final(self)@.wf(),
            old(self)@.current > 0 ==> final(self)@.current == old(self)@.current - 1 && final(self)@.pages
                == old(self)@.pages.take(old(self)@.current) && r == Some(
                old(self)@.pages[old(self)@.current - 1],
            ),
            old(self)@.current == 0 ==> final(self)@ == old(self)@ && r is None,
    {
        if self.current > 0 {
            self.pages.truncate(self.current);
            self.current = self.current - 1;
            return Some(self.pages[self.current]);
        }
        None
    }

    /// Steps forward one page, if there is one after the current page.
    pub fn next(&mut self) -> (r: Option<TelePage>)
        requires
            old(self)@.wf(),
        ensures
            final(self)@.wf(),
            final(self)@.pages == old(self)@.pages,
            old(self)@.current + 1 < old(self)@.pages.len() ==> final(self)@.current == old(self)@.current
                + 1 && r == Some(old(self)@.pages[old(self)@.current + 1]),
            old(self)@.current + 1 == old(self)@.pages.len() ==> final(self)@.current == old(self)@.current
                && r is None,
    {
        if self.current < self.pages.len() - 1 {
            self.current = self.current + 1;
            return Some(self.pages[self.current]);
        }
        None
    }

    /// The position of the current page.
    pub fn current(&self) -> (r: usize)
        ensures
            r == self@.current,
    {
        self.current
    }

    /// The pages, oldest first.
    pub fn pages(&self) -> (r: &Vec<TelePage>)
        ensures
            r@ == self@.pages,
    {
        &self.pages
    }
}

} // verus!
