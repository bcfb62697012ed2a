//! The promise to flush the translation caches after changes to the page
//! table.

use super::page::Page;
use vstd::prelude::*;

verus! {

/// The promise to flush one page from the translation caches, which a change
/// to the mapping of the page leaves behind.
///
/// The promise has to be kept with [`MapperFlush::flush`], handed to a
/// [`MapperFlushAll`], or given up with [`MapperFlush::ignore`].
#[must_use]
pub struct MapperFlush(Page);

impl View for MapperFlush {
    type V = int;

    /// The number of the page that has to be flushed.
    closed spec fn view(&self) -> int {
        self.0@
    }
}

impl MapperFlush {
    /// The promise to flush `page`.
    pub fn new(page: Page) -> (promise: MapperFlush)
        ensures
            promise@ == page@,
    {
        MapperFlush(page)
    }

    /// Ends the promise, and names the page that the caller has to flush
    /// from the translation caches.
    pub fn flush(self) -> (page: Page)
        ensures
            page@ == self@,
    {
        self.0
    }

    /// Ends the promise without a flush.
    pub fn ignore(self) {
    }
}

/// The promise to flush the translation caches as a whole, which takes the
/// place of the promises for single pages.
///
/// The promise has to be kept with [`MapperFlushAll::flush`], or given up with
/// [`MapperFlushAll::ignore`] for a stated reason.
#[must_use]
pub struct MapperFlushAll(bool);

impl View for MapperFlushAll {
    type V = bool;

    /// Whether a promise for a page was taken over, so that there is
    /// something to flush.
    closed spec fn view(&self) -> bool {
        self.0
    }
}

impl MapperFlushAll {
    /// A promise that has nothing to flush yet.
    pub fn new() -> (promise: MapperFlushAll)
        ensures
            !promise@,
    {
        MapperFlushAll(false)
    }

    /// Takes over the promise to flush one page.
    pub fn consume(&mut self, flush: MapperFlush)
        ensures
            final(self)@,
    {
        self.0 = true;
        flush.ignore();
    }

    /// Ends the promise, and says whether the translation caches of the
    /// active table have to be flushed as a whole: they have to where a
    /// promise for a page was taken over.
    pub fn flush(self) -> (needed: bool)
        ensures
            needed == self@,
    {
        self.0
    }

    /// Ends the promise without a flush. This is for changes to a table that
    /// is not active.
    pub fn ignore(self) {
    }
}

} // verus!
