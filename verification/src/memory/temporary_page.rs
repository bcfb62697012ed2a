//! A page that is mapped for a short time, to reach a frame that no other
//! page is mapped to.

use super::frame::Frame;
use super::mapper::MapperFlush;
use super::page::{EntryFlags, Page};
use super::table::MapTo;
use vstd::prelude::*;

verus! {

/// The page that is set aside for mapping a frame for a short time.
pub struct TemporaryPage {
    page: Page,
}

impl View for TemporaryPage {
    type V = int;

    /// The number of the page.
    closed spec fn view(&self) -> int {
        self.page@
    }
}

impl TemporaryPage {
    /// The temporary page at `page`.
    pub fn new(page: Page) -> (temporary: TemporaryPage)
        ensures
            temporary@ == page@,
    {
        TemporaryPage { page }
    }

    /// The address at which the page starts.
    pub fn start_address(&self) -> (address: u64)
        ensures
            address == self@ * 4096,
    {
        self.page.start_address()
    }

    /// Maps the temporary page to `frame` in the active table: returns the
    /// mapping that the caller enters, the promise to flush the page, and
    /// the address at which the frame is then reached. `mapped` says whether
    /// the active table maps the page at the moment; it must not.
    pub fn map(&mut self, frame: Frame, flags: EntryFlags, mapped: bool) -> (mapping: (
        MapTo,
        MapperFlush,
        u64,
    ))
        requires
            !mapped,
        ensures
            final(self)@ == old(self)@,
            mapping.0.page@ == old(self)@,
            mapping.0.frame == frame,
            mapping.0.flags == flags,
            mapping.1@ == old(self)@,
            mapping.2 == old(self)@ * 4096,
    {
        (MapTo { page: self.page, frame, flags }, MapperFlush::new(self.page), self.page.start_address())
    }

    /// Maps the temporary page to the frame of a page table, as
    /// [`Self::map`] does. The table is then reached at the address that is
    /// returned.
    pub fn map_table_frame(&mut self, frame: Frame, flags: EntryFlags, mapped: bool) -> (mapping: (
        MapTo,
        MapperFlush,
        u64,
    ))
        requires
            !mapped,
        ensures
            final(self)@ == old(self)@,
            mapping.0.page@ == old(self)@,
            mapping.0.frame == frame,
            mapping.0.flags == flags,
            mapping.1@ == old(self)@,
            mapping.2 == old(self)@ * 4096,
    {
        self.map(frame, flags, mapped)
    }

    /// Ends the use of the temporary page: returns the page that the caller
    /// unmaps in the active table, and the promise to flush it.
    pub fn unmap(&mut self) -> (unmapping: (Page, MapperFlush))
        ensures
            final(self)@ == old(self)@,
            unmapping.0@ == old(self)@,
            unmapping.1@ == old(self)@,
    {
        (self.page, MapperFlush::new(self.page))
    }
}

} // verus!
