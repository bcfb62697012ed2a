//! What a context keeps of the processor while it does not run.

use vstd::prelude::*;

verus! {

/// The addresses that the switch between contexts works with: where the
/// floating point state is kept, which page table is loaded, and where the
/// stack stands.
#[derive(Clone, Copy, Debug, PartialEq, Eq, Structural)]
pub struct Context {
    fx: usize,
    page_table: usize,
    stack: usize,
}

impl Context {
    /// The address of the buffer for the floating point state.
    pub closed spec fn spec_fx(&self) -> usize {
        self.fx
    }

    /// The physical address of the level 4 page table.
    pub closed spec fn spec_page_table(&self) -> usize {
        self.page_table
    }

    /// The address of the top of the stack.
    pub closed spec fn spec_stack(&self) -> usize {
        self.stack
    }

    /// The state of a context that has never run: all addresses are zero.
    pub fn new() -> (context: Context)
        ensures
            context.spec_fx() == 0,
            context.spec_page_table() == 0,
            context.spec_stack() == 0,
    {
        Context { fx: 0, page_table: 0, stack: 0 }
    }

    /// The physical address of the level 4 page table.
    #[verifier::when_used_as_spec(spec_page_table)]
    pub fn get_page_table(&self) -> (address: usize)
        ensures
            address == self.spec_page_table(),
    {
        self.page_table
    }

    /// The address of the buffer for the floating point state.
    #[verifier::when_used_as_spec(spec_fx)]
    pub fn get_fx(&self) -> (address: usize)
        ensures
            address == self.spec_fx(),
    {
        self.fx
    }

    /// The address of the top of the stack.
    #[verifier::when_used_as_spec(spec_stack)]
    pub fn get_stack(&self) -> (address: usize)
        ensures
            address == self.spec_stack(),
    {
        self.stack
    }

    /// Sets the address of the buffer for the floating point state.
    pub fn set_fx(&mut self, address: usize)
        ensures
            final(self).spec_fx() == address,
            final(self).spec_page_table() == old(self).spec_page_table(),
            final(self).spec_stack() == old(self).spec_stack(),
    {
        self.fx = address;
    }

    /// Sets the physical address of the level 4 page table.
    pub fn set_page_table(&mut self, address: usize)
        ensures
            final(self).spec_page_table() == address,
            final(self).spec_fx() == old(self).spec_fx(),
            final(self).spec_stack() == old(self).spec_stack(),
    {
        self.page_table = address;
    }

    /// Sets the address of the top of the stack.
    pub fn set_stack(&mut self, address: usize)
        ensures
            final(self).spec_stack() == address,
            final(self).spec_fx() == old(self).spec_fx(),
            final(self).spec_page_table() == old(self).spec_page_table(),
    {
        self.stack = address;
    }
}

} // verus!
