//! The directory of all contexts.

use super::context::Context;
use super::id::ContextId;
use super::CONTEXT_MAX_CONTEXTS;
use crate::common::{zeroed, zeros};
use crate::syscall::error::{Error, EAGAIN};
use std::collections::BTreeMap;
use vstd::bytes::{spec_u64_to_le_bytes, u64_to_le_bytes};
use vstd::prelude::*;
use vstd::std_specs::cmp::OrdSpec;
use vstd::std_specs::iter::IteratorSpec;

verus! {

broadcast use {vstd::std_specs::btree::group_btree_axioms, vstd::laws_cmp::group_laws_cmp};

/// Whether `id` is the first number from `from` on under which `contexts`
/// holds no context.
pub open spec fn is_first_free(contexts: Map<usize, Context>, from: usize, id: usize) -> bool {
    &&& from <= id
    &&& !contexts.contains_key(id)
    &&& forall|k: usize| from <= k < id ==> contexts.contains_key(k)
}

/// The number of bytes of the buffer for the floating point state.
pub const KFX_SIZE: usize = 512;

/// The number of bytes of the kernel stack of a context.
pub const KSTACK_SIZE: usize = 65_536;

/// The code segment that is put on the stack of a new context.
pub const ENTRY_SEGMENT: u64 = 0x23;

/// The kernel stack of a context that has never run and starts at the
/// function at address `func`: the address of the function stands in the
/// last eight bytes, the code segment in the eight bytes before, each with
/// the low byte first, and all other bytes are zero.
pub open spec fn entry_stack(func: u64) -> Seq<u8> {
    zeros(65_520) + spec_u64_to_le_bytes(ENTRY_SEGMENT) + spec_u64_to_le_bytes(func)
}

/// How far behind the start of the kernel stack the stack pointer of a
/// context stands that has never run.
pub const ENTRY_STACK_OFFSET: usize = 65_528;

/// The list of all contexts, each under the number of its identifier.
pub struct ContextList {
    map: BTreeMap<usize, Context>,
    next_id: usize,
    limit: usize,
}

impl View for ContextList {
    type V = Map<usize, Context>;

    /// The contexts of the list, each under the number of its identifier.
    closed spec fn view(&self) -> Map<usize, Context> {
        self.map@
    }
}

impl Context {
    /// Whether the context is as a context with this identifier is spawned
    /// to start at the function at address `func`, working on the page table
    /// at `page_table`.
    pub open spec fn is_spawned(&self, id: ContextId, func: u64, page_table: usize) -> bool {
        self.is_spawned_with(id, entry_stack(func), page_table)
    }
}

impl ContextList {
    /// Whether the list is in order: every context stands under the number
    /// of its identifier, which lies below the limit.
    pub closed spec fn wf(&self) -> bool {
        &&& self.limit <= CONTEXT_MAX_CONTEXTS
        &&& 1 <= self.next_id <= CONTEXT_MAX_CONTEXTS
        &&& forall|k: usize| #[trigger] self.map@.contains_key(k) ==> 1 <= k < self.limit && self.map@[k].id@ == k
    }

    /// The number at which the search for the next identifier starts.
    pub closed spec fn spec_next_id(&self) -> usize {
        self.next_id
    }

    /// The limit below which identifiers lie.
    pub closed spec fn spec_limit(&self) -> usize {
        self.limit
    }

    /// What the validity of a list means: every context stands under the
    /// number of its identifier, which lies below the limit.
    pub proof fn lemma_wf(&self)
        requires
            self.wf(),
        ensures
            self.spec_limit() <= CONTEXT_MAX_CONTEXTS,
            1 <= self.spec_next_id() <= CONTEXT_MAX_CONTEXTS,
            forall|k: usize| #[trigger]
                self@.contains_key(k) ==> 1 <= k < self.spec_limit() && self@[k].id@ == k,
    {
    }

    /// An empty list, whose first context gets the identifier 1.
    pub fn new() -> (list: ContextList)
        ensures
            list.wf(),
            list@ == Map::<usize, Context>::empty(),
            list.spec_next_id() == 1,
            list.spec_limit() == CONTEXT_MAX_CONTEXTS,
    {
        ContextList { map: BTreeMap::new(), next_id: 1, limit: CONTEXT_MAX_CONTEXTS }
    }

    /// An empty list whose identifiers lie below `limit`.
    pub fn with_limit(limit: usize) -> (list: ContextList)
        requires
            limit <= CONTEXT_MAX_CONTEXTS,
        ensures
            list.wf(),
            list@ == Map::<usize, Context>::empty(),
            list.spec_next_id() == 1,
            list.spec_limit() == limit,
    {
        ContextList { map: BTreeMap::new(), next_id: 1, limit }
    }

    /// The context with the identifier `id`, if the list holds it.
    pub fn get(&self, id: ContextId) -> (context: Option<&Context>)
        ensures
            match context {
                Some(found) => self@.contains_key(id@) && *found == self@[id@],
                None => !self@.contains_key(id@),
            },
    {
        self.map.get(&id.into())
    }

    /// The context that runs at the moment, which is the one with the
    /// identifier `context_id`.
    pub fn current(&self, context_id: ContextId) -> (context: Option<&Context>)
        ensures
            match context {
                Some(found) => self@.contains_key(context_id@) && *found == self@[context_id@],
                None => !self@.contains_key(context_id@),
            },
    {
        self.map.get(&context_id.into())
    }

    /// The identifiers of all contexts of the list, in rising order.
    pub fn iter(&self) -> (ids: Vec<ContextId>)
        ensures
            ids@.len() == self@.len(),
            forall|i: int| 0 <= i < ids@.len() ==> self@.contains_key(#[trigger] ids@[i]@),
            forall|k: usize| self@.contains_key(k) ==> exists|i: int| 0 <= i < ids@.len() && #[trigger] ids@[i]@ == k,
            forall|i: int, j: int| 0 <= i < j < ids@.len() ==> ids@[i]@ < ids@[j]@,
    {
        let mut ids: Vec<ContextId> = Vec::new();
        let ghost all = vstd::std_specs::btree::spec_keys_iter(&self.map).remaining();
        for key in keys: self.map.keys()
            invariant
                keys.seq() == all,
                ids@.len() == keys.index(),
                forall|i: int| 0 <= i < ids@.len() ==> (#[trigger] ids@[i])@ == *all[i],
        {
            ids.push(ContextId::from(*key));
        }
        proof {
            let numbers = all.unref();
            assert(numbers.to_set() == self.map@.dom());
            assert forall|i: int| 0 <= i < ids@.len() implies self@.contains_key(#[trigger] ids@[i]@) by {
                assert(numbers[i] == ids@[i]@);
                assert(numbers.to_set().contains(numbers[i]));
            }
            vstd::std_specs::btree::axiom_increasing_seq_meaning(all);
            assert forall|i: int, j: int| 0 <= i < j < ids@.len() implies ids@[i]@ < ids@[j]@ by {
                assert(OrdSpec::cmp_spec(&all[i], &all[j]) is Less);
            }
            assert forall|k: usize| self@.contains_key(k) implies exists|i: int|
                0 <= i < ids@.len() && #[trigger] ids@[i]@ == k by {
                assert(numbers.to_set().contains(k));
                let i = choose|i: int| 0 <= i < numbers.len() && numbers[i] == k;
                assert(ids@[i]@ == k);
            }
        }
        ids
    }

    /// The number of contexts in the list.
    pub fn len(&self) -> (len: usize)
        ensures
            len == self@.len(),
    {
        self.map.len()
    }

    /// Takes the context with the identifier `id` out of the list, and
    /// returns it. The context itself stays as it is.
    pub fn remove(&mut self, id: ContextId) -> (context: Option<Context>)
        requires
            old(self).wf(),
        ensures
            final(self).wf(),
            final(self)@ == old(self)@.remove(id@),
            final(self).spec_next_id() == old(self).spec_next_id(),
            final(self).spec_limit() == old(self).spec_limit(),
            match context {
                Some(found) => old(self)@.contains_key(id@) && found == old(self)@[id@],
                None => !old(self)@.contains_key(id@),
            },
    {
        self.map.remove(&id.into())
    }

    /// The number at which the search for a free identifier starts: the one
    /// behind the identifier that was given last, or 1 where that has
    /// reached the limit.
    pub open spec fn search_start(&self) -> usize {
        if self.spec_next_id() >= self.spec_limit() {
            1
        } else {
            self.spec_next_id()
        }
    }

    /// Whether `id` is the identifier that the next context gets: the first
    /// free number from the start of the search up to the limit, or, where
    /// none of these is free, the first free number from 1 on.
    pub open spec fn is_next_id(&self, id: usize) -> bool {
        &&& !self@.contains_key(id)
        &&& 1 <= id < self.spec_limit()
        &&& if id >= self.search_start() {
            forall|k: usize| self.search_start() <= k < id ==> self@.contains_key(k)
        } else {
            &&& forall|k: usize| self.search_start() <= k < self.spec_limit() ==> self@.contains_key(k)
            &&& forall|k: usize| 1 <= k < id ==> self@.contains_key(k)
        }
    }

    /// The first number from `from` on that is below `below` and under which
    /// the list holds no context, if there is one.
    fn first_free(&self, from: usize, below: usize) -> (found: Option<usize>)
        ensures
            match found {
                Some(id) => from <= id < below && is_first_free(self@, from, id),
                None => forall|k: usize| from <= k < below ==> self@.contains_key(k),
            },
    {
        let mut id = from;
        while id < below && self.map.contains_key(&id)
            invariant
                from <= id,
                forall|k: usize| from <= k < id && k < below ==> self.map@.contains_key(k),
            decreases below - id,
        {
            id += 1;
        }
        if id < below {
            Some(id)
        } else {
            None
        }
    }

    /// Makes a new context, puts it into the list, and returns it.
    ///
    /// The context gets the first free identifier from the start of the
    /// search on, and where the search reaches the limit it starts over at 1.
    /// Only where no identifier from 1 up to the limit is free, there is no
    /// context to be had at the moment, and the list stays as it is.
    pub fn new_context(&mut self) -> (context: Result<&Context, Error>)
        requires
            old(self).wf(),
        ensures
            final(self).wf(),
            final(self).spec_limit() == old(self).spec_limit(),
            context is Ok <==> exists|free: usize|
                1 <= free < old(self).spec_limit() && !old(self)@.contains_key(free),
            match context {
                Ok(made) => {
                    &&& old(self).is_next_id(made.id@)
                    &&& made.is_new(made.id)
                    &&& final(self)@ == old(self)@.insert(made.id@, *made)
                    &&& final(self).spec_next_id() == made.id@ + 1
                },
                Err(error) => {
                    &&& error.errno == EAGAIN
                    &&& final(self).spec_next_id() == old(self).spec_next_id()
                    &&& final(self)@ == old(self)@
                },
            },
    {
        let start = if self.next_id >= self.limit {
            1
        } else {
            self.next_id
        };
        let found = match self.first_free(start, self.limit) {
            Some(id) => Some(id),
            None => self.first_free(1, start),
        };
        let number = match found {
            Some(number) => number,
            None => {
                return Err(Error::new(EAGAIN));
            },
        };
        assert(1 <= number < old(self).spec_limit() && !old(self)@.contains_key(number));
        let id = ContextId::from(number);
        self.next_id = number + 1;
        let previous = self.map.insert(id.into(), Context::new(id));
        assert(previous is None);
        Ok(self.map.get(&id.into()).unwrap())
    }

    /// Puts `context` into the list under its identifier, and returns the
    /// context that stood there before, if any.
    pub fn insert(&mut self, context: Context) -> (previous: Option<Context>)
        requires
            old(self).wf(),
            1 <= context.id@ < old(self).spec_limit(),
        ensures
            final(self).wf(),
            final(self)@ == old(self)@.insert(context.id@, context),
            final(self).spec_next_id() == old(self).spec_next_id(),
            final(self).spec_limit() == old(self).spec_limit(),
            match previous {
                Some(found) => old(self)@.contains_key(context.id@) && found == old(self)@[context.id@],
                None => !old(self)@.contains_key(context.id@),
            },
    {
        self.map.insert(context.id.into(), context)
    }

    /// Makes a new context that starts at the function at address `func`
    /// when it is first switched to, and returns it.
    ///
    /// The context is made as [`Self::new_context`] makes it. It gets a
    /// buffer for the floating point state and a kernel stack that holds the
    /// address of the function, it works on the page table at the physical
    /// address `page_table`, and it is runnable. The addresses of the two
    /// buffers are not known here: the caller hands them to
    /// [`Context::set_kernel_addresses`].
    pub fn spawn(&mut self, func: u64, page_table: usize) -> (context: Result<&Context, Error>)
        requires
            old(self).wf(),
        ensures
            final(self).wf(),
            final(self).spec_limit() == old(self).spec_limit(),
            context is Ok <==> exists|free: usize|
                1 <= free < old(self).spec_limit() && !old(self)@.contains_key(free),
            match context {
                Ok(made) => {
                    &&& old(self).is_next_id(made.id@)
                    &&& made.is_spawned(made.id, func, page_table)
                    &&& final(self)@ == old(self)@.insert(made.id@, *made)
                    &&& final(self).spec_next_id() == made.id@ + 1
                },
                Err(error) => {
                    &&& error.errno == EAGAIN
                    &&& final(self).spec_next_id() == old(self).spec_next_id()
                    &&& final(self)@ == old(self)@
                },
            },
    {
        let id = match self.new_context() {
            Ok(context) => context.id,
            Err(error) => {
                return Err(error);
            },
        };
        let mut context = self.map.remove(&id.into()).unwrap();
        let fx = zeroed(KFX_SIZE);
        let mut stack = zeroed(65_520);
        let mut segment = u64_to_le_bytes(ENTRY_SEGMENT);
        let mut entry = u64_to_le_bytes(func);
        stack.append(&mut segment);
        stack.append(&mut entry);
        context.arch.set_page_table(page_table);
        context.kfx = Some(fx);
        context.kstack = Some(stack);
        context.unblock();
        let previous = self.map.insert(id.into(), context);
        assert(previous is None);
        assert(final(self)@ =~= old(self)@.insert(id@, self.map@[id@]));
        Ok(self.map.get(&id.into()).unwrap())
    }
}

} // verus!
