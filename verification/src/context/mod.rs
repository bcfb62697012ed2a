//! Contexts: the processes and threads that the kernel runs, and the memory
//! that they own.

use crate::common::{zeroed, zeros};
use vstd::prelude::*;

pub mod arch;
pub mod context;
pub mod id;
pub mod list;
pub mod memory;

pub use self::context::{Context, Status, WaitpidKey};
pub use self::id::ContextId;
pub use self::list::{is_first_free, ContextList};

verus! {

/// Limit on the number of contexts: identifiers lie below it.
pub const CONTEXT_MAX_CONTEXTS: usize = (isize::MAX as usize) - 1;

/// Limit on the number of open files of a context.
pub const CONTEXT_MAX_FILES: usize = 65_536;

/// The contexts of the kernel and the identifier of the one that runs.
pub struct ContextState {
    contexts: ContextList,
    context_id: ContextId,
}

impl ContextState {
    /// The list of all contexts.
    pub closed spec fn spec_contexts(&self) -> ContextList {
        self.contexts
    }

    /// The identifier of the context that runs.
    pub closed spec fn spec_context_id(&self) -> ContextId {
        self.context_id
    }

    /// The state before any context is made: the list is empty, and the
    /// identifier of the running context is zero, which no context has.
    pub fn new() -> (state: ContextState)
        ensures
            state.spec_contexts().wf(),
            state.spec_contexts()@ == Map::<usize, Context>::empty(),
            state.spec_contexts().spec_next_id() == 1,
            state.spec_contexts().spec_limit() == CONTEXT_MAX_CONTEXTS,
            state.spec_context_id()@ == 0,
    {
        ContextState { contexts: init_contexts(), context_id: ContextId::from(0) }
    }
}

/// Whether `context` is the first context of a processor as [`init`] leaves
/// it: made with the identifier `id`, then given a buffer for the floating
/// point state, set running and bound to the processor `cpu_id`.
pub open spec fn is_first_context(context: Context, id: ContextId, cpu_id: usize) -> bool {
    &&& context.is_bare(id)
    &&& context.status == Status::Runnable
    &&& context.running
    &&& context.cpu_id == Some(cpu_id)
    &&& context.kfx is Some
    &&& context.kfx->0@ == zeros(512)
    &&& context.kstack is None
    &&& context.arch.spec_fx() == 0
    &&& context.arch.spec_page_table() == 0
    &&& context.arch.spec_stack() == 0
}

/// Makes the first context of this processor, the one that runs already,
/// and returns its identifier.
///
/// There has to be a free identifier for it. The address of the buffer for
/// the floating point state is not known here: the caller sets it in what
/// the context keeps of the processor.
pub fn init(state: &mut ContextState) -> (id: ContextId)
    requires
        old(state).spec_contexts().wf(),
        exists|free: usize|
            1 <= free < old(state).spec_contexts().spec_limit() && !old(state).spec_contexts()@.contains_key(
                free,
            ),
    ensures
        final(state).spec_contexts().wf(),
        final(state).spec_context_id() == id,
        old(state).spec_contexts().is_next_id(id@),
        final(state).spec_contexts()@.contains_key(id@),
        is_first_context(final(state).spec_contexts()@[id@], id, 0),
        final(state).spec_contexts()@ == old(state).spec_contexts()@.insert(
            id@,
            final(state).spec_contexts()@[id@],
        ),
{
    let id = match state.contexts.new_context() {
        Ok(context) => context.id,
        Err(_) => unreached(),
    };
    proof {
        state.contexts.lemma_wf();
        assert(state.contexts@.contains_key(id@));
    }
    let mut context = state.contexts.remove(id).unwrap();
    assert(context.is_new(id));
    context.kfx = Some(zeroed(512));
    context.status = Status::Runnable;
    context.running = true;
    context.cpu_id = Some(crate::cpu_id());
    state.contexts.insert(context);
    state.context_id = id;
    assert(state.contexts@ =~= old(state).spec_contexts()@.insert(id@, state.contexts@[id@]));
    id
}

/// A list of contexts with nothing in it, from which the list of the kernel
/// is made when it is first asked for.
fn init_contexts() -> (list: ContextList)
    ensures
        list.wf(),
        list@ == Map::<usize, Context>::empty(),
        list.spec_next_id() == 1,
        list.spec_limit() == CONTEXT_MAX_CONTEXTS,
{
    ContextList::new()
}

/// The list of all contexts, to look at.
pub fn contexts(state: &ContextState) -> (list: &ContextList)
    ensures
        *list == state.spec_contexts(),
{
    &state.contexts
}

/// The list of all contexts, to change.
pub fn contexts_mut(state: &mut ContextState) -> (list: &mut ContextList)
    ensures
        *list == old(state).spec_contexts(),
        final(state).spec_contexts() == *final(list),
        final(state).spec_context_id() == old(state).spec_context_id(),
{
    &mut state.contexts
}

/// The identifier of the context that runs.
pub fn context_id(state: &ContextState) -> (id: ContextId)
    ensures
        id == state.spec_context_id(),
{
    state.context_id
}

} // verus!
