//! The control block of a context, and the keys under which a parent waits
//! for its children.

use super::arch;
use super::id::ContextId;
use super::memory::{Memory, Tls};
use crate::common::{zeroed, zeros};
use crate::memory::PAGE_SIZE;
use crate::syscall::data::SigAction;
use crate::syscall::flag::SIG_DFL;
use core::cmp::Ordering;
use std::collections::VecDeque;
use vstd::prelude::*;
use vstd::std_specs::cmp::{PartialEqSpecImpl, PartialOrdSpecImpl};

verus! {

/// The status of a context, which scheduling goes by.
#[derive(Copy, Clone, Debug, Eq, PartialEq, Structural)]
pub enum Status {
    /// The context can run.
    Runnable,
    /// The context waits to be woken.
    Blocked,
    /// The context was stopped by the signal with this number.
    Stopped(usize),
    /// The context has ended with this status.
    Exited(usize),
}

/// The key under which the end of a child is kept for its parent: the process
/// and the process group that the parent waits for, as far as it names them.
#[derive(Copy, Clone, Debug)]
pub struct WaitpidKey {
    /// The process that is waited for.
    pub pid: Option<ContextId>,
    /// The process group that is waited for.
    pub pgid: Option<ContextId>,
}

/// How two numbers stand to one another.
pub open spec fn number_order(a: usize, b: usize) -> Ordering {
    if a < b {
        Ordering::Less
    } else if a == b {
        Ordering::Equal
    } else {
        Ordering::Greater
    }
}

/// How two keys stand to one another.
///
/// Where both name a process, the processes decide. Where one of them names
/// a process, that key is greater. Where neither does, the groups decide in
/// the same way: both named, the groups are compared; one named, that key is
/// greater; and two keys that name nothing are equal.
pub open spec fn key_order(a: WaitpidKey, b: WaitpidKey) -> Ordering {
    if a.pid is Some && b.pid is Some {
        number_order(a.pid->0@, b.pid->0@)
    } else if a.pid is Some {
        Ordering::Greater
    } else if b.pid is Some {
        Ordering::Less
    } else if a.pgid is Some && b.pgid is Some {
        number_order(a.pgid->0@, b.pgid->0@)
    } else if a.pgid is Some {
        Ordering::Greater
    } else if b.pgid is Some {
        Ordering::Less
    } else {
        Ordering::Equal
    }
}

/// A key that names a process is greater than every key that names none,
/// whatever groups the two name.
pub proof fn lemma_process_decides(a: WaitpidKey, b: WaitpidKey)
    requires
        a.pid is Some,
        b.pid is None,
    ensures
        key_order(a, b) == Ordering::Greater,
        key_order(b, a) == Ordering::Less,
{
}

/// How two numbers stand to one another.
fn order_numbers(a: usize, b: usize) -> (order: Ordering)
    ensures
        order == number_order(a, b),
{
    if a < b {
        Ordering::Less
    } else if a == b {
        Ordering::Equal
    } else {
        Ordering::Greater
    }
}

impl WaitpidKey {
    /// How this key stands to `other`.
    pub fn cmp(&self, other: &WaitpidKey) -> (order: Ordering)
        ensures
            order == key_order(*self, *other),
    {
        // If both have pid set, compare that
        if let Some(s_pid) = self.pid {
            if let Some(o_pid) = other.pid {
                return order_numbers(s_pid.into(), o_pid.into());
            }
        }
        // If either has pid set, it is greater

        if self.pid.is_some() {
            return Ordering::Greater;
        }
        if other.pid.is_some() {
            return Ordering::Less;
        }
        // If both have pgid set, compare that

        if let Some(s_pgid) = self.pgid {
            if let Some(o_pgid) = other.pgid {
                return order_numbers(s_pgid.into(), o_pgid.into());
            }
        }
        // If either has pgid set, it is greater

        if self.pgid.is_some() {
            return Ordering::Greater;
        }
        if other.pgid.is_some() {
            return Ordering::Less;
        }
        // If all pid and pgid are None, they are equal

        Ordering::Equal
    }
}

impl PartialOrdSpecImpl for WaitpidKey {
    open spec fn obeys_partial_cmp_spec() -> bool {
        true
    }

    open spec fn partial_cmp_spec(&self, other: &WaitpidKey) -> Option<Ordering> {
        Some(key_order(*self, *other))
    }
}

impl PartialOrd for WaitpidKey {
    fn partial_cmp(&self, other: &WaitpidKey) -> (order: Option<Ordering>) {
        Some(self.cmp(other))
    }
}

impl PartialEqSpecImpl for WaitpidKey {
    open spec fn obeys_eq_spec() -> bool {
        true
    }

    open spec fn eq_spec(&self, other: &WaitpidKey) -> bool {
        key_order(*self, *other) == Ordering::Equal
    }
}

impl PartialEq for WaitpidKey {
    fn eq(&self, other: &WaitpidKey) -> (equal: bool) {
        match self.cmp(other) {
            Ordering::Equal => true,
            _ => false,
        }
    }
}

impl Eq for WaitpidKey {

}

/// The number of signals that a context keeps an action for.
pub const SIGNAL_COUNT: usize = 128;

/// A context, which is either a process or a thread.
#[derive(Debug)]
pub struct Context {
    /// The identifier of this context.
    pub id: ContextId,
    /// The identifier of the process group of this context.
    pub pgid: ContextId,
    /// The identifier of the parent context.
    pub ppid: ContextId,
    /// The mask for the modes of new files.
    pub umask: usize,
    /// The status of the context.
    pub status: Status,
    /// Whether the context runs at the moment.
    pub running: bool,
    /// The processor that the context is bound to, if any.
    pub cpu_id: Option<usize>,
    /// The system call that the context is in, if any.
    pub syscall: Option<(usize, usize, usize, usize, usize, usize)>,
    /// Buffer for the head of system call data that is not page aligned.
    pub syscall_head: Vec<u8>,
    /// Buffer for the tail of system call data that is not page aligned.
    pub syscall_tail: Vec<u8>,
    /// Whether the context holds up its parent.
    pub vfork: bool,
    /// The ends of children that the context has yet to take note of.
    pub waitpid: Vec<(WaitpidKey, (ContextId, usize))>,
    /// The signals that the context has yet to handle.
    pub pending: VecDeque<u8>,
    /// The time at which the context is woken, if any.
    pub wake: Option<(u64, u64)>,
    /// What the context keeps of the processor.
    pub arch: arch::Context,
    /// Buffer for the floating point state while the context is in the kernel.
    pub kfx: Option<Vec<u8>>,
    /// The stack of the context in the kernel.
    pub kstack: Option<Vec<u8>>,
    /// What is put aside while a signal is handled.
    pub ksig: Option<(arch::Context, Option<Vec<u8>>, Option<Vec<u8>>)>,
    /// Whether what was put aside is restored at the next switch.
    pub ksig_restore: bool,
    /// The regions of the executable image.
    pub image: Vec<Memory>,
    /// The heap of the context.
    pub heap: Option<Memory>,
    /// The stack of the context.
    pub stack: Option<Memory>,
    /// The stack on which signals are handled.
    pub sigstack: Option<Memory>,
    /// The thread local storage.
    pub tls: Option<Tls>,
    /// The name of the context.
    pub name: Vec<u8>,
    /// The working directory.
    pub cwd: Vec<u8>,
    /// The action for each signal, with its flags.
    pub actions: Vec<(SigAction, usize)>,
}

impl Context {
    /// Whether the context is as a context with this identifier is made:
    /// blocked, in a group of its own, without parent, and with nothing of
    /// its own but two empty buffers for system calls and the default action
    /// for every signal.
    pub open spec fn is_new(&self, id: ContextId) -> bool {
        &&& self.is_bare(id)
        &&& self.status == Status::Blocked
        &&& !self.running
        &&& self.cpu_id is None
        &&& self.arch.spec_fx() == 0
        &&& self.arch.spec_page_table() == 0
        &&& self.arch.spec_stack() == 0
        &&& self.kfx is None
        &&& self.kstack is None
    }

    /// Whether the context has no more than a context with this identifier
    /// has when it is made, leaving aside what scheduling works with: its
    /// status, whether and where it runs, what it keeps of the processor, and
    /// its two kernel buffers.
    pub open spec fn is_bare(&self, id: ContextId) -> bool {
        &&& self.id == id
        &&& self.pgid == id
        &&& self.ppid@ == 0
        &&& self.umask == 0o022
        &&& self.syscall is None
        &&& self.syscall_head@ == zeros(PAGE_SIZE)
        &&& self.syscall_tail@ == zeros(PAGE_SIZE)
        &&& !self.vfork
        &&& self.waitpid@.len() == 0
        &&& self.pending@.len() == 0
        &&& self.wake is None
        &&& self.ksig is None
        &&& !self.ksig_restore
        &&& self.image@.len() == 0
        &&& self.heap is None
        &&& self.stack is None
        &&& self.sigstack is None
        &&& self.tls is None
        &&& self.name@.len() == 0
        &&& self.cwd@.len() == 0
        &&& self.actions@.len() == SIGNAL_COUNT
        &&& forall|signal: int|
            0 <= signal < SIGNAL_COUNT ==> (#[trigger] self.actions@[signal]).0.sa_handler == SIG_DFL
                && self.actions@[signal].0.sa_mask@ == seq![0u64, 0u64]
                && self.actions@[signal].0.sa_flags == 0 && self.actions@[signal].1 == 0
    }

    /// Whether the context is as a context with this identifier is spawned:
    /// as it is made, but runnable, with a buffer for the floating point
    /// state, with the kernel stack `stack`, and working on the page table
    /// at `page_table`.
    pub open spec fn is_spawned_with(&self, id: ContextId, stack: Seq<u8>, page_table: usize) -> bool {
        &&& self.is_bare(id)
        &&& self.status == Status::Runnable
        &&& !self.running
        &&& self.cpu_id is None
        &&& self.kfx is Some
        &&& self.kfx->0@ == zeros(512)
        &&& self.kstack is Some
        &&& self.kstack->0@ == stack
        &&& self.arch.spec_fx() == 0
        &&& self.arch.spec_page_table() == page_table
        &&& self.arch.spec_stack() == 0
    }

    /// Tells the context where its two kernel buffers lie in memory: the
    /// buffer for the floating point state at `fx_address`, the kernel stack
    /// at `stack_address`. The stack pointer of the context then stands
    /// `stack_offset` bytes behind the start of the stack.
    pub fn set_kernel_addresses(&mut self, fx_address: usize, stack_address: usize, stack_offset: usize)
        requires
            stack_address + stack_offset <= usize::MAX,
        ensures
            final(self).arch.spec_fx() == fx_address,
            final(self).arch.spec_stack() == stack_address + stack_offset,
            final(self).arch.spec_page_table() == old(self).arch.spec_page_table(),
            *final(self) == (Context { arch: final(self).arch, ..*old(self) }),
    {
        self.arch.set_fx(fx_address);
        self.arch.set_stack(stack_address + stack_offset);
    }

    /// A context with the identifier `id`.
    pub fn new(id: ContextId) -> (context: Context)
        ensures
            context.is_new(id),
    {
        let syscall_head = zeroed(PAGE_SIZE);
        let syscall_tail = zeroed(PAGE_SIZE);
        let mut actions: Vec<(SigAction, usize)> = Vec::new();
        let mut signal: usize = 0;
        while signal < SIGNAL_COUNT
            invariant
                signal <= SIGNAL_COUNT,
                actions@.len() == signal,
                forall|k: int|
                    0 <= k < signal ==> (#[trigger] actions@[k]).0.sa_handler == SIG_DFL
                        && actions@[k].0.sa_mask@ == seq![0u64, 0u64] && actions@[k].0.sa_flags == 0
                        && actions@[k].1 == 0,
            decreases SIGNAL_COUNT - signal,
        {
            let mask: [u64; 2] = [0, 0];
            assert(mask@ =~= seq![0u64, 0u64]);
            actions.push((SigAction { sa_handler: SIG_DFL, sa_mask: mask, sa_flags: 0 }, 0));
            signal = signal + 1;
        }
        Context {
            id,
            pgid: id,
            ppid: ContextId::from(0),
            umask: 0o022,
            status: Status::Blocked,
            running: false,
            cpu_id: None,
            syscall: None,
            syscall_head,
            syscall_tail,
            vfork: false,
            waitpid: Vec::new(),
            pending: VecDeque::new(),
            wake: None,
            arch: arch::Context::new(),
            kfx: None,
            kstack: None,
            ksig: None,
            ksig_restore: false,
            image: Vec::new(),
            heap: None,
            stack: None,
            sigstack: None,
            tls: None,
            name: Vec::new(),
            cwd: Vec::new(),
            actions,
        }
    }

    /// Blocks the context, and says whether it was runnable before. A context
    /// that is not runnable stays as it is.
    pub fn block(&mut self) -> (blocked: bool)
        ensures
            blocked == (old(self).status == Status::Runnable),
            blocked ==> *final(self) == (Context { status: Status::Blocked, ..*old(self) }),
            !blocked ==> *final(self) == *old(self),
    {
        if self.status == Status::Runnable {
            self.status = Status::Blocked;
            true
        } else {
            false
        }
    }

    /// Makes the context runnable, and says whether it was blocked before. A
    /// context that is not blocked stays as it is.
    pub fn unblock(&mut self) -> (unblocked: bool)
        ensures
            unblocked == (old(self).status == Status::Blocked),
            unblocked ==> *final(self) == (Context { status: Status::Runnable, ..*old(self) }),
            !unblocked ==> *final(self) == *old(self),
    {
        if self.status == Status::Blocked {
            self.status = Status::Runnable;
            true
        } else {
            false
        }
    }
}

/// Blocking a runnable context and unblocking it again leaves the context as
/// it was.
pub proof fn lemma_block_unblock(context: Context)
    requires
        context.status == Status::Runnable,
    ensures
        (Context { status: Status::Runnable, ..(Context { status: Status::Blocked, ..context }) })
            == context,
{
}

} // verus!
