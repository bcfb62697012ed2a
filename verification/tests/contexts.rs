use dongos::context::arch;
use dongos::context::list::{ENTRY_STACK_OFFSET, KFX_SIZE, KSTACK_SIZE};
use dongos::context::{
    context_id, contexts, contexts_mut, init, Context, ContextId, ContextList, ContextState, Status, WaitpidKey,
    CONTEXT_MAX_CONTEXTS,
};
use dongos::syscall::{EAGAIN, SIG_DFL};
use std::cmp::Ordering;

fn key(pid: Option<usize>, pgid: Option<usize>) -> WaitpidKey {
    WaitpidKey {
        pid: pid.map(ContextId::from),
        pgid: pgid.map(ContextId::from),
    }
}

#[test]
fn context_id_keeps_its_number() {
    assert_eq!(ContextId::from(7).into(), 7);
    assert_eq!(ContextId::from(7), ContextId::from(7));
    assert!(ContextId::from(7) < ContextId::from(8));
}

#[test]
fn waitpid_key_ordering() {
    assert!(key(Some(3), None) > key(None, Some(5)));
    assert!(key(None, Some(5)) > key(None, None));
    assert!(key(Some(3), None) > key(None, None));
    assert!(key(Some(3), None) == key(Some(3), Some(9)));
    assert!(key(Some(3), Some(1)) == key(Some(3), Some(9)));
    assert!(key(None, None) == key(None, None));
}

#[test]
fn waitpid_key_compares_processes_first() {
    assert_eq!(key(Some(3), Some(9)).cmp(&key(Some(4), Some(1))), Ordering::Less);
    assert_eq!(key(Some(4), Some(1)).cmp(&key(Some(3), Some(9))), Ordering::Greater);
    assert_eq!(key(Some(4), None).cmp(&key(Some(4), Some(9))), Ordering::Equal);
}

#[test]
fn waitpid_key_compares_groups_where_a_process_is_missing() {
    assert_eq!(key(None, Some(2)).cmp(&key(None, Some(5))), Ordering::Less);
    assert_eq!(key(None, Some(5)).cmp(&key(None, Some(5))), Ordering::Equal);
    // A key that names a process is greater, whatever the groups are.
    assert_eq!(key(Some(3), Some(1)).cmp(&key(None, Some(5))), Ordering::Greater);
    assert_eq!(key(None, Some(5)).cmp(&key(Some(3), Some(1))), Ordering::Less);
    assert!(key(Some(3), Some(1)) > key(None, Some(5)));
    assert!(key(Some(0), Some(0)) > key(None, Some(usize::MAX)));
}

#[test]
fn waitpid_key_with_more_is_greater() {
    assert_eq!(key(Some(1), None).cmp(&key(None, Some(9))), Ordering::Greater);
    assert_eq!(key(None, Some(9)).cmp(&key(Some(1), None)), Ordering::Less);
    assert_eq!(key(None, Some(1)).cmp(&key(None, None)), Ordering::Greater);
    assert_eq!(key(None, None).cmp(&key(None, Some(1))), Ordering::Less);
    assert_eq!(key(None, None).cmp(&key(None, None)), Ordering::Equal);
    assert_eq!(key(None, None).partial_cmp(&key(Some(1), None)), Some(Ordering::Less));
    assert!(key(None, None) != key(Some(1), None));
}

#[test]
fn context_is_made_blocked_and_bare() {
    let context = Context::new(ContextId::from(5));
    assert_eq!(context.id, ContextId::from(5));
    assert_eq!(context.pgid, ContextId::from(5));
    assert_eq!(context.ppid, ContextId::from(0));
    assert_eq!(context.umask, 0o022);
    assert_eq!(context.status, Status::Blocked);
    assert!(!context.running);
    assert_eq!(context.cpu_id, None);
    assert_eq!(context.syscall, None);
    assert_eq!(context.syscall_head, vec![0u8; 4096]);
    assert_eq!(context.syscall_tail, vec![0u8; 4096]);
    assert!(!context.vfork);
    assert!(context.waitpid.is_empty());
    assert!(context.pending.is_empty());
    assert_eq!(context.wake, None);
    assert_eq!(context.arch, arch::Context::new());
    assert_eq!(context.arch.get_fx(), 0);
    assert_eq!(context.arch.get_page_table(), 0);
    assert_eq!(context.arch.get_stack(), 0);
    assert!(context.kfx.is_none());
    assert!(context.kstack.is_none());
    assert!(context.ksig.is_none());
    assert!(!context.ksig_restore);
    assert!(context.image.is_empty());
    assert!(context.heap.is_none());
    assert!(context.stack.is_none());
    assert!(context.sigstack.is_none());
    assert!(context.tls.is_none());
    assert!(context.name.is_empty());
    assert!(context.cwd.is_empty());
    assert_eq!(context.actions.len(), 128);
    for (action, flags) in &context.actions {
        assert_eq!(action.sa_handler, SIG_DFL);
        assert_eq!(action.sa_mask, [0, 0]);
        assert_eq!(action.sa_flags, 0);
        assert_eq!(*flags, 0);
    }
}

#[test]
fn block_and_unblock_follow_the_status() {
    let mut context = Context::new(ContextId::from(1));
    // A new context is blocked.
    assert!(!context.block());
    assert_eq!(context.status, Status::Blocked);
    assert!(context.unblock());
    assert_eq!(context.status, Status::Runnable);
    assert!(!context.unblock());
    assert_eq!(context.status, Status::Runnable);
    assert!(context.block());
    assert_eq!(context.status, Status::Blocked);
    assert!(context.unblock());
    assert_eq!(context.status, Status::Runnable);
}

#[test]
fn block_and_unblock_leave_ended_contexts_alone() {
    let mut context = Context::new(ContextId::from(1));
    context.status = Status::Exited(3);
    assert!(!context.block());
    assert!(!context.unblock());
    assert_eq!(context.status, Status::Exited(3));
    context.status = Status::Stopped(19);
    assert!(!context.block());
    assert!(!context.unblock());
    assert_eq!(context.status, Status::Stopped(19));
}

#[test]
fn set_kernel_addresses_places_the_stack_pointer() {
    let mut context = Context::new(ContextId::from(1));
    context.arch.set_page_table(0x5000);
    context.set_kernel_addresses(0x1000, 0x20000, ENTRY_STACK_OFFSET);
    assert_eq!(context.arch.get_fx(), 0x1000);
    assert_eq!(context.arch.get_stack(), 0x20000 + 65_528);
    assert_eq!(context.arch.get_page_table(), 0x5000);
}

#[test]
fn context_list_gives_rising_identifiers() {
    let mut list = ContextList::new();
    assert_eq!(list.len(), 0);
    assert_eq!(list.new_context().map(|c| c.id), Ok(ContextId::from(1)));
    assert_eq!(list.new_context().map(|c| c.id), Ok(ContextId::from(2)));
    assert_eq!(list.new_context().map(|c| c.id), Ok(ContextId::from(3)));
    assert_eq!(list.len(), 3);
    assert_eq!(list.get(ContextId::from(2)).map(|c| c.id), Some(ContextId::from(2)));
    assert_eq!(list.get(ContextId::from(2)).map(|c| c.status), Some(Status::Blocked));
    assert!(list.get(ContextId::from(4)).is_none());
    assert!(list.get(ContextId::from(0)).is_none());
    assert_eq!(list.current(ContextId::from(3)).map(|c| c.pgid), Some(ContextId::from(3)));
    assert!(list.current(ContextId::from(0)).is_none());
}

#[test]
fn context_list_does_not_give_a_removed_identifier_at_once() {
    let mut list = ContextList::new();
    list.new_context().unwrap();
    list.new_context().unwrap();
    list.new_context().unwrap();
    let removed = list.remove(ContextId::from(2));
    assert_eq!(removed.map(|c| c.id), Some(ContextId::from(2)));
    assert!(list.remove(ContextId::from(2)).is_none());
    assert_eq!(list.len(), 2);
    assert!(list.get(ContextId::from(2)).is_none());
    assert_eq!(list.new_context().map(|c| c.id), Ok(ContextId::from(4)));
}

#[test]
fn context_list_runs_out_of_identifiers_and_starts_over() {
    let mut list = ContextList::with_limit(3);
    assert_eq!(list.new_context().map(|c| c.id), Ok(ContextId::from(1)));
    assert_eq!(list.new_context().map(|c| c.id), Ok(ContextId::from(2)));
    assert_eq!(list.new_context().map(|c| c.id).map_err(|e| e.errno), Err(EAGAIN));
    assert_eq!(list.len(), 2);
    assert_eq!(list.new_context().map(|c| c.id).map_err(|e| e.errno), Err(EAGAIN));
    list.remove(ContextId::from(1));
    // The search has reached the limit and starts over at 1.
    assert_eq!(list.new_context().map(|c| c.id), Ok(ContextId::from(1)));
    list.remove(ContextId::from(2));
    assert_eq!(list.new_context().map(|c| c.id), Ok(ContextId::from(2)));
}

#[test]
fn context_list_skips_identifiers_in_use() {
    let mut list = ContextList::with_limit(5);
    for expected in 1..5 {
        assert_eq!(list.new_context().map(|c| c.id), Ok(ContextId::from(expected)));
    }
    list.remove(ContextId::from(3));
    // The search starts over at 1 and passes the identifiers in use.
    assert_eq!(list.new_context().map(|c| c.id), Ok(ContextId::from(3)));
    // From behind 3 on nothing is free: the search starts over at 1.
    list.remove(ContextId::from(1));
    assert_eq!(list.new_context().map(|c| c.id), Ok(ContextId::from(1)));
    // Now every identifier is in use.
    assert_eq!(list.new_context().map(|c| c.id).map_err(|e| e.errno), Err(EAGAIN));
    assert_eq!(list.len(), 4);
    list.remove(ContextId::from(4));
    assert_eq!(list.new_context().map(|c| c.id), Ok(ContextId::from(4)));
}

#[test]
fn context_list_fails_only_when_nothing_is_free() {
    let mut list = ContextList::with_limit(4);
    for expected in 1..4 {
        assert_eq!(list.new_context().map(|c| c.id), Ok(ContextId::from(expected)));
    }
    list.remove(ContextId::from(1));
    assert_eq!(list.new_context().map(|c| c.id), Ok(ContextId::from(1)));
    list.remove(ContextId::from(1));
    assert_eq!(list.new_context().map(|c| c.id), Ok(ContextId::from(1)));
    list.remove(ContextId::from(2));
    // The search starts behind 1, where 2 is free.
    assert_eq!(list.new_context().map(|c| c.id), Ok(ContextId::from(2)));
    assert_eq!(list.new_context().map(|c| c.id).map_err(|e| e.errno), Err(EAGAIN));
}

#[test]
fn context_list_without_room_gives_nothing() {
    let mut list = ContextList::with_limit(1);
    assert_eq!(list.new_context().map(|c| c.id).map_err(|e| e.errno), Err(EAGAIN));
    let mut list = ContextList::with_limit(0);
    assert_eq!(list.new_context().map(|c| c.id).map_err(|e| e.errno), Err(EAGAIN));
    assert_eq!(CONTEXT_MAX_CONTEXTS, (isize::MAX as usize) - 1);
}

#[test]
fn context_list_insert_puts_a_context_back() {
    let mut list = ContextList::new();
    list.new_context().unwrap();
    let mut context = list.remove(ContextId::from(1)).unwrap();
    context.status = Status::Runnable;
    context.name = b"init".to_vec();
    assert!(list.insert(context).is_none());
    assert_eq!(list.get(ContextId::from(1)).map(|c| c.status), Some(Status::Runnable));
    assert_eq!(list.get(ContextId::from(1)).map(|c| c.name.clone()), Some(b"init".to_vec()));
    let again = Context::new(ContextId::from(1));
    assert_eq!(list.insert(again).map(|c| c.status), Some(Status::Runnable));
    assert_eq!(list.len(), 1);
}

#[test]
fn spawn_builds_the_first_stack_frame() {
    let mut list = ContextList::new();
    let func: u64 = 0x0000_1234_5678_9abc;
    let context = list.spawn(func, 0x7000).unwrap();
    assert_eq!(context.id, ContextId::from(1));
    assert_eq!(context.status, Status::Runnable);
    assert!(!context.running);
    assert_eq!(context.arch.get_page_table(), 0x7000);
    assert_eq!(context.kfx, Some(vec![0u8; KFX_SIZE]));
    let stack = context.kstack.as_ref().unwrap();
    assert_eq!(stack.len(), KSTACK_SIZE);
    assert_eq!(stack.len() - 8, ENTRY_STACK_OFFSET);
    assert!(stack[..65_520].iter().all(|b| *b == 0));
    assert_eq!(stack[65_520..65_528], 0x23u64.to_le_bytes());
    assert_eq!(stack[65_528..], func.to_le_bytes());
    assert_eq!(stack[65_528..], [0xbc, 0x9a, 0x78, 0x56, 0x34, 0x12, 0, 0]);
    assert_eq!(list.spawn(1, 0).map(|c| c.id), Ok(ContextId::from(2)));
}

#[test]
fn spawn_fails_without_a_free_identifier() {
    let mut list = ContextList::with_limit(2);
    assert!(list.spawn(0x1000, 0).is_ok());
    assert_eq!(list.spawn(0x1000, 0).map(|c| c.id).map_err(|e| e.errno), Err(EAGAIN));
    assert_eq!(list.len(), 1);
}

#[test]
fn init_makes_the_running_context() {
    let mut state = ContextState::new();
    assert_eq!(context_id(&state), ContextId::from(0));
    assert_eq!(contexts(&state).len(), 0);
    let id = init(&mut state);
    assert_eq!(id, ContextId::from(1));
    assert_eq!(context_id(&state), ContextId::from(1));
    let list = contexts(&state);
    assert_eq!(list.len(), 1);
    let context = list.current(context_id(&state)).unwrap();
    assert_eq!(context.status, Status::Runnable);
    assert!(context.running);
    assert_eq!(context.cpu_id, Some(dongos::cpu_id()));
    assert_eq!(context.kfx, Some(vec![0u8; 512]));
    assert!(context.kstack.is_none());
    // The next context gets the next identifier, and does not run.
    let second = contexts_mut(&mut state).new_context().map(|c| (c.id, c.running));
    assert_eq!(second, Ok((ContextId::from(2), false)));
    assert_eq!(context_id(&state), ContextId::from(1));
    assert_eq!(contexts(&state).len(), 2);
}

#[test]
fn context_list_iter_walks_in_rising_order() {
    let mut list = ContextList::new();
    assert!(list.iter().is_empty());
    for _ in 0..5 {
        list.new_context().unwrap();
    }
    list.remove(ContextId::from(2));
    list.remove(ContextId::from(4));
    let ids: Vec<usize> = list.iter().into_iter().map(|id| id.into()).collect();
    assert_eq!(ids, vec![1, 3, 5]);
    let mut back = Context::new(ContextId::from(2));
    back.status = Status::Exited(0);
    list.insert(back);
    let ids: Vec<usize> = list.iter().into_iter().map(|id| id.into()).collect();
    assert_eq!(ids, vec![1, 2, 3, 5]);
}
