//! What holds of every frame allocator, whatever is asked of it.

use super::frame::frame_run;
use super::FrameAllocator;
use vstd::prelude::*;

verus! {

/// One thing that can be asked of a frame allocator.
pub enum Request {
    /// Hand out a run of `count` frames.
    Allocate { count: nat },
    /// Take back the `count` frames from `first` on.
    Release { first: int, count: nat },
    /// Set the mode.
    SetNoncore { noncore: bool },
}

/// Whether `request` may be made in state `m`: the allocator has to admit
/// the frames that are given back.
pub open spec fn admits<T: FrameAllocator>(m: T::Model, request: Request) -> bool {
    match request {
        Request::Release { first, count } => T::admits_release(m, first, count),
        _ => true,
    }
}

/// The state after `request` was made in state `m`.
pub open spec fn after<T: FrameAllocator>(m: T::Model, request: Request) -> T::Model {
    match request {
        Request::Allocate { count } => T::after_allocation(m, count),
        Request::Release { first, count } => T::after_release(m, first, count),
        Request::SetNoncore { noncore } => T::after_set_noncore(m, noncore),
    }
}

/// Whether the requests may be made one after the other from state `m` on.
pub open spec fn admits_all<T: FrameAllocator>(m: T::Model, requests: Seq<Request>) -> bool
    decreases requests.len(),
{
    requests.len() == 0 || (admits::<T>(m, requests[0]) && admits_all::<T>(
        after::<T>(m, requests[0]),
        requests.drop_first(),
    ))
}

/// The state after the requests were made one after the other from state `m`
/// on.
pub open spec fn after_all<T: FrameAllocator>(m: T::Model, requests: Seq<Request>) -> T::Model
    decreases requests.len(),
{
    if requests.len() == 0 {
        m
    } else {
        after_all::<T>(after::<T>(m, requests[0]), requests.drop_first())
    }
}

/// Whether no request gives back a frame of `run`.
pub open spec fn keeps(requests: Seq<Request>, run: Set<int>) -> bool {
    forall|k: int|
        0 <= k < requests.len() ==> (#[trigger] requests[k] matches Request::Release { first, count }
            ==> frame_run(first, count as int).disjoint(run))
}

/// One request leaves a valid state with the same frames in all.
pub proof fn lemma_after<T: FrameAllocator>(m: T::Model, request: Request)
    requires
        T::inv(m),
        admits::<T>(m, request),
    ensures
        T::inv(after::<T>(m, request)),
        T::total_frames(after::<T>(m, request)) == T::total_frames(m),
{
    match request {
        Request::Allocate { count } => T::lemma_allocation(m, count),
        Request::Release { first, count } => T::lemma_release(m, first, count),
        Request::SetNoncore { noncore } => T::lemma_set_noncore(m, noncore),
    }
}

/// Frame accounting: after any requests, made from a valid state on, the
/// state is valid, and the free and the used frames add up to the frames
/// that the allocator accounted for at the start.
pub proof fn lemma_frame_accounting<T: FrameAllocator>(m: T::Model, requests: Seq<Request>)
    requires
        T::inv(m),
        admits_all::<T>(m, requests),
    ensures
        T::inv(after_all::<T>(m, requests)),
        T::free_count(after_all::<T>(m, requests)) + T::used_count(after_all::<T>(m, requests))
            == T::total_frames(m),
    decreases requests.len(),
{
    if requests.len() == 0 {
        T::lemma_accounting(m);
    } else {
        lemma_after::<T>(m, requests[0]);
        lemma_frame_accounting::<T>(after::<T>(m, requests[0]), requests.drop_first());
    }
}

/// Frames that are handed out stay handed out as long as no request gives
/// one of them back.
pub proof fn lemma_stays_allocated<T: FrameAllocator>(m: T::Model, requests: Seq<Request>, run: Set<int>)
    requires
        T::inv(m),
        admits_all::<T>(m, requests),
        run.subset_of(T::allocated(m)),
        keeps(requests, run),
    ensures
        T::inv(after_all::<T>(m, requests)),
        run.subset_of(T::allocated(after_all::<T>(m, requests))),
    decreases requests.len(),
{
    if requests.len() > 0 {
        let request = requests[0];
        let rest = requests.drop_first();
        lemma_after::<T>(m, request);
        match request {
            Request::Allocate { count } => T::lemma_allocation(m, count),
            Request::Release { first, count } => T::lemma_release(m, first, count),
            Request::SetNoncore { noncore } => T::lemma_set_noncore(m, noncore),
        }
        assert(keeps(rest, run)) by {
            assert forall|k: int| 0 <= k < rest.len() implies (#[trigger] rest[k] matches Request::Release {
                first,
                count,
            } ==> frame_run(first, count as int).disjoint(run)) by {
                assert(rest[k] == requests[k + 1]);
            }
        }
        lemma_stays_allocated::<T>(after::<T>(m, request), rest, run);
    }
}

/// No double allocation: the run that a request is answered with shares no
/// frame with the run that an earlier request was answered with, whatever
/// was asked in between, as long as no frame of the earlier run was given
/// back.
pub proof fn lemma_no_double_allocation<T: FrameAllocator>(
    m: T::Model,
    count: nat,
    between: Seq<Request>,
    again: nat,
)
    requires
        T::inv(m),
        T::allocation(m, count) is Some,
        admits_all::<T>(T::after_allocation(m, count), between),
        keeps(between, frame_run(T::allocation(m, count)->0, count as int)),
        T::allocation(after_all::<T>(T::after_allocation(m, count), between), again) is Some,
    ensures
        frame_run(T::allocation(m, count)->0, count as int).disjoint(
            frame_run(
                T::allocation(after_all::<T>(T::after_allocation(m, count), between), again)->0,
                again as int,
            ),
        ),
{
    let run = frame_run(T::allocation(m, count)->0, count as int);
    let then = T::after_allocation(m, count);
    T::lemma_allocation(m, count);
    lemma_stays_allocated::<T>(then, between, run);
    T::lemma_allocation(after_all::<T>(then, between), again);
}

} // verus!
