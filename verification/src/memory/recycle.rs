//! The allocator that keeps the frames that are given back, and hands them
//! out again before it asks another allocator for more.

use super::frame::{frame_run, Frame};
use super::free_list::{
    best_fit, best_fit_upto, frames_of, free_total, lemma_apart, lemma_best_fit_upto, lemma_free_total,
    lemma_coalescing, lemma_free_total_prefix, lemma_position, lemma_position_from, lemma_released, lemma_taken, position,
    position_from, ranges_wf, releasable, released, taken, taken_first, touches_left, touches_right,
    FreeRange,
};
use super::FrameAllocator;
use vstd::prelude::*;
use vstd::set_lib::*;

verus! {

/// What a [`RecycleAllocator`] knows.
#[verifier::ext_equal]
pub struct RecycleModel<M> {
    /// What the allocator behind it knows.
    pub inner: M,
    /// Whether the early phase of the boot is over, so that frames that are
    /// given back are kept.
    pub noncore: bool,
    /// The runs of frames that were given back and are kept, by rising
    /// addresses.
    pub free: Seq<FreeRange>,
}

/// The runs that a list of pairs of machine numbers stands for.
pub open spec fn as_ranges(list: Seq<(u64, u64)>) -> Seq<FreeRange> {
    Seq::new(list.len(), |k: int| (list[k].0 as int, list[k].1 as int))
}

/// The allocator that stands before another allocator and keeps what is given
/// back to it.
pub struct RecycleAllocator<T: FrameAllocator> {
    inner: T,
    noncore: bool,
    free: Vec<(u64, u64)>,
}

impl<T: FrameAllocator> View for RecycleAllocator<T> {
    type V = RecycleModel<T::Model>;

    /// What the allocator knows.
    closed spec fn view(&self) -> RecycleModel<T::Model> {
        RecycleModel { inner: self.inner.model(), noncore: self.noncore, free: as_ranges(self.free@) }
    }
}

impl<T: FrameAllocator> RecycleAllocator<T> {
    /// An allocator that keeps nothing yet and stands before `inner`. The
    /// early phase of the boot is not over.
    pub fn new(inner: T) -> (allocator: Self)
        requires
            T::inv(inner.model()),
        ensures
            allocator@ == (RecycleModel::<T::Model> {
                inner: inner.model(),
                noncore: false,
                free: Seq::empty(),
            }),
            Self::inv(allocator@),
    {
        let allocator = RecycleAllocator { inner, noncore: false, free: Vec::new() };
        assert(as_ranges(allocator.free@) =~= Seq::empty());
        assert(frames_of(Seq::<FreeRange>::empty()) =~= Set::empty());
        allocator
    }

    /// Whether the early phase of the boot is over, so that frames that are
    /// given back are kept.
    pub fn is_noncore(&self) -> (noncore: bool)
        ensures
            noncore == self@.noncore,
    {
        self.noncore
    }

    /// The runs that are kept, by rising addresses: of each the number of its
    /// first frame and the number of its frames.
    pub fn free_ranges(&self) -> (ranges: Vec<(u64, u64)>)
        ensures
            as_ranges(ranges@) == self@.free,
    {
        let mut ranges: Vec<(u64, u64)> = Vec::new();
        let mut i: usize = 0;
        while i < self.free.len()
            invariant
                i <= self.free.len(),
                ranges@ == self.free@.subrange(0, i as int),
            decreases self.free.len() - i,
        {
            ranges.push(self.free[i]);
            i = i + 1;
            assert(ranges@ =~= self.free@.subrange(0, i as int));
        }
        assert(ranges@ =~= self.free@);
        ranges
    }

    /// The number of frames in the runs that are kept.
    fn free_count(&self) -> (count: usize)
        requires
            Self::inv(self@),
        ensures
            count == free_total(self@.free),
    {
        let ghost list = as_ranges(self.free@);
        proof {
            T::lemma_accounting(self.inner.model());
            lemma_free_total(list);
            lemma_len_subset(frames_of(list), T::allocated(self.inner.model()));
        }
        let mut count: usize = 0;
        let mut i: usize = 0;
        while i < self.free.len()
            invariant
                i <= self.free.len(),
                list == as_ranges(self.free@),
                ranges_wf(list),
                free_total(list) <= usize::MAX,
                count == free_total(list.subrange(0, i as int)),
            decreases self.free.len() - i,
        {
            proof {
                lemma_free_total_prefix(list, i as int);
                lemma_free_total_prefix(list, i as int + 1);
                assert(list[i as int].1 == self.free@[i as int].1);
            }
            count = count + self.free[i].1 as usize;
            i = i + 1;
        }
        assert(list.subrange(0, i as int) =~= list);
        count
    }
}

impl<T: FrameAllocator> FrameAllocator for RecycleAllocator<T> {
    type Model = RecycleModel<T::Model>;

    open spec fn model(&self) -> RecycleModel<T::Model> {
        self@
    }

    /// The allocator behind is in a valid state, the list is in order, and
    /// every frame of the list was handed out by the allocator behind.
    open spec fn inv(m: RecycleModel<T::Model>) -> bool {
        &&& T::inv(m.inner)
        &&& ranges_wf(m.free)
        &&& frames_of(m.free).subset_of(T::allocated(m.inner))
    }

    /// What the allocator behind has handed out and the list does not hold.
    open spec fn allocated(m: RecycleModel<T::Model>) -> Set<int> {
        T::allocated(m.inner).difference(frames_of(m.free))
    }

    open spec fn total_frames(m: RecycleModel<T::Model>) -> nat {
        T::total_frames(m.inner)
    }

    /// The free frames of the allocator behind and the frames of the list.
    open spec fn free_count(m: RecycleModel<T::Model>) -> nat {
        (T::free_count(m.inner) + free_total(m.free)) as nat
    }

    /// The used frames of the allocator behind without the frames of the
    /// list.
    open spec fn used_count(m: RecycleModel<T::Model>) -> nat {
        (T::used_count(m.inner) - free_total(m.free)) as nat
    }

    /// Where a run of the list is large enough, the frames at the end of the
    /// best fit; else what the allocator behind hands out.
    open spec fn allocation(m: RecycleModel<T::Model>, count: nat) -> Option<int> {
        match best_fit(m.free, count as int) {
            Some(i) => Some(taken_first(m.free, i, count as int)),
            None => T::allocation(m.inner, count),
        }
    }

    open spec fn after_allocation(m: RecycleModel<T::Model>, count: nat) -> RecycleModel<T::Model> {
        match best_fit(m.free, count as int) {
            Some(i) => RecycleModel { free: taken(m.free, i, count as int), ..m },
            None => RecycleModel { inner: T::after_allocation(m.inner, count), ..m },
        }
    }

    /// In the early phase of the boot the frames go to the allocator behind,
    /// which has to admit them, and none of them may be kept in the list.
    /// Later the frames have to be handed out at the moment.
    open spec fn admits_release(m: RecycleModel<T::Model>, first: int, count: nat) -> bool {
        if !m.noncore {
            T::admits_release(m.inner, first, count) && frame_run(first, count as int).disjoint(
                frames_of(m.free),
            )
        } else {
            frame_run(first, count as int).subset_of(Self::allocated(m))
        }
    }

    /// In the early phase of the boot the frames go back to the allocator
    /// behind. Later they are kept in the list; no frames leave the list as
    /// it is.
    open spec fn after_release(m: RecycleModel<T::Model>, first: int, count: nat) -> RecycleModel<
        T::Model,
    > {
        if !m.noncore {
            RecycleModel { inner: T::after_release(m.inner, first, count), ..m }
        } else if count == 0 {
            m
        } else {
            RecycleModel { free: released(m.free, first, count as int), ..m }
        }
    }

    open spec fn after_set_noncore(m: RecycleModel<T::Model>, noncore: bool) -> RecycleModel<T::Model> {
        RecycleModel { noncore, ..m }
    }

    proof fn lemma_accounting(m: RecycleModel<T::Model>) {
        T::lemma_accounting(m.inner);
        lemma_free_total(m.free);
        lemma_len_subset(frames_of(m.free), T::allocated(m.inner));
        lemma_set_difference_len(T::allocated(m.inner), frames_of(m.free));
        assert(T::allocated(m.inner).intersect(frames_of(m.free)) =~= frames_of(m.free));
    }

    proof fn lemma_allocation(m: RecycleModel<T::Model>, count: nat) {
        let after = Self::after_allocation(m, count);
        let handed = T::allocated(m.inner);
        let kept = frames_of(m.free);
        match best_fit(m.free, count as int) {
            Some(i) => {
                lemma_best_fit_upto(m.free, count as int, m.free.len());
                lemma_taken(m.free, i, count as int);
                let run = frame_run(taken_first(m.free, i, count as int), count as int);
                assert(Self::allocated(after) =~= Self::allocated(m).union(run));
                assert(run.disjoint(Self::allocated(m)));
            },
            None => {
                T::lemma_allocation(m.inner, count);
                match T::allocation(m.inner, count) {
                    Some(first) => {
                        let run = frame_run(first, count as int);
                        assert(Self::allocated(after) =~= Self::allocated(m).union(run));
                        assert(run.disjoint(Self::allocated(m)));
                    },
                    None => {},
                }
            },
        }
    }

    proof fn lemma_release(m: RecycleModel<T::Model>, first: int, count: nat) {
        let after = Self::after_release(m, first, count);
        let run = frame_run(first, count as int);
        if !m.noncore {
            T::lemma_release(m.inner, first, count);
        } else if count == 0 {
            assert(run =~= Set::empty());
        } else {
            T::lemma_accounting(m.inner);
            assert(run.contains(first));
            assert(run.contains(first + count - 1));
            assert(T::allocated(m.inner).contains(first));
            assert(T::allocated(m.inner).contains(first + count - 1));
            lemma_apart(m.free, first, count as int);
            lemma_released(m.free, first, count as int);
            assert(Self::allocated(after) =~= Self::allocated(m).difference(run));
        }
    }

    proof fn lemma_set_noncore(m: RecycleModel<T::Model>, noncore: bool) {
    }

    fn set_noncore(&mut self, noncore: bool) {
        proof {
            Self::lemma_set_noncore(self@, noncore);
        }
        self.noncore = noncore;
    }

    fn free_frames(&self) -> (count: usize) {
        proof {
            Self::lemma_accounting(self@);
            T::lemma_accounting(self.inner.model());
            lemma_free_total(self@.free);
        }
        self.inner.free_frames() + self.free_count()
    }

    fn used_frames(&self) -> (count: usize) {
        proof {
            Self::lemma_accounting(self@);
            T::lemma_accounting(self.inner.model());
            lemma_free_total(self@.free);
            lemma_len_subset(frames_of(self@.free), T::allocated(self.inner.model()));
        }
        self.inner.used_frames() - self.free_count()
    }

    fn allocate_frames(&mut self, count: usize) -> (frame: Option<Frame>) {
        proof {
            Self::lemma_allocation(self@, count as nat);
        }
        let ghost list = self@.free;
        let wanted = count as u64;
        let mut small_i: Option<usize> = None;
        let mut small: u64 = 0;
        let mut i: usize = 0;
        while i < self.free.len()
            invariant
                i <= self.free.len(),
                *self == *old(self),
                wanted == count,
                list == as_ranges(self.free@),
                match best_fit_upto(list, count as int, i as nat) {
                    Some(k) => small_i == Some(k as usize) && k < i && small == list[k].1,
                    None => small_i.is_none(),
                },
            decreases self.free.len() - i,
        {
            let free = self.free[i];
            assert(list[i as int] == (free.0 as int, free.1 as int));
            // Later entries can be removed faster.
            if free.1 >= wanted {
                if free.1 <= small || small_i.is_none() {
                    small_i = Some(i);
                    small = free.1;
                }
            }
            i = i + 1;
        }
        match small_i {
            Some(i) => {
                proof {
                    lemma_best_fit_upto(list, count as int, list.len());
                    lemma_taken(list, i as int, count as int);
                }
                let free = self.free[i];
                assert(list[i as int] == (free.0 as int, free.1 as int));
                let left = free.1 - wanted;
                let first = free.0 + left;
                if left == 0 {
                    self.free.remove(i);
                    assert(as_ranges(self.free@) =~= list.remove(i as int));
                } else {
                    self.free.set(i, (free.0, left));
                    assert(as_ranges(self.free@) =~= list.update(i as int, (free.0 as int, left as int)));
                }
                Some(Frame::from_number(first))
            },
            None => self.inner.allocate_frames(count),
        }
    }

    fn deallocate_frames(&mut self, frame: Frame, count: usize) {
        proof {
            Self::lemma_release(self@, frame@, count as nat);
        }
        if self.noncore {
            if count > 0 {
                let first = frame.number();
                proof {
                    let model = self@;
                    T::lemma_accounting(model.inner);
                    let run = frame_run(first as int, count as int);
                    assert(run.contains(first as int));
                    assert(run.contains(first + count - 1));
                    assert(T::allocated(model.inner).contains(first + count - 1));
                    lemma_apart(model.free, first as int, count as int);
                }
                if !self.merge(first, count as u64) {
                    let p = self.position(first);
                    self.free.insert(p, (first, count as u64));
                    assert(as_ranges(self.free@) =~= old(self)@.free.insert(
                        p as int,
                        (first as int, count as int),
                    ));
                }
            }
        } else {
            self.inner.deallocate_frames(frame, count);
        }
    }
}

impl<T: FrameAllocator> RecycleAllocator<T> {
    /// The position in the list at which a run that starts at the frame
    /// `first` belongs: behind the runs that start before it.
    fn position(&self, first: u64) -> (p: usize)
        ensures
            p == position(self@.free, first as int),
            p <= self@.free.len(),
    {
        let ghost list = as_ranges(self.free@);
        let mut i: usize = 0;
        proof {
            lemma_position_from(list, first as int, 0);
        }
        while i < self.free.len() && self.free[i].0 < first
            invariant
                i <= self.free.len(),
                list == as_ranges(self.free@),
                position_from(list, first as int, i as int) == position(list, first as int),
            decreases self.free.len() - i,
        {
            assert(list[i as int].0 == self.free@[i as int].0);
            i = i + 1;
        }
        proof {
            if i < self.free.len() {
                assert(list[i as int].0 == self.free@[i as int].0);
            }
        }
        i
    }

    /// Joins the `count` frames from `first` on to the runs of the list that
    /// they touch, and says whether there was such a run. Where there is
    /// none, the list stays as it is.
    fn merge(&mut self, first: u64, count: u64) -> (merged: bool)
        requires
            ranges_wf(old(self)@.free),
            releasable(old(self)@.free, first as int, count as int),
        ensures
            final(self)@.inner == old(self)@.inner,
            final(self)@.noncore == old(self)@.noncore,
            merged == (touches_left(old(self)@.free, first as int) || touches_right(
                old(self)@.free,
                first as int,
                count as int,
            )),
            merged ==> final(self)@.free == released(old(self)@.free, first as int, count as int),
            !merged ==> final(self)@.free == old(self)@.free,
    {
        let ghost list = self@.free;
        proof {
            lemma_position(list, first as int, count as int);
        }
        let p = self.position(first);
        let left = if p > 0 {
            let before = self.free[p - 1];
            assert(list[p - 1] == (before.0 as int, before.1 as int));
            before.0 + before.1 == first
        } else {
            false
        };
        let right = if p < self.free.len() {
            let behind = self.free[p];
            assert(list[p as int] == (behind.0 as int, behind.1 as int));
            first + count == behind.0
        } else {
            false
        };
        if left && right {
            let before = self.free[p - 1];
            let behind = self.free[p];
            self.free.set(p - 1, (before.0, before.1 + count + behind.1));
            self.free.remove(p);
            assert(as_ranges(self.free@) =~= released(list, first as int, count as int));
            true
        } else if left {
            let before = self.free[p - 1];
            self.free.set(p - 1, (before.0, before.1 + count));
            assert(as_ranges(self.free@) =~= released(list, first as int, count as int));
            true
        } else if right {
            let behind = self.free[p];
            self.free.set(p, (first, count + behind.1));
            assert(as_ranges(self.free@) =~= released(list, first as int, count as int));
            true
        } else {
            false
        }
    }

    /// Hands out one frame.
    pub fn allocate_frame(&mut self) -> (frame: Option<Frame>)
        requires
            Self::inv(old(self)@),
        ensures
            final(self)@ == Self::after_allocation(old(self)@, 1),
            frame matches Some(first) ==> Self::allocation(old(self)@, 1) == Some(first@),
            frame is None ==> Self::allocation(old(self)@, 1) is None,
    {
        self.allocate_frames(1)
    }

    /// Takes back one frame, where the allocator admits that.
    pub fn deallocate_frame(&mut self, frame: Frame)
        requires
            Self::inv(old(self)@),
            Self::admits_release(old(self)@, frame@, 1),
        ensures
            final(self)@ == Self::after_release(old(self)@, frame@, 1),
    {
        self.deallocate_frames(frame, 1)
    }
}

/// Coalescing: once the early phase of the boot is over, two runs that follow
/// one another, given back one after the other in either order, leave the
/// allocator in the very state that the two given back as one run leave. So
/// the free and the used frames are the same, and every later request is
/// answered alike.
pub proof fn lemma_release_in_parts<T: FrameAllocator>(
    m: RecycleModel<T::Model>,
    first: int,
    lower: nat,
    upper: nat,
)
    requires
        RecycleAllocator::<T>::inv(m),
        m.noncore,
        lower > 0,
        upper > 0,
        RecycleAllocator::<T>::admits_release(m, first, lower + upper),
    ensures
        RecycleAllocator::<T>::after_release(
            RecycleAllocator::<T>::after_release(m, first, lower),
            first + lower,
            upper,
        ) == RecycleAllocator::<T>::after_release(m, first, lower + upper),
        RecycleAllocator::<T>::after_release(
            RecycleAllocator::<T>::after_release(m, first + lower, upper),
            first,
            lower,
        ) == RecycleAllocator::<T>::after_release(m, first, lower + upper),
{
    let run = frame_run(first, (lower + upper) as int);
    T::lemma_accounting(m.inner);
    assert(run.contains(first));
    assert(run.contains(first + lower + upper - 1));
    assert(T::allocated(m.inner).contains(first));
    assert(T::allocated(m.inner).contains(first + lower + upper - 1));
    lemma_apart(m.free, first, (lower + upper) as int);
    lemma_coalescing(m.free, first, lower as int, upper as int);
}

} // verus!
