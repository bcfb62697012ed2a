//! What the allocator of the usable areas knows, said in mathematical
//! values, and what holds of it.

use super::area::MemoryArea;
use super::frame::{frame_run, lemma_frame_run, FRAME_LIMIT};
use super::laws::Request;
use vstd::prelude::*;
use vstd::set_lib::*;

verus! {

/// What a [`BumpAllocator`] knows.
#[verifier::ext_equal]
pub struct BumpModel {
    /// The usable areas, in the order of the memory map.
    pub areas: Seq<MemoryArea>,
    /// The number of the next frame that has not been looked at.
    pub cursor: int,
    /// The area that frames are taken from at the moment.
    pub current: Option<MemoryArea>,
    /// The number of the first frame of the kernel.
    pub kernel_start: int,
    /// The number of the last frame of the kernel.
    pub kernel_end: int,
    /// The frames that were handed out and not given back.
    pub allocated: Set<int>,
}

/// The number of the first frame of an area.
pub open spec fn first_frame(area: MemoryArea) -> int {
    area.start_frame_number as int
}

/// The number of the last frame of an area: the frame before the one that
/// ends its range. An area whose range ends where it starts has no frame.
pub open spec fn last_frame(area: MemoryArea) -> int {
    area.end_frame_number - 1
}

/// The frames of an area.
pub open spec fn area_frames(area: MemoryArea) -> Set<int> {
    set_int_range(first_frame(area), last_frame(area) + 1)
}

/// The number of frames in the first `n` of `areas`.
pub open spec fn frames_upto(areas: Seq<MemoryArea>, n: nat) -> nat
    decreases n,
{
    if n == 0 || n > areas.len() {
        0
    } else {
        frames_upto(areas, (n - 1) as nat) + area_frames(areas[n - 1]).len()
    }
}

impl BumpModel {
    /// Whether frame `f` belongs to the kernel.
    pub open spec fn in_kernel(self, f: int) -> bool {
        self.kernel_start <= f <= self.kernel_end
    }

    /// Whether frame `f` can still be handed out: the cursor has not passed
    /// it and it is not a frame of the kernel.
    pub open spec fn is_free(self, f: int) -> bool {
        f >= self.cursor && !self.in_kernel(f)
    }

    /// The frames of `area` that can still be handed out.
    pub open spec fn free_in(self, area: MemoryArea) -> Set<int> {
        area_frames(area).filter(|f: int| self.is_free(f))
    }

    /// The frames of `area` that cannot be handed out.
    pub open spec fn used_in(self, area: MemoryArea) -> Set<int> {
        area_frames(area).filter(|f: int| !self.is_free(f))
    }

    /// The number of free frames in the first `n` areas.
    pub open spec fn free_upto(self, n: nat) -> nat
        decreases n,
    {
        if n == 0 || n > self.areas.len() {
            0
        } else {
            self.free_upto((n - 1) as nat) + self.free_in(self.areas[n - 1]).len()
        }
    }

    /// The number of used frames in the first `n` areas.
    pub open spec fn used_upto(self, n: nat) -> nat
        decreases n,
    {
        if n == 0 || n > self.areas.len() {
            0
        } else {
            self.used_upto((n - 1) as nat) + self.used_in(self.areas[n - 1]).len()
        }
    }

    /// The number of frames in the first `n` areas.
    pub open spec fn total_upto(self, n: nat) -> nat {
        frames_upto(self.areas, n)
    }

    /// Whether the model is a state of an allocator: frame numbers leave room
    /// for a cursor behind them, the current area is one of the areas and
    /// starts at or before the cursor, the frames in all can be counted by
    /// the machine, and what is handed out lies below the cursor and is
    /// counted as used.
    pub open spec fn inv(self) -> bool {
        &&& forall|k: int|
            0 <= k < self.areas.len() ==> first_frame(#[trigger] self.areas[k]) < FRAME_LIMIT - 1
                && last_frame(self.areas[k]) < FRAME_LIMIT - 1
        &&& 0 <= self.cursor <= FRAME_LIMIT - 1
        &&& 0 <= self.kernel_start < FRAME_LIMIT - 1
        &&& 0 <= self.kernel_end < FRAME_LIMIT - 1
        &&& (self.current matches Some(area) ==> self.areas.contains(area) && first_frame(area)
            <= self.cursor)
        &&& self.total_upto(self.areas.len()) <= usize::MAX
        &&& self.allocated.finite()
        &&& self.allocated.len() <= self.used_upto(self.areas.len())
        &&& forall|f: int| #[trigger] self.allocated.contains(f) ==> 0 <= f < self.cursor
    }
}

/// Among the first `n` of `areas`, the position of the area that is taken
/// next when the cursor stands at `cursor`: of the areas that do not end
/// before the cursor the one that starts lowest, and of several that start
/// there the first.
pub open spec fn next_area_upto(areas: Seq<MemoryArea>, cursor: int, n: nat) -> Option<int>
    decreases n,
{
    if n == 0 || n > areas.len() {
        None
    } else {
        let before = next_area_upto(areas, cursor, (n - 1) as nat);
        let area = areas[n - 1];
        if last_frame(area) >= cursor && (before matches Some(b) ==> first_frame(area) < first_frame(
            areas[b],
        )) {
            Some(n - 1)
        } else {
            before
        }
    }
}

/// The area that is taken next when the cursor stands at `cursor`.
pub open spec fn next_area(areas: Seq<MemoryArea>, cursor: int) -> Option<MemoryArea> {
    match next_area_upto(areas, cursor, areas.len()) {
        Some(k) => Some(areas[k]),
        None => None,
    }
}

/// What the area found by [`next_area_upto`] is.
pub proof fn lemma_next_area_upto(areas: Seq<MemoryArea>, cursor: int, n: nat)
    requires
        n <= areas.len(),
    ensures
        next_area_upto(areas, cursor, n) matches Some(k) ==> {
            &&& 0 <= k < n
            &&& last_frame(areas[k]) >= cursor
            &&& forall|j: int|
                0 <= j < n && last_frame(#[trigger] areas[j]) >= cursor ==> first_frame(areas[k])
                    < first_frame(areas[j]) || (first_frame(areas[k]) == first_frame(areas[j]) && k
                    <= j)
        },
        next_area_upto(areas, cursor, n) is None ==> forall|j: int|
            0 <= j < n ==> last_frame(#[trigger] areas[j]) < cursor,
    decreases n,
{
    if n > 0 {
        lemma_next_area_upto(areas, cursor, (n - 1) as nat);
    }
}

/// Whether the cursor of `m` has left the current area behind.
pub open spec fn is_stale(m: BumpModel) -> bool {
    m.current matches Some(area) && last_frame(area) < m.cursor
}

/// Whether the frame numbers of `m` leave room for the search of a run.
pub open spec fn searchable(m: BumpModel) -> bool {
    &&& forall|k: int|
        0 <= k < m.areas.len() ==> first_frame(#[trigger] m.areas[k]) < FRAME_LIMIT - 1 && last_frame(
            m.areas[k],
        ) < FRAME_LIMIT - 1
    &&& 0 <= m.cursor <= FRAME_LIMIT - 1
    &&& 0 <= m.kernel_end < FRAME_LIMIT - 1
    &&& (m.current matches Some(area) ==> m.areas.contains(area))
}

/// The larger of two numbers.
pub open spec fn max_of(a: int, b: int) -> int {
    if a >= b {
        a
    } else {
        b
    }
}

/// The search for a run of `count` frames from state `m` on: the first frame
/// of the run that is found, if any, and the state in which the search ends.
///
/// A request for no frames fails. With no current area the request fails.
/// Where the run from the cursor on does not fit into the current area, the
/// cursor leaves that area and the next area is taken; with none left the
/// request fails. Where the run meets a frame of the kernel, the cursor moves
/// behind the kernel. Else the run from the cursor on is handed out and the
/// cursor moves behind it.
pub open spec fn search(m: BumpModel, count: nat) -> (Option<int>, BumpModel)
    decreases FRAME_LIMIT - m.cursor, (if is_stale(m) { 1int } else { 0int }),
    when searchable(m)
    via search_decreases
{
    if count == 0 {
        (None, m)
    } else {
        match m.current {
            None => (None, m),
            Some(area) => {
                let end = m.cursor + count - 1;
                if end > last_frame(area) {
                    let cursor = max_of(m.cursor, last_frame(area) + 1);
                    match next_area(m.areas, cursor) {
                        None => (None, BumpModel { cursor, current: None, ..m }),
                        Some(next) => search(
                            BumpModel {
                                cursor: max_of(cursor, first_frame(next)),
                                current: Some(next),
                                ..m
                            },
                            count,
                        ),
                    }
                } else if m.cursor <= m.kernel_end && end >= m.kernel_start {
                    search(BumpModel { cursor: m.kernel_end + 1, ..m }, count)
                } else {
                    (
                        Some(m.cursor),
                        BumpModel {
                            cursor: m.cursor + count,
                            allocated: m.allocated.union(frame_run(m.cursor, count as int)),
                            ..m
                        },
                    )
                }
            },
        }
    }
}

#[via_fn]
proof fn search_decreases(m: BumpModel, count: nat) {
    if count != 0 {
        if let Some(area) = m.current {
            let cursor = max_of(m.cursor, last_frame(area) + 1);
            lemma_next_area_upto(m.areas, cursor, m.areas.len());
        }
    }
}

/// The smaller of two numbers.
pub open spec fn min_of(a: int, b: int) -> int {
    if a <= b {
        a
    } else {
        b
    }
}

/// The number of frames from `lo` up to and with `hi`.
pub open spec fn range_len(lo: int, hi: int) -> int {
    if hi >= lo {
        hi - lo + 1
    } else {
        0
    }
}

/// The frames from `lo` up to and with `hi` are as many as [`range_len`] says.
pub proof fn lemma_range_len(lo: int, hi: int)
    ensures
        set_int_range(lo, hi + 1).finite(),
        set_int_range(lo, hi + 1).len() == range_len(lo, hi),
{
    if hi >= lo {
        lemma_int_range(lo, hi + 1);
    } else {
        assert(set_int_range(lo, hi + 1) =~= Set::empty());
    }
}

/// The number of frames of `area` that can still be handed out in state `m`,
/// computed from the bounds: the frames of the area from the cursor on,
/// without those of the kernel among them.
pub open spec fn free_in_area(m: BumpModel, area: MemoryArea) -> int {
    let lo = max_of(first_frame(area), m.cursor);
    let hi = last_frame(area);
    range_len(lo, hi) - range_len(max_of(lo, m.kernel_start), min_of(hi, m.kernel_end))
}

/// The free and the used frames of an area are finite sets that add up to
/// the frames of the area, and the free ones are as many as the bounds say.
pub proof fn lemma_area_counts(m: BumpModel, area: MemoryArea)
    ensures
        area_frames(area).finite(),
        area_frames(area).len() == range_len(first_frame(area), last_frame(area)),
        m.free_in(area).finite(),
        m.used_in(area).finite(),
        m.free_in(area).len() + m.used_in(area).len() == area_frames(area).len(),
        m.free_in(area).len() == free_in_area(m, area),
{
    let all = area_frames(area);
    let free = m.free_in(area);
    let used = m.used_in(area);
    lemma_range_len(first_frame(area), last_frame(area));
    lemma_set_subset_finite(all, free);
    lemma_set_subset_finite(all, used);
    assert(free.union(used) =~= all);
    assert(free.disjoint(used));
    lemma_set_disjoint_lens(free, used);

    let lo = max_of(first_frame(area), m.cursor);
    let hi = last_frame(area);
    let reach = set_int_range(lo, hi + 1);
    let kernel = set_int_range(max_of(lo, m.kernel_start), min_of(hi, m.kernel_end) + 1);
    lemma_range_len(lo, hi);
    lemma_range_len(max_of(lo, m.kernel_start), min_of(hi, m.kernel_end));
    assert(free.union(kernel) =~= reach);
    assert(free.disjoint(kernel));
    lemma_set_disjoint_lens(free, kernel);
}

/// In the first `n` areas the free and the used frames add up to all frames.
pub proof fn lemma_counts_upto(m: BumpModel, n: nat)
    requires
        n <= m.areas.len(),
    ensures
        m.free_upto(n) + m.used_upto(n) == m.total_upto(n),
    decreases n,
{
    if n > 0 {
        lemma_counts_upto(m, (n - 1) as nat);
        lemma_area_counts(m, m.areas[n - 1]);
    }
}

/// Whether `after` is `before` with the cursor moved on: the areas and the
/// kernel are the same.
pub open spec fn moved_on(before: BumpModel, after: BumpModel) -> bool {
    &&& after.areas == before.areas
    &&& after.kernel_start == before.kernel_start
    &&& after.kernel_end == before.kernel_end
    &&& after.cursor >= before.cursor
}

/// Moving the cursor on frees no frame and changes no total.
pub proof fn lemma_moved_on(before: BumpModel, after: BumpModel, n: nat)
    requires
        moved_on(before, after),
        n <= before.areas.len(),
    ensures
        after.total_upto(n) == before.total_upto(n),
        after.free_upto(n) <= before.free_upto(n),
        after.used_upto(n) >= before.used_upto(n),
    decreases n,
{
    if n > 0 {
        lemma_moved_on(before, after, (n - 1) as nat);
        lemma_area_counts(before, before.areas[n - 1]);
        lemma_area_counts(after, before.areas[n - 1]);
        lemma_counts_upto(before, n);
        lemma_counts_upto(after, n);
        lemma_counts_upto(before, (n - 1) as nat);
        lemma_counts_upto(after, (n - 1) as nat);
    }
}

/// Moving the cursor over `count` free frames of the area at `k` uses up
/// that many frames.
pub proof fn lemma_moved_over_run(before: BumpModel, after: BumpModel, n: nat, k: int, count: nat)
    requires
        moved_on(before, after),
        n <= before.areas.len(),
        0 <= k < before.areas.len(),
        count > 0,
        after.cursor == before.cursor + count,
        first_frame(before.areas[k]) <= before.cursor,
        before.cursor + count - 1 <= last_frame(before.areas[k]),
        !(before.cursor <= before.kernel_end && before.cursor + count - 1 >= before.kernel_start),
    ensures
        k < n ==> after.used_upto(n) >= before.used_upto(n) + count,
    decreases n,
{
    if n > 0 {
        lemma_area_counts(before, before.areas[n - 1]);
        lemma_area_counts(after, before.areas[n - 1]);
        lemma_counts_upto(before, n);
        lemma_counts_upto(after, n);
        lemma_counts_upto(before, (n - 1) as nat);
        lemma_counts_upto(after, (n - 1) as nat);
        lemma_moved_on(before, after, n);
        lemma_moved_on(before, after, (n - 1) as nat);
        if k == n - 1 {
        } else {
            lemma_moved_over_run(before, after, (n - 1) as nat, k, count);
        }
    }
}

/// What a search finds and leaves, stated without the steps of the search.
pub open spec fn search_outcome(m: BumpModel, count: nat, found: Option<int>, after: BumpModel) -> bool {
    &&& after.inv()
    &&& moved_on(m, after)
    &&& after.total_upto(m.areas.len()) == m.total_upto(m.areas.len())
    &&& found matches Some(first) ==> {
        &&& count > 0
        &&& m.cursor <= first
        &&& first + count == after.cursor
        &&& frame_run(first, count as int).disjoint(m.allocated)
        &&& after.allocated == m.allocated.union(frame_run(first, count as int))
        &&& exists|k: int|
            0 <= k < m.areas.len() && first_frame(#[trigger] m.areas[k]) <= first && first + count - 1
                <= last_frame(m.areas[k])
        &&& !(first <= m.kernel_end && first + count - 1 >= m.kernel_start)
    }
    &&& found is None ==> after.allocated == m.allocated
}

/// Every search from a valid state ends in a valid state. A run that it finds
/// starts at or behind the cursor, lies in one area and outside the kernel,
/// and holds no frame that was handed out before.
pub proof fn lemma_search(m: BumpModel, count: nat)
    requires
        m.inv(),
    ensures
        search_outcome(m, count, search(m, count).0, search(m, count).1),
    decreases FRAME_LIMIT - m.cursor, (if is_stale(m) { 1int } else { 0int }),
{
    let n = m.areas.len();
    assert(searchable(m));
    if count == 0 {
    } else {
        match m.current {
            None => {
                },
            Some(area) => {
                let end = m.cursor + count - 1;
                if end > last_frame(area) {
                    let cursor = max_of(m.cursor, last_frame(area) + 1);
                    lemma_next_area_upto(m.areas, cursor, n);
                    match next_area(m.areas, cursor) {
                        None => {
                            let after = BumpModel { cursor, current: None, ..m };
                            lemma_moved_on(m, after, n);
                                        },
                        Some(next) => {
                            let step = BumpModel {
                                cursor: max_of(cursor, first_frame(next)),
                                current: Some(next),
                                ..m
                            };
                            lemma_moved_on(m, step, n);
                            lemma_search(step, count);
                                        },
                    }
                } else if m.cursor <= m.kernel_end && end >= m.kernel_start {
                    let step = BumpModel { cursor: m.kernel_end + 1, ..m };
                    lemma_moved_on(m, step, n);
                    lemma_search(step, count);
                        } else {
                    let run = frame_run(m.cursor, count as int);
                    let after = BumpModel {
                        cursor: m.cursor + count,
                        allocated: m.allocated.union(run),
                        ..m
                    };
                    lemma_frame_run(m.cursor, count as int);
                    lemma_set_disjoint_lens(m.allocated, run);
                    assert(m.allocated.disjoint(run));
                    let k = choose|k: int| 0 <= k < m.areas.len() && m.areas[k] == area;
                    lemma_moved_on(m, after, n);
                    lemma_moved_over_run(m, after, n, k, count);
                        }
            },
        }
    }
}

impl BumpModel {
    /// The state of an allocator that has handed out nothing yet: the cursor
    /// stands at the start of the area that is taken first.
    pub open spec fn initial(areas: Seq<MemoryArea>, kernel_start: int, kernel_end: int) -> BumpModel {
        let current = next_area(areas, 0);
        BumpModel {
            areas,
            cursor: match current {
                Some(area) => max_of(0, first_frame(area)),
                None => 0,
            },
            current,
            kernel_start,
            kernel_end,
            allocated: Set::empty(),
        }
    }

    /// Whether an allocator can be made for these areas and this kernel:
    /// behind every frame number there is room for a cursor, and the frames
    /// of all areas can be counted by the machine.
    pub open spec fn fits(areas: Seq<MemoryArea>, kernel_start: int, kernel_end: int) -> bool {
        &&& forall|k: int|
            0 <= k < areas.len() ==> first_frame(#[trigger] areas[k]) < FRAME_LIMIT - 1 && last_frame(
                areas[k],
            ) < FRAME_LIMIT - 1
        &&& 0 <= kernel_start < FRAME_LIMIT - 1
        &&& 0 <= kernel_end < FRAME_LIMIT - 1
        &&& frames_upto(areas, areas.len()) <= usize::MAX
    }

    /// The first state of an allocator is a valid state.
    pub proof fn lemma_initial(areas: Seq<MemoryArea>, kernel_start: int, kernel_end: int)
        requires
            Self::fits(areas, kernel_start, kernel_end),
        ensures
            Self::initial(areas, kernel_start, kernel_end).inv(),
    {
        lemma_next_area_upto(areas, 0, areas.len());
    }
}

/// Whether the run of `count` frames from `first` on can be handed out at
/// all: it holds a frame, it lies within one of the areas, and none of its
/// frames belongs to the kernel from `kernel_start` to `kernel_end`.
pub open spec fn run_fits(
    areas: Seq<MemoryArea>,
    kernel_start: int,
    kernel_end: int,
    first: int,
    count: nat,
) -> bool {
    &&& count > 0
    &&& exists|k: int|
        0 <= k < areas.len() && first_frame(#[trigger] areas[k]) <= first && first + count - 1
            <= last_frame(areas[k])
    &&& !(first <= kernel_end && first + count - 1 >= kernel_start)
}

/// Whether no two of the areas share a frame.
pub open spec fn areas_apart(areas: Seq<MemoryArea>) -> bool {
    forall|i: int, j: int|
        0 <= i < areas.len() && 0 <= j < areas.len() && i != j ==> last_frame(#[trigger] areas[i])
            < first_frame(#[trigger] areas[j]) || last_frame(areas[j]) < first_frame(areas[i])
}

/// Whether the current area of `m` is the lowest area that the cursor has not
/// left behind: every other such area lies above it. With no current area,
/// the cursor has left every area behind.
pub open spec fn in_step(m: BumpModel) -> bool {
    match m.current {
        Some(area) => forall|k: int|
            0 <= k < m.areas.len() && last_frame(#[trigger] m.areas[k]) >= m.cursor && m.areas[k]
                != area ==> last_frame(area) < first_frame(m.areas[k]),
        None => forall|k: int| 0 <= k < m.areas.len() ==> last_frame(#[trigger] m.areas[k]) < m.cursor,
    }
}

/// An allocator for areas that share no frame starts in step.
pub proof fn lemma_initial_in_step(areas: Seq<MemoryArea>, kernel_start: int, kernel_end: int)
    requires
        areas_apart(areas),
    ensures
        in_step(BumpModel::initial(areas, kernel_start, kernel_end)),
{
    lemma_next_area_upto(areas, 0, areas.len());
}

/// First fit: where no two areas share a frame, a search that starts in step
/// finds the lowest run from the cursor on that can be handed out at all, it
/// fails only where there is no such run, and it ends in step.
pub proof fn lemma_search_first_fit(m: BumpModel, count: nat)
    requires
        m.inv(),
        areas_apart(m.areas),
        in_step(m),
    ensures
        in_step(search(m, count).1),
        search(m, count).0 matches Some(first) ==> run_fits(
            m.areas,
            m.kernel_start,
            m.kernel_end,
            first,
            count,
        ),
        forall|lower: int|
            m.cursor <= lower && (search(m, count).0 matches Some(first) ==> lower < first)
                ==> !#[trigger] run_fits(m.areas, m.kernel_start, m.kernel_end, lower, count),
    decreases FRAME_LIMIT - m.cursor, (if is_stale(m) { 1int } else { 0int }),
{
    let n = m.areas.len();
    let areas = m.areas;
    assert(searchable(m));
    if count == 0 {
    } else {
        match m.current {
            None => {
                assert forall|lower: int| m.cursor <= lower implies !#[trigger] run_fits(
                    areas,
                    m.kernel_start,
                    m.kernel_end,
                    lower,
                    count,
                ) by {
                    if run_fits(areas, m.kernel_start, m.kernel_end, lower, count) {
                        let k = choose|k: int|
                            0 <= k < areas.len() && first_frame(#[trigger] areas[k]) <= lower && lower
                                + count - 1 <= last_frame(areas[k]);
                        assert(last_frame(areas[k]) < m.cursor);
                    }
                }
            },
            Some(area) => {
                let end = m.cursor + count - 1;
                if end > last_frame(area) {
                    let cursor = max_of(m.cursor, last_frame(area) + 1);
                    lemma_next_area_upto(areas, cursor, n);
                    // No run fits before the cursor reaches the next area.
                    assert forall|lower: int|
                        m.cursor <= lower && run_fits(
                            areas,
                            m.kernel_start,
                            m.kernel_end,
                            lower,
                            count,
                        ) implies match next_area(areas, cursor) {
                        Some(next) => lower >= max_of(cursor, first_frame(next)),
                        None => false,
                    } by {
                        let k = choose|k: int|
                            0 <= k < areas.len() && first_frame(#[trigger] areas[k]) <= lower && lower
                                + count - 1 <= last_frame(areas[k]);
                        assert(areas[k] != area);
                        assert(last_frame(areas[k]) >= m.cursor);
                        assert(last_frame(area) < first_frame(areas[k]));
                        assert(last_frame(areas[k]) >= cursor);
                    }
                    match next_area(areas, cursor) {
                        None => {},
                        Some(next) => {
                            let step = BumpModel {
                                cursor: max_of(cursor, first_frame(next)),
                                current: Some(next),
                                ..m
                            };
                            lemma_moved_on(m, step, n);
                            assert(in_step(step)) by {
                                let at = next_area_upto(areas, cursor, n)->0;
                                assert forall|k: int|
                                    0 <= k < areas.len() && last_frame(#[trigger] areas[k]) >= step.cursor
                                        && areas[k] != next implies last_frame(next) < first_frame(
                                    areas[k],
                                ) by {
                                    assert(k != at);
                                    assert(last_frame(areas[at]) < first_frame(areas[k]) || last_frame(
                                        areas[k],
                                    ) < first_frame(areas[at]));
                                }
                            }
                            lemma_search_first_fit(step, count);
                        },
                    }
                } else if m.cursor <= m.kernel_end && end >= m.kernel_start {
                    let step = BumpModel { cursor: m.kernel_end + 1, ..m };
                    lemma_moved_on(m, step, n);
                    lemma_search_first_fit(step, count);
                } else {
                    let k = choose|k: int| 0 <= k < areas.len() && areas[k] == area;
                    assert(first_frame(areas[k]) <= m.cursor && m.cursor + count - 1 <= last_frame(areas[k]));
                }
            },
        }
    }
}

/// The frames in the first areas are not more than those in all areas.
pub proof fn lemma_frames_upto_grows(areas: Seq<MemoryArea>, k: nat, n: nat)
    requires
        k <= n <= areas.len(),
    ensures
        frames_upto(areas, k) <= frames_upto(areas, n),
    decreases n - k,
{
    if k < n {
        lemma_frames_upto_grows(areas, k, (n - 1) as nat);
    }
}

/// The state of the allocator after the requests were made one after the
/// other from state `m` on: a request for frames is a search, and nothing
/// else changes the state.
pub open spec fn after_requests(m: BumpModel, requests: Seq<Request>) -> BumpModel
    decreases requests.len(),
{
    if requests.len() == 0 {
        m
    } else {
        let next = match requests[0] {
            Request::Allocate { count } => search(m, count).1,
            _ => m,
        };
        after_requests(next, requests.drop_first())
    }
}

/// Whatever is asked of the allocator, its cursor never moves back, and its
/// state stays valid.
pub proof fn lemma_cursor_never_moves_back(m: BumpModel, requests: Seq<Request>)
    requires
        m.inv(),
    ensures
        after_requests(m, requests).inv(),
        after_requests(m, requests).cursor >= m.cursor,
    decreases requests.len(),
{
    if requests.len() > 0 {
        match requests[0] {
            Request::Allocate { count } => {
                lemma_search(m, count);
                lemma_cursor_never_moves_back(search(m, count).1, requests.drop_first());
            },
            _ => {
                lemma_cursor_never_moves_back(m, requests.drop_first());
            },
        }
    }
}

/// No frame is handed out twice: a run that is handed out starts behind the
/// end of every run that was handed out before, whatever was asked in
/// between, and however many frames were given back.
pub proof fn lemma_never_twice(m: BumpModel, count: nat, between: Seq<Request>, again: nat)
    requires
        m.inv(),
        search(m, count).0 is Some,
        search(after_requests(search(m, count).1, between), again).0 is Some,
    ensures
        search(after_requests(search(m, count).1, between), again).0->0 >= search(m, count).0->0 + count,
{
    lemma_search(m, count);
    lemma_cursor_never_moves_back(search(m, count).1, between);
    lemma_search(after_requests(search(m, count).1, between), again);
}

} // verus!
