//! Lists of runs of free frames: how runs are given back to a list and
//! taken from it, and what holds of such lists.

use super::frame::{frame_run, lemma_frame_run, FRAME_LIMIT};
use vstd::prelude::*;
use vstd::set_lib::*;

verus! {

/// A run of free frames: the number of its first frame and the number of
/// frames in it.
pub type FreeRange = (int, int);

/// Whether frame `f` lies in the run `range`.
pub open spec fn in_range(range: FreeRange, f: int) -> bool {
    range.0 <= f < range.0 + range.1
}

/// Whether a frame lies between the two runs, so that they neither meet nor
/// touch.
pub open spec fn separated(a: FreeRange, b: FreeRange) -> bool {
    a.0 + a.1 < b.0 || b.0 + b.1 < a.0
}

/// Whether the run of `count` frames from `first` on shares no frame with
/// `range`.
pub open spec fn apart(range: FreeRange, first: int, count: int) -> bool {
    range.0 + range.1 <= first || first + count <= range.0
}

/// The frames of all runs of a list.
pub open spec fn frames_of(free: Seq<FreeRange>) -> Set<int> {
    Set::new(|f: int| exists|k: int| 0 <= k < free.len() && in_range(#[trigger] free[k], f))
}

/// The number of frames in all runs of a list.
pub open spec fn free_total(free: Seq<FreeRange>) -> int
    decreases free.len(),
{
    if free.len() == 0 {
        0
    } else {
        free_total(free.drop_last()) + free.last().1
    }
}

/// Whether a list of free runs is in order: no run is empty, all lie within
/// the frames of the machine, the runs follow one another by rising
/// addresses, and between any two of them lies a frame that is not free, so
/// that no two runs could be joined.
pub open spec fn ranges_wf(free: Seq<FreeRange>) -> bool {
    &&& forall|k: int|
        0 <= k < free.len() ==> (#[trigger] free[k]).1 > 0 && 0 <= free[k].0 && free[k].0 + free[k].1
            <= FRAME_LIMIT - 1
    &&& forall|i: int, j: int|
        0 <= i < j < free.len() ==> (#[trigger] free[i]).0 + free[i].1 < (#[trigger] free[j]).0
}

/// The number of runs from position `from` on that start before the frame
/// `first`, added to `from`: the position at which a run that starts at
/// `first` belongs, where all runs before `from` start before it.
pub open spec fn position_from(free: Seq<FreeRange>, first: int, from: int) -> int
    decreases free.len() - from,
{
    if 0 <= from < free.len() && free[from].0 < first {
        position_from(free, first, from + 1)
    } else {
        from
    }
}

/// The position in the list at which a run that starts at `first` belongs:
/// behind the runs that start before it.
pub open spec fn position(free: Seq<FreeRange>, first: int) -> int {
    position_from(free, first, 0)
}

/// Whether the run before the position of `first` ends where `first` starts.
pub open spec fn touches_left(free: Seq<FreeRange>, first: int) -> bool {
    let p = position(free, first);
    p > 0 && free[p - 1].0 + free[p - 1].1 == first
}

/// Whether the run at the position of `first` starts where the `count`
/// frames from `first` on end.
pub open spec fn touches_right(free: Seq<FreeRange>, first: int, count: int) -> bool {
    let p = position(free, first);
    p < free.len() && first + count == free[p].0
}

/// The list after the `count` frames from `first` on were given back.
///
/// The run is joined to the run before it and to the run behind it, where it
/// touches them, and the three become one run. Where it touches neither, it
/// takes its place in the list between them.
pub open spec fn released(free: Seq<FreeRange>, first: int, count: int) -> Seq<FreeRange> {
    let p = position(free, first);
    if touches_left(free, first) && touches_right(free, first, count) {
        free.update(p - 1, (free[p - 1].0, free[p - 1].1 + count + free[p].1)).remove(p)
    } else if touches_left(free, first) {
        free.update(p - 1, (free[p - 1].0, free[p - 1].1 + count))
    } else if touches_right(free, first, count) {
        free.update(p, (first, count + free[p].1))
    } else {
        free.insert(p, (first, count))
    }
}

/// What the position found by [`position_from`] is.
pub proof fn lemma_position_from(free: Seq<FreeRange>, first: int, from: int)
    requires
        0 <= from <= free.len(),
    ensures
        from <= position_from(free, first, from) <= free.len(),
        forall|k: int| from <= k < position_from(free, first, from) ==> (#[trigger] free[k]).0 < first,
        position_from(free, first, from) < free.len() ==> free[position_from(free, first, from)].0
            >= first,
    decreases free.len() - from,
{
    if from < free.len() && free[from].0 < first {
        lemma_position_from(free, first, from + 1);
    }
}

/// Where a run that can be given back belongs, the runs before end at or
/// before its start and the runs behind start at or behind its end, and only
/// the two next to it can touch it.
pub proof fn lemma_position(free: Seq<FreeRange>, first: int, count: int)
    requires
        ranges_wf(free),
        releasable(free, first, count),
    ensures
        0 <= position(free, first) <= free.len(),
        forall|k: int|
            0 <= k < position(free, first) ==> (#[trigger] free[k]).0 + free[k].1 <= first && (k
                < position(free, first) - 1 ==> free[k].0 + free[k].1 < first),
        forall|k: int|
            position(free, first) <= k < free.len() ==> first + count <= (#[trigger] free[k]).0 && (k
                > position(free, first) ==> first + count < free[k].0),
{
    let p = position(free, first);
    lemma_position_from(free, first, 0);
    assert forall|k: int| 0 <= k < p implies (#[trigger] free[k]).0 + free[k].1 <= first && (k < p - 1
        ==> free[k].0 + free[k].1 < first) by {
        assert(apart(free[k], first, count));
        if k < p - 1 {
            assert(free[k].0 + free[k].1 < free[p - 1].0);
        }
    }
    assert forall|k: int| p <= k < free.len() implies first + count <= (#[trigger] free[k]).0 && (k > p
        ==> first + count < free[k].0) by {
        assert(apart(free[k], first, count));
        assert(apart(free[p], first, count));
        if k > p {
            assert(free[p].0 + free[p].1 < free[k].0);
        }
    }
}

/// A run put into a list adds its frames to those of the list.
pub proof fn lemma_frames_of_insert(free: Seq<FreeRange>, p: int, range: FreeRange)
    requires
        0 <= p <= free.len(),
    ensures
        frames_of(free.insert(p, range)) == frames_of(free).union(frame_run(range.0, range.1)),
{
    let list = free.insert(p, range);
    assert forall|f: int| frames_of(list).contains(f) <==> frames_of(free).union(
        frame_run(range.0, range.1),
    ).contains(f) by {
        if frames_of(list).contains(f) {
            let k = choose|k: int| 0 <= k < list.len() && in_range(#[trigger] list[k], f);
            if k < p {
                assert(in_range(free[k], f));
            } else if k > p {
                assert(in_range(free[k - 1], f));
            }
        }
        if frames_of(free).contains(f) {
            let k = choose|k: int| 0 <= k < free.len() && in_range(#[trigger] free[k], f);
            if k < p {
                assert(in_range(list[k], f));
            } else {
                assert(in_range(list[k + 1], f));
            }
        }
        if frame_run(range.0, range.1).contains(f) {
            assert(in_range(list[p], f));
        }
    }
    assert(frames_of(list) =~= frames_of(free).union(frame_run(range.0, range.1)));
}

/// A run put at the end of a list adds its frames to those of the list.
pub proof fn lemma_frames_of_push(free: Seq<FreeRange>, range: FreeRange)
    ensures
        frames_of(free.push(range)) == frames_of(free).union(frame_run(range.0, range.1)),
{
    let list = free.push(range);
    assert forall|f: int| frames_of(list).contains(f) <==> frames_of(free).union(
        frame_run(range.0, range.1),
    ).contains(f) by {
        if frames_of(list).contains(f) {
            let k = choose|k: int| 0 <= k < list.len() && in_range(#[trigger] list[k], f);
            if k < free.len() {
                assert(in_range(free[k], f));
            }
        }
        if frames_of(free).contains(f) {
            let k = choose|k: int| 0 <= k < free.len() && in_range(#[trigger] free[k], f);
            assert(in_range(list[k], f));
        }
        if frame_run(range.0, range.1).contains(f) {
            assert(in_range(list[free.len() as int], f));
        }
    }
    assert(frames_of(list) =~= frames_of(free).union(frame_run(range.0, range.1)));
}

/// A run of the list that is replaced by a run that holds it adds the frames
/// of the new run to those of the list.
pub proof fn lemma_frames_of_update(free: Seq<FreeRange>, i: int, range: FreeRange)
    requires
        0 <= i < free.len(),
        range.0 <= free[i].0,
        free[i].0 + free[i].1 <= range.0 + range.1,
    ensures
        frames_of(free.update(i, range)) == frames_of(free).union(frame_run(range.0, range.1)),
{
    let list = free.update(i, range);
    assert forall|f: int| frames_of(list).contains(f) <==> frames_of(free).union(
        frame_run(range.0, range.1),
    ).contains(f) by {
        if frames_of(list).contains(f) {
            let k = choose|k: int| 0 <= k < list.len() && in_range(#[trigger] list[k], f);
            if k != i {
                assert(in_range(free[k], f));
            }
        }
        if frames_of(free).contains(f) {
            let k = choose|k: int| 0 <= k < free.len() && in_range(#[trigger] free[k], f);
            if k != i {
                assert(in_range(list[k], f));
            } else {
                assert(in_range(list[i], f));
            }
        }
        if frame_run(range.0, range.1).contains(f) {
            assert(in_range(list[i], f));
        }
    }
    assert(frames_of(list) =~= frames_of(free).union(frame_run(range.0, range.1)));
}

/// A run that leaves the list takes no frame with it where another run of
/// the list holds it.
pub proof fn lemma_frames_of_remove(free: Seq<FreeRange>, i: int, j: int)
    requires
        0 <= i < free.len(),
        0 <= j < free.len(),
        i != j,
        free[j].0 <= free[i].0,
        free[i].0 + free[i].1 <= free[j].0 + free[j].1,
    ensures
        frames_of(free.remove(i)) == frames_of(free),
{
    let list = free.remove(i);
    assert forall|f: int| frames_of(list).contains(f) <==> frames_of(free).contains(f) by {
        if frames_of(list).contains(f) {
            let k = choose|k: int| 0 <= k < list.len() && in_range(#[trigger] list[k], f);
            if k < i {
                assert(in_range(free[k], f));
            } else {
                assert(in_range(free[k + 1], f));
            }
        }
        if frames_of(free).contains(f) {
            let k = choose|k: int| 0 <= k < free.len() && in_range(#[trigger] free[k], f);
            let at = if k == i {
                j
            } else {
                k
            };
            assert(in_range(free[at], f));
            if at < i {
                assert(in_range(list[at], f));
            } else {
                assert(in_range(list[at - 1], f));
            }
        }
    }
    assert(frames_of(list) =~= frames_of(free));
}

/// The frames of a list in order are as many as its runs hold together.
pub proof fn lemma_free_total(free: Seq<FreeRange>)
    requires
        ranges_wf(free),
    ensures
        frames_of(free).finite(),
        frames_of(free).len() == free_total(free),
        free_total(free) >= 0,
        forall|f: int| #[trigger] frames_of(free).contains(f) ==> 0 <= f < FRAME_LIMIT - 1,
    decreases free.len(),
{
    if free.len() == 0 {
        assert(frames_of(free) =~= Set::empty());
    } else {
        let rest = free.drop_last();
        let last = free.last();
        assert(free =~= rest.push(last));
        lemma_drop_last(free);
        lemma_free_total(rest);
        lemma_frames_of_push(rest, last);
        lemma_frame_run(last.0, last.1);
        let run = frame_run(last.0, last.1);
        assert(frames_of(rest).disjoint(run)) by {
            assert forall|f: int| frames_of(rest).contains(f) implies !run.contains(f) by {
                let k = choose|k: int| 0 <= k < rest.len() && in_range(#[trigger] rest[k], f);
                assert(rest[k] == free[k]);
                assert(free[k].0 + free[k].1 < free[free.len() - 1].0);
            }
        }
        lemma_set_disjoint_lens(frames_of(rest), run);
        assert forall|f: int| #[trigger] frames_of(free).contains(f) implies 0 <= f < FRAME_LIMIT
            - 1 by {
            let k = choose|k: int| 0 <= k < free.len() && in_range(#[trigger] free[k], f);
        }
    }
}

/// Whether the `count` frames from `first` on can be given back to the list:
/// there is at least one of them, they are frames of the machine, and none of
/// them is in the list.
pub open spec fn releasable(free: Seq<FreeRange>, first: int, count: int) -> bool {
    &&& count > 0
    &&& 0 <= first
    &&& first + count <= FRAME_LIMIT - 1
    &&& forall|k: int| 0 <= k < free.len() ==> apart(#[trigger] free[k], first, count)
}

/// Giving back a run keeps the list in order, and adds the frames of the run
/// to those of the list and no others.
pub proof fn lemma_released(free: Seq<FreeRange>, first: int, count: int)
    requires
        ranges_wf(free),
        releasable(free, first, count),
    ensures
        ranges_wf(released(free, first, count)),
        frames_of(released(free, first, count)) == frames_of(free).union(frame_run(first, count)),
{
    let run = frame_run(first, count);
    let p = position(free, first);
    let list = released(free, first, count);
    lemma_position(free, first, count);
    if touches_left(free, first) && touches_right(free, first, count) {
        let whole = (free[p - 1].0, free[p - 1].1 + count + free[p].1);
        let both = free.update(p - 1, whole);
        lemma_frames_of_update(free, p - 1, whole);
        lemma_frames_of_remove(both, p, p - 1);
        assert(frames_of(free).union(frame_run(whole.0, whole.1)) =~= frames_of(free).union(run)) by {
            assert forall|f: int| frame_run(whole.0, whole.1).contains(f) && !run.contains(
                f,
            ) implies frames_of(free).contains(f) by {
                if f < first {
                    assert(in_range(free[p - 1], f));
                } else {
                    assert(in_range(free[p], f));
                }
            }
        }
        assert forall|k: int| 0 <= k < list.len() implies list[k] == (if k < p - 1 {
            free[k]
        } else if k == p - 1 {
            whole
        } else {
            free[k + 1]
        }) by {}
        assert(ranges_wf(list)) by {
            assert forall|i: int, j: int| 0 <= i < j < list.len() implies (#[trigger] list[i]).0
                + list[i].1 < (#[trigger] list[j]).0 by {
                let at_i = if i < p {
                    i
                } else {
                    i + 1
                };
                let at_j = if j < p {
                    j
                } else {
                    j + 1
                };
                assert(free[at_i].0 + free[at_i].1 < free[at_j].0);
                if i == p - 1 {
                    assert(free[p].0 + free[p].1 < free[at_j].0);
                }
            }
        }
    } else if touches_left(free, first) {
        let grown = (free[p - 1].0, free[p - 1].1 + count);
        lemma_frames_of_update(free, p - 1, grown);
        assert(frames_of(free).union(frame_run(grown.0, grown.1)) =~= frames_of(free).union(run)) by {
            assert forall|f: int| frame_run(grown.0, grown.1).contains(f) && !run.contains(
                f,
            ) implies frames_of(free).contains(f) by {
                assert(in_range(free[p - 1], f));
            }
        }
        assert(ranges_wf(list)) by {
            assert forall|i: int, j: int| 0 <= i < j < list.len() implies (#[trigger] list[i]).0
                + list[i].1 < (#[trigger] list[j]).0 by {
                assert(free[i].0 + free[i].1 < free[j].0);
            }
        }
    } else if touches_right(free, first, count) {
        let grown = (first, count + free[p].1);
        lemma_frames_of_update(free, p, grown);
        assert(frames_of(free).union(frame_run(grown.0, grown.1)) =~= frames_of(free).union(run)) by {
            assert forall|f: int| frame_run(grown.0, grown.1).contains(f) && !run.contains(
                f,
            ) implies frames_of(free).contains(f) by {
                assert(in_range(free[p], f));
            }
        }
        assert(ranges_wf(list)) by {
            assert forall|i: int, j: int| 0 <= i < j < list.len() implies (#[trigger] list[i]).0
                + list[i].1 < (#[trigger] list[j]).0 by {
                assert(free[i].0 + free[i].1 < free[j].0);
            }
        }
    } else {
        lemma_frames_of_insert(free, p, (first, count));
        assert(ranges_wf(list)) by {
            assert forall|k: int| 0 <= k < list.len() implies (#[trigger] list[k]).1 > 0 && 0
                <= list[k].0 && list[k].0 + list[k].1 <= FRAME_LIMIT - 1 by {
                if k < p {
                    assert(list[k] == free[k]);
                } else if k > p {
                    assert(list[k] == free[k - 1]);
                }
            }
            assert forall|i: int, j: int| 0 <= i < j < list.len() implies (#[trigger] list[i]).0
                + list[i].1 < (#[trigger] list[j]).0 by {
                let at_i = if i < p {
                    i
                } else {
                    i - 1
                };
                let at_j = if j < p {
                    j
                } else {
                    j - 1
                };
                if i != p && j != p {
                    assert(list[i] == free[at_i]);
                    assert(list[j] == free[at_j]);
                    assert(free[at_i].0 + free[at_i].1 < free[at_j].0);
                } else if i == p {
                    assert(list[j] == free[at_j]);
                } else {
                    assert(list[i] == free[at_i]);
                }
            }
        }
    }
}

/// Among the first `n` runs of the list, the position of the run that a
/// request for `count` frames is answered from: of the runs that hold at
/// least `count` frames one of the smallest, and of several such the last.
pub open spec fn best_fit_upto(free: Seq<FreeRange>, count: int, n: nat) -> Option<int>
    decreases n,
{
    if n == 0 || n > free.len() {
        None
    } else {
        let before = best_fit_upto(free, count, (n - 1) as nat);
        let range = free[n - 1];
        if range.1 >= count && (before matches Some(b) ==> range.1 <= free[b].1) {
            Some(n - 1)
        } else {
            before
        }
    }
}

/// The position of the run that a request for `count` frames is answered
/// from, if the list holds a run that is large enough.
pub open spec fn best_fit(free: Seq<FreeRange>, count: int) -> Option<int> {
    best_fit_upto(free, count, free.len())
}

/// What the position found by [`best_fit_upto`] is.
pub proof fn lemma_best_fit_upto(free: Seq<FreeRange>, count: int, n: nat)
    requires
        n <= free.len(),
    ensures
        best_fit_upto(free, count, n) matches Some(i) ==> {
            &&& 0 <= i < n
            &&& free[i].1 >= count
            &&& forall|k: int|
                0 <= k < n && (#[trigger] free[k]).1 >= count ==> free[i].1 < free[k].1 || (free[i].1
                    == free[k].1 && k <= i)
        },
        best_fit_upto(free, count, n) is None ==> forall|k: int|
            0 <= k < n ==> (#[trigger] free[k]).1 < count,
    decreases n,
{
    if n > 0 {
        lemma_best_fit_upto(free, count, (n - 1) as nat);
    }
}

/// The first frame of the `count` frames that are taken from the end of the
/// run at `i`.
pub open spec fn taken_first(free: Seq<FreeRange>, i: int, count: int) -> int {
    free[i].0 + free[i].1 - count
}

/// The list after `count` frames were taken from the end of the run at `i`:
/// the run is shorter, or has left the list where no frame of it is left.
pub open spec fn taken(free: Seq<FreeRange>, i: int, count: int) -> Seq<FreeRange> {
    if free[i].1 - count == 0 {
        free.remove(i)
    } else {
        free.update(i, (free[i].0, free[i].1 - count))
    }
}

/// Taking frames from a run keeps the list in order, and takes the frames of
/// the run from those of the list and no others.
pub proof fn lemma_taken(free: Seq<FreeRange>, i: int, count: int)
    requires
        ranges_wf(free),
        0 <= i < free.len(),
        0 <= count <= free[i].1,
    ensures
        ranges_wf(taken(free, i, count)),
        frame_run(taken_first(free, i, count), count).subset_of(frames_of(free)),
        frames_of(taken(free, i, count)) == frames_of(free).difference(
            frame_run(taken_first(free, i, count), count),
        ),
{
    let run = frame_run(taken_first(free, i, count), count);
    let list = taken(free, i, count);
    assert forall|f: int| run.contains(f) implies frames_of(free).contains(f) by {
        assert(in_range(free[i], f));
    }
    assert forall|f: int| frames_of(list).contains(f) <==> frames_of(free).difference(run).contains(
        f,
    ) by {
        if frames_of(list).contains(f) {
            let k = choose|k: int| 0 <= k < list.len() && in_range(#[trigger] list[k], f);
            if free[i].1 - count == 0 {
                let at = if k < i {
                    k
                } else {
                    k + 1
                };
                assert(in_range(free[at], f));
                assert(separated(free[at], free[i]));
            } else {
                assert(in_range(free[k], f));
                if k != i {
                    assert(separated(free[k], free[i]));
                }
            }
        }
        if frames_of(free).difference(run).contains(f) {
            let k = choose|k: int| 0 <= k < free.len() && in_range(#[trigger] free[k], f);
            if free[i].1 - count == 0 {
                assert(k != i);
                if k < i {
                    assert(in_range(list[k], f));
                } else {
                    assert(in_range(list[k - 1], f));
                }
            } else {
                assert(in_range(list[k], f));
            }
        }
    }
    assert(frames_of(list) =~= frames_of(free).difference(run));
    assert(ranges_wf(list)) by {
        assert forall|k: int| 0 <= k < list.len() implies (#[trigger] list[k]).1 > 0 && 0
            <= list[k].0 && list[k].0 + list[k].1 <= FRAME_LIMIT - 1 by {
            if free[i].1 - count == 0 {
                let at = if k < i {
                    k
                } else {
                    k + 1
                };
                assert(list[k] == free[at]);
            } else {
                if k != i {
                    assert(list[k] == free[k]);
                }
            }
        }
        assert forall|a: int, b: int|
            0 <= a < list.len() && 0 <= b < list.len() && a != b implies separated(
            #[trigger] list[a],
            #[trigger] list[b],
        ) by {
            if free[i].1 - count == 0 {
                let at_a = if a < i {
                    a
                } else {
                    a + 1
                };
                let at_b = if b < i {
                    b
                } else {
                    b + 1
                };
                assert(list[a] == free[at_a]);
                assert(list[b] == free[at_b]);
                assert(separated(free[at_a], free[at_b]));
            } else {
                assert(separated(free[a], free[b]));
            }
        }
    }
}

/// The frames of the first runs of a list in order are not more than those of
/// all its runs, and one run more adds its frames.
pub proof fn lemma_free_total_prefix(free: Seq<FreeRange>, k: int)
    requires
        0 <= k <= free.len(),
        forall|i: int| 0 <= i < free.len() ==> (#[trigger] free[i]).1 >= 0,
    ensures
        0 <= free_total(free.subrange(0, k)) <= free_total(free),
        k < free.len() ==> free_total(free.subrange(0, k + 1)) == free_total(free.subrange(0, k))
            + free[k].1,
    decreases free.len() - k,
{
    if k < free.len() {
        assert(free.subrange(0, k + 1).drop_last() =~= free.subrange(0, k));
        lemma_free_total_prefix(free, k + 1);
    } else {
        assert(free.subrange(0, k) =~= free);
    }
    if k == 0 {
        assert(free.subrange(0, 0).len() == 0);
    } else {
        assert(free.subrange(0, k).drop_last() =~= free.subrange(0, k - 1));
        assert(free.subrange(0, k).last() == free[k - 1]);
        lemma_free_total_nonnegative(free.subrange(0, k - 1));
    }
}

/// A list of runs that are not negative holds no negative number of frames.
pub proof fn lemma_free_total_nonnegative(free: Seq<FreeRange>)
    requires
        forall|i: int| 0 <= i < free.len() ==> (#[trigger] free[i]).1 >= 0,
    ensures
        free_total(free) >= 0,
    decreases free.len(),
{
    if free.len() > 0 {
        lemma_free_total_nonnegative(free.drop_last());
    }
}

/// A run that shares no frame with the runs of a list lies apart from each
/// of them.
pub proof fn lemma_apart(free: Seq<FreeRange>, first: int, count: int)
    requires
        count > 0,
        forall|k: int| 0 <= k < free.len() ==> (#[trigger] free[k]).1 > 0,
        frame_run(first, count).disjoint(frames_of(free)),
    ensures
        forall|k: int| 0 <= k < free.len() ==> apart(#[trigger] free[k], first, count),
{
    assert forall|k: int| 0 <= k < free.len() implies apart(#[trigger] free[k], first, count) by {
        if !apart(free[k], first, count) {
            let f = if first >= free[k].0 {
                first
            } else {
                free[k].0
            };
            assert(in_range(free[k], f));
            assert(frames_of(free).contains(f));
            assert(frame_run(first, count).contains(f));
        }
    }
}

/// Every run of a list in order is a run of each list in order that holds
/// the same frames.
pub proof fn lemma_run_of_both(a: Seq<FreeRange>, b: Seq<FreeRange>, i: int)
    requires
        ranges_wf(a),
        ranges_wf(b),
        frames_of(a) == frames_of(b),
        0 <= i < a.len(),
    ensures
        b.contains(a[i]),
{
    let run = a[i];
    assert(in_range(a[i], run.0));
    assert(frames_of(a).contains(run.0));
    let j = choose|j: int| 0 <= j < b.len() && in_range(#[trigger] b[j], run.0);
    if b[j].0 < run.0 {
        // The frame before the run is free, so the run would not start here.
        assert(in_range(b[j], run.0 - 1));
        assert(frames_of(b).contains(run.0 - 1));
        let k = choose|k: int| 0 <= k < a.len() && in_range(#[trigger] a[k], run.0 - 1);
        assert(separated(a[k], a[i]));
    }
    let end = run.0 + run.1;
    let other_end = b[j].0 + b[j].1;
    if other_end < end {
        assert(in_range(a[i], other_end));
        assert(frames_of(a).contains(other_end));
        let k = choose|k: int| 0 <= k < b.len() && in_range(#[trigger] b[k], other_end);
        assert(separated(b[k], b[j]));
    }
    if other_end > end {
        assert(in_range(b[j], end));
        assert(frames_of(b).contains(end));
        let k = choose|k: int| 0 <= k < a.len() && in_range(#[trigger] a[k], end);
        assert(separated(a[k], a[i]));
    }
    assert(b[j] == a[i]);
}

/// A list in order without its last run is in order, and holds the frames of
/// the list without those of the last run.
pub proof fn lemma_drop_last(free: Seq<FreeRange>)
    requires
        ranges_wf(free),
        free.len() > 0,
    ensures
        ranges_wf(free.drop_last()),
        frames_of(free.drop_last()) == frames_of(free).difference(
            frame_run(free.last().0, free.last().1),
        ),
{
    let rest = free.drop_last();
    let last = free.last();
    assert(free =~= rest.push(last));
    assert forall|k: int| 0 <= k < rest.len() implies (#[trigger] rest[k]).1 > 0 && 0 <= rest[k].0
        && rest[k].0 + rest[k].1 <= FRAME_LIMIT - 1 by {
        assert(rest[k] == free[k]);
    }
    assert forall|i: int, j: int| 0 <= i < j < rest.len() implies (#[trigger] rest[i]).0 + rest[i].1
        < (#[trigger] rest[j]).0 by {
        assert(rest[i] == free[i]);
        assert(rest[j] == free[j]);
    }
    lemma_frames_of_push(rest, last);
    assert forall|f: int| frames_of(rest).contains(f) implies !frame_run(last.0, last.1).contains(f) by {
        let k = choose|k: int| 0 <= k < rest.len() && in_range(#[trigger] rest[k], f);
        assert(rest[k] == free[k]);
        assert(free[k].0 + free[k].1 < free[free.len() - 1].0);
    }
    assert(frames_of(rest) =~= frames_of(free).difference(frame_run(last.0, last.1)));
}

/// Two lists in order that hold the same frames are the same list.
pub proof fn lemma_same_list(a: Seq<FreeRange>, b: Seq<FreeRange>)
    requires
        ranges_wf(a),
        ranges_wf(b),
        frames_of(a) == frames_of(b),
    ensures
        a == b,
    decreases a.len(),
{
    if a.len() == 0 {
        if b.len() > 0 {
            assert(in_range(b[0], b[0].0));
            assert(frames_of(b).contains(b[0].0));
            let k = choose|k: int| 0 <= k < a.len() && in_range(#[trigger] a[k], b[0].0);
        }
        assert(a =~= b);
    } else {
        if b.len() == 0 {
            assert(in_range(a[0], a[0].0));
            assert(frames_of(a).contains(a[0].0));
            let k = choose|k: int| 0 <= k < b.len() && in_range(#[trigger] b[k], a[0].0);
        }
        lemma_run_of_both(a, b, a.len() - 1);
        lemma_run_of_both(b, a, b.len() - 1);
        let j = choose|j: int| 0 <= j < b.len() && b[j] == a.last();
        let i = choose|i: int| 0 <= i < a.len() && a[i] == b.last();
        if j < b.len() - 1 {
            assert(b[j].0 + b[j].1 < b[b.len() - 1].0);
            if i < a.len() - 1 {
                assert(a[i].0 + a[i].1 < a[a.len() - 1].0);
            }
        }
        assert(a.last() == b.last());
        lemma_drop_last(a);
        lemma_drop_last(b);
        lemma_same_list(a.drop_last(), b.drop_last());
        assert(a =~= a.drop_last().push(a.last()));
        assert(b =~= b.drop_last().push(b.last()));
    }
}

/// Coalescing: two runs that follow one another, given back one after the
/// other in either order, leave the very list that the two given back as one
/// run leave, so that nothing that is asked of the list later can tell the
/// two ways apart.
pub proof fn lemma_coalescing(free: Seq<FreeRange>, first: int, n: int, m: int)
    requires
        ranges_wf(free),
        n > 0,
        m > 0,
        releasable(free, first, n + m),
    ensures
        ranges_wf(released(free, first, n + m)),
        released(released(free, first, n), first + n, m) == released(free, first, n + m),
        released(released(free, first + n, m), first, n) == released(free, first, n + m),
        frames_of(released(free, first, n + m)) == frames_of(free).union(frame_run(first, n + m)),
{
    let whole = released(free, first, n + m);
    lemma_released(free, first, n + m);
    assert(frame_run(first, n + m) =~= frame_run(first, n).union(frame_run(first + n, m)));

    // The lower run first.
    assert forall|k: int| 0 <= k < free.len() implies apart(#[trigger] free[k], first, n) by {
        assert(apart(free[k], first, n + m));
    }
    lemma_released(free, first, n);
    let lower = released(free, first, n);
    assert(frame_run(first + n, m).disjoint(frames_of(lower))) by {
        assert forall|f: int| frame_run(first + n, m).contains(f) implies !frames_of(lower).contains(
            f,
        ) by {
            if frames_of(free).contains(f) {
                let k = choose|k: int| 0 <= k < free.len() && in_range(#[trigger] free[k], f);
                assert(apart(free[k], first, n + m));
            }
        }
    }
    lemma_apart(lower, first + n, m);
    lemma_released(lower, first + n, m);
    assert(frames_of(released(lower, first + n, m)) =~= frames_of(whole));
    lemma_same_list(released(lower, first + n, m), whole);

    // The upper run first.
    assert forall|k: int| 0 <= k < free.len() implies apart(#[trigger] free[k], first + n, m) by {
        assert(apart(free[k], first, n + m));
    }
    lemma_released(free, first + n, m);
    let upper = released(free, first + n, m);
    assert(frame_run(first, n).disjoint(frames_of(upper))) by {
        assert forall|f: int| frame_run(first, n).contains(f) implies !frames_of(upper).contains(f) by {
            if frames_of(free).contains(f) {
                let k = choose|k: int| 0 <= k < free.len() && in_range(#[trigger] free[k], f);
                assert(apart(free[k], first, n + m));
            }
        }
    }
    lemma_apart(upper, first, n);
    lemma_released(upper, first, n);
    assert(frames_of(released(upper, first, n)) =~= frames_of(whole));
    lemma_same_list(released(upper, first, n), whole);
}

} // verus!
