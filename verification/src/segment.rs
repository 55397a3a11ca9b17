//! Partition of the remaining bytes of a resource into contiguous segments,
//! one per parallel worker.

use vstd::prelude::*;

verus! {

/// One contiguous byte range assigned to one worker. Both ends are inclusive.
#[derive(Debug, Clone, Copy, PartialEq, Eq, Structural)]
pub struct Segment {
    pub index: usize,
    pub range_start: u64,
    pub range_end_inclusive: u64,
}

/// What the parallel downloader does with a resource of a known size.
#[derive(Debug)]
pub enum SegmentPlan {
    /// Nothing remains to be fetched.
    AlreadyComplete,
    /// Fewer bytes remain than workers were asked for: one stream fetches them.
    SingleStream,
    /// One segment per worker, in index order.
    Segments(Vec<Segment>),
}

/// The bytes per worker: the remaining bytes divided by the worker count,
/// rounded down.
pub open spec fn chunk_size(total_size: int, resume_offset: int, workers: int) -> int {
    (total_size - resume_offset) / workers
}

/// The segment of worker `i` out of `workers`. The last worker's range ends
/// at the last byte of the resource and so absorbs the remainder.
pub open spec fn segment_at(total_size: int, resume_offset: int, workers: int, i: int) -> Segment {
    let chunk = chunk_size(total_size, resume_offset, workers);
    Segment {
        index: i as usize,
        range_start: (resume_offset + i * chunk) as u64,
        range_end_inclusive: if i == workers - 1 {
            (total_size - 1) as u64
        } else {
            (resume_offset + (i + 1) * chunk - 1) as u64
        },
    }
}

/// The plan for a resource of `total_size` bytes of which the first
/// `resume_offset` are already there, split over `workers` workers.
pub open spec fn plan_of(total_size: int, resume_offset: int, workers: int) -> Seq<Segment> {
    Seq::new(workers as nat, |i: int| segment_at(total_size, resume_offset, workers, i))
}

/// The segments lie one after another from `first` to `last`: none is empty,
/// each starts one byte after its predecessor ends, the first starts at
/// `first` and the last ends at `last`.
pub open spec fn tiles(segments: Seq<Segment>, first: int, last: int) -> bool {
    &&& segments.len() >= 1
    &&& segments[0].range_start == first
    &&& segments[segments.len() - 1].range_end_inclusive == last
    &&& forall|i: int|
        0 <= i < segments.len() ==> (#[trigger] segments[i]).range_start
            <= segments[i].range_end_inclusive
    &&& forall|i: int|
        0 <= i < segments.len() - 1 ==> (#[trigger] segments[i + 1]).range_start
            == segments[i].range_end_inclusive + 1
}

/// Whether byte `b` lies in segment `s`.
pub open spec fn covers(s: Segment, b: int) -> bool {
    s.range_start <= b <= s.range_end_inclusive
}

proof fn lemma_mul_step(i: int, chunk: int)
    ensures
        (i + 1) * chunk == i * chunk + chunk,
{
    assert((i + 1) * chunk == i * chunk + chunk) by (nonlinear_arith);
}

proof fn lemma_mul_bound(i: int, workers: int, chunk: int, remaining: int)
    requires
        0 <= i <= workers,
        0 <= chunk,
        workers >= 1,
        chunk == remaining / workers,
        0 <= remaining,
    ensures
        0 <= i * chunk <= remaining,
{
    assert(workers * chunk <= remaining) by (nonlinear_arith)
        requires
            chunk == remaining / workers,
            workers >= 1,
            0 <= remaining,
    ;
    assert(0 <= i * chunk <= workers * chunk) by (nonlinear_arith)
        requires
            0 <= i <= workers,
            0 <= chunk,
    ;
}

/// The bounds of one segment of a plan, in plain arithmetic.
pub proof fn lemma_segment_bounds(total_size: int, resume_offset: int, workers: int, i: int)
    requires
        0 <= resume_offset < total_size <= u64::MAX,
        workers >= 1,
        chunk_size(total_size, resume_offset, workers) >= 1,
        0 <= i < workers,
    ensures
        resume_offset <= resume_offset + i * chunk_size(total_size, resume_offset, workers),
        resume_offset + (i + 1) * chunk_size(total_size, resume_offset, workers) <= total_size,
        segment_at(total_size, resume_offset, workers, i).range_start == resume_offset + i
            * chunk_size(total_size, resume_offset, workers),
        i < workers - 1 ==> segment_at(total_size, resume_offset, workers, i).range_end_inclusive
            == resume_offset + (i + 1) * chunk_size(total_size, resume_offset, workers) - 1,
        i == workers - 1 ==> segment_at(total_size, resume_offset, workers, i).range_end_inclusive
            == total_size - 1,
        segment_at(total_size, resume_offset, workers, i).range_start <= segment_at(
            total_size,
            resume_offset,
            workers,
            i,
        ).range_end_inclusive,
{
    let chunk = chunk_size(total_size, resume_offset, workers);
    let remaining = total_size - resume_offset;
    lemma_mul_bound(i, workers, chunk, remaining);
    lemma_mul_bound(i + 1, workers, chunk, remaining);
    lemma_mul_step(i, chunk);
}

/// Segments of a plan are contiguous and do not overlap, and together they
/// are the remaining range: the first starts at the resume offset, each next
/// one starts one byte after its predecessor ends, and the last ends at the
/// last byte of the resource.
pub proof fn lemma_plan_tiles(total_size: int, resume_offset: int, workers: int)
    requires
        0 <= resume_offset < total_size <= u64::MAX,
        workers >= 1,
        chunk_size(total_size, resume_offset, workers) >= 1,
    ensures
        plan_of(total_size, resume_offset, workers).len() == workers,
        tiles(plan_of(total_size, resume_offset, workers), resume_offset, total_size - 1),
{
    let plan = plan_of(total_size, resume_offset, workers);
    let chunk = chunk_size(total_size, resume_offset, workers);
    lemma_segment_bounds(total_size, resume_offset, workers, 0);
    lemma_segment_bounds(total_size, resume_offset, workers, workers - 1);
    assert(0 * chunk == 0) by (nonlinear_arith);
    assert forall|i: int| 0 <= i < plan.len() implies (#[trigger] plan[i]).range_start
        <= plan[i].range_end_inclusive by {
        lemma_segment_bounds(total_size, resume_offset, workers, i);
    }
    assert forall|i: int| 0 <= i < plan.len() - 1 implies (#[trigger] plan[i + 1]).range_start
        == plan[i].range_end_inclusive + 1 by {
        lemma_segment_bounds(total_size, resume_offset, workers, i);
        lemma_segment_bounds(total_size, resume_offset, workers, i + 1);
    }
}

/// In a tiling, a segment with a smaller index ends before a later one
/// starts.
pub proof fn lemma_tiles_ordered(segments: Seq<Segment>, first: int, last: int, i: int, j: int)
    requires
        tiles(segments, first, last),
        0 <= i < j < segments.len(),
    ensures
        segments[i].range_end_inclusive < segments[j].range_start,
    decreases j - i,
{
    if j == i + 1 {
        assert(segments[i + 1].range_start == segments[i].range_end_inclusive + 1);
    } else {
        lemma_tiles_ordered(segments, first, last, i, j - 1);
        assert(segments[(j - 1) + 1].range_start == segments[j - 1].range_end_inclusive + 1);
        assert(segments[j - 1].range_start <= segments[j - 1].range_end_inclusive);
    }
}

/// The union of a tiling is the whole range and nothing else: a byte lies in
/// some segment exactly if it lies between `first` and `last`, and it lies in
/// no two segments.
pub proof fn lemma_tiles_cover_exactly(segments: Seq<Segment>, first: int, last: int, b: int)
    requires
        tiles(segments, first, last),
    ensures
        (exists|i: int| 0 <= i < segments.len() && covers(#[trigger] segments[i], b)) <==> first
            <= b <= last,
        forall|i: int, j: int|
            0 <= i < segments.len() && 0 <= j < segments.len() && covers(
                #[trigger] segments[i],
                b,
            ) && covers(#[trigger] segments[j], b) ==> i == j,
{
    assert forall|i: int, j: int|
        0 <= i < segments.len() && 0 <= j < segments.len() && covers(#[trigger] segments[i], b)
            && covers(#[trigger] segments[j], b) implies i == j by {
        if i < j {
            lemma_tiles_ordered(segments, first, last, i, j);
        } else if j < i {
            lemma_tiles_ordered(segments, first, last, j, i);
        }
    }
    if exists|i: int| 0 <= i < segments.len() && covers(#[trigger] segments[i], b) {
        let i = choose|i: int| 0 <= i < segments.len() && covers(#[trigger] segments[i], b);
        if 0 < i {
            lemma_tiles_ordered(segments, first, last, 0, i);
            assert(segments[0].range_start <= segments[0].range_end_inclusive);
        }
        if i < segments.len() - 1 {
            lemma_tiles_ordered(segments, first, last, i, segments.len() - 1);
            let n = segments.len() - 1;
            assert(segments[n].range_start <= segments[n].range_end_inclusive);
        }
    }
    if first <= b <= last {
        lemma_find_cover(segments, first, last, b, segments.len() - 1);
    }
}

proof fn lemma_find_cover(segments: Seq<Segment>, first: int, last: int, b: int, k: int)
    requires
        tiles(segments, first, last),
        0 <= k < segments.len(),
        first <= b <= segments[k].range_end_inclusive,
    ensures
        exists|i: int| 0 <= i < segments.len() && covers(#[trigger] segments[i], b),
    decreases k,
{
    if segments[k].range_start <= b {
        assert(covers(segments[k], b));
    } else {
        if k == 0 {
            assert(false);
        } else {
            assert(segments[(k - 1) + 1].range_start == segments[k - 1].range_end_inclusive + 1);
            lemma_find_cover(segments, first, last, b, k - 1);
        }
    }
}

/// Plans the parallel download of a resource of `total_size` bytes of which
/// the first `resume_offset` are already there, for `workers` workers.
pub fn plan_segments(total_size: u64, resume_offset: u64, workers: usize) -> (plan: SegmentPlan)
    requires
        workers >= 1,
    ensures
        resume_offset >= total_size <==> plan is AlreadyComplete,
        resume_offset < total_size && chunk_size(
            total_size as int,
            resume_offset as int,
            workers as int,
        ) == 0 <==> plan is SingleStream,
        plan matches SegmentPlan::Segments(segments) ==> {
            &&& segments@ == plan_of(total_size as int, resume_offset as int, workers as int)
            &&& segments@.len() == workers
            &&& tiles(segments@, resume_offset as int, total_size - 1)
        },
{
    if resume_offset >= total_size {
        return SegmentPlan::AlreadyComplete;
    }
    let remaining: u64 = total_size - resume_offset;
    let count: u64 = workers as u64;
    let chunk: u64 = remaining / count;
    if chunk == 0 {
        return SegmentPlan::SingleStream;
    }
    let ghost t = total_size as int;
    let ghost r = resume_offset as int;
    let ghost w = workers as int;
    let mut segments: Vec<Segment> = Vec::new();
    let mut start: u64 = resume_offset;
    let mut i: usize = 0;
    proof {
        assert(0 * (chunk as int) == 0) by (nonlinear_arith);
    }
    while i < workers
        invariant
            i <= workers,
            workers >= 1,
            count == workers,
            resume_offset < total_size,
            t == total_size,
            r == resume_offset,
            w == workers,
            chunk == chunk_size(t, r, w),
            chunk >= 1,
            i < workers ==> start == r + i * chunk,
            segments@.len() == i,
            forall|k: int| 0 <= k < i ==> segments@[k] == segment_at(t, r, w, k),
        decreases workers - i,
    {
        proof {
            lemma_segment_bounds(t, r, w, i as int);
            lemma_mul_step(i as int, chunk as int);
            if i + 1 < workers {
                lemma_segment_bounds(t, r, w, i + 1);
            }
        }
        let end: u64 = if i == workers - 1 {
            total_size - 1
        } else {
            start + chunk - 1
        };
        segments.push(Segment { index: i, range_start: start, range_end_inclusive: end });
        if i < workers - 1 {
            start = start + chunk;
        }
        i = i + 1;
    }
    proof {
        lemma_plan_tiles(t, r, w);
        assert(segments@ =~= plan_of(t, r, w));
    }
    SegmentPlan::Segments(segments)
}

} // verus!
