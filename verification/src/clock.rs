//! The clock that stamps captured frames.

use vstd::prelude::*;

verus! {

/// A clock that starts at 0, at a given time or with the first frame, and never steps
/// back.
#[derive(Debug, Clone, Copy, PartialEq, Eq, Structural)]
pub struct FrameClock {
    /// The time at which the clock starts; nothing before the first frame.
    pub origin: Option<u64>,
    /// The last stamp.
    pub last: u64,
}

impl FrameClock {
    /// A clock that starts with the first frame.
    pub open spec fn fresh() -> FrameClock {
        FrameClock { origin: None, last: 0 }
    }

    /// A clock that starts at a time.
    pub open spec fn started(start_ns: u64) -> FrameClock {
        FrameClock { origin: Some(start_ns), last: 0 }
    }

    /// Nothing has been stamped before the clock starts.
    pub open spec fn wf(self) -> bool {
        self.origin is None ==> self.last == 0
    }

    /// The stamp of a frame.
    pub open spec fn stamp_of(self, pts_ns: u64) -> u64 {
        match self.origin {
            None => 0,
            Some(o) => if pts_ns >= o && pts_ns - o >= self.last {
                (pts_ns - o) as u64
            } else {
                self.last
            },
        }
    }

    /// The clock after a frame.
    pub open spec fn after(self, pts_ns: u64) -> FrameClock {
        FrameClock {
            origin: if self.origin is None {
                Some(pts_ns)
            } else {
                self.origin
            },
            last: self.stamp_of(pts_ns),
        }
    }

    /// The clock after frames.
    pub open spec fn after_all(self, frames: Seq<u64>) -> FrameClock
        decreases frames.len(),
    {
        if frames.len() == 0 {
            self
        } else {
            self.after_all(frames.drop_last()).after(frames.last())
        }
    }

    /// A clock that starts with the first frame.
    pub fn new() -> (r: FrameClock)
        ensures
            r == FrameClock::fresh(),
    {
        FrameClock { origin: None, last: 0 }
    }

    /// A clock that starts at a time.
    pub fn starting_at(start_ns: u64) -> (r: FrameClock)
        ensures
            r == FrameClock::started(start_ns),
    {
        FrameClock { origin: Some(start_ns), last: 0 }
    }

    /// Stamps a frame.
    pub fn stamp(&mut self, pts_ns: u64) -> (r: u64)
        ensures
            r == old(self).stamp_of(pts_ns),
            *final(self) == old(self).after(pts_ns),
    {
        let t: u64 = match self.origin {
            None => {
                self.origin = Some(pts_ns);
                0
            },
            Some(o) => {
                let since: u64 = pts_ns.saturating_sub(o);
                if since < self.last {
                    self.last
                } else {
                    since
                }
            },
        };
        self.last = t;
        t
    }
}

// --- laws --------------------------------------------------------------------------

/// The stamps of a stream of frames start at 0 and never step back; where the frames
/// come in time order, the time between them is kept.
pub proof fn law_frame_stamps_start_at_zero(frames: Seq<u64>, pts_ns: u64)
    ensures
        frames.len() == 0 ==> FrameClock::fresh().after_all(frames).stamp_of(pts_ns) == 0,
        FrameClock::fresh().after_all(frames).stamp_of(pts_ns) >= FrameClock::fresh().after_all(
            frames,
        ).last,
        frames.len() > 0 && (forall|i: int, j: int|
            0 <= i <= j < frames.push(pts_ns).len() ==> frames.push(pts_ns)[i] <= frames.push(
                pts_ns,
            )[j]) ==> FrameClock::fresh().after_all(frames).stamp_of(pts_ns) == pts_ns - frames[0],
    decreases frames.len(),
{
    let clock = FrameClock::fresh().after_all(frames);
    if frames.len() > 0 {
        let earlier = frames.drop_last();
        law_frame_stamps_start_at_zero(earlier, frames.last());
        lemma_clock_origin(frames);
        let all = frames.push(pts_ns);
        if forall|i: int, j: int| 0 <= i <= j < all.len() ==> all[i] <= all[j] {
            let before = earlier.push(frames.last());
            assert(before =~= frames);
            assert forall|i: int, j: int| 0 <= i <= j < before.len() implies before[i]
                <= before[j] by {
                assert(all[i] == before[i] && all[j] == before[j]);
            }
            assert(all[0] == frames[0]);
            assert(all[all.len() - 1] == pts_ns);
            assert(all[frames.len() - 1] == frames.last());
            assert(all[0] <= all[all.len() - 1]);
            assert(all[frames.len() - 1] <= all[all.len() - 1]);
            if earlier.len() > 0 {
                assert(earlier[0] == frames[0]);
                assert(clock.last == frames.last() - frames[0]);
            } else {
                assert(clock.last == 0);
            }
        }
    }
}

proof fn lemma_clock_origin(frames: Seq<u64>)
    requires
        frames.len() > 0,
    ensures
        FrameClock::fresh().after_all(frames).origin == Some(frames[0]),
    decreases frames.len(),
{
    let earlier = frames.drop_last();
    if earlier.len() > 0 {
        lemma_clock_origin(earlier);
        assert(earlier[0] == frames[0]);
    } else {
        assert(FrameClock::fresh().after_all(earlier) == FrameClock::fresh());
    }
}

/// No stamp is earlier than one before it, whatever the clock reads.
pub proof fn law_stamps_never_decrease(clock: FrameClock, frames: Seq<u64>, i: int, j: int)
    requires
        clock.wf(),
        0 <= i <= j < frames.len(),
    ensures
        clock.after_all(frames.take(i)).stamp_of(frames[i]) <= clock.after_all(
            frames.take(j),
        ).stamp_of(frames[j]),
    decreases j,
{
    if i < j {
        law_stamps_never_decrease(clock, frames, i, j - 1);
        lemma_clock_wf(clock, frames.take(j));
        assert(frames.take(j).drop_last() =~= frames.take(j - 1));
        assert(frames.take(j).last() == frames[j - 1]);
    }
}

/// The stamp of a frame that is read no earlier than the clock started and than any
/// frame before it is the time since the clock started.
pub proof fn law_stamps_count_from_the_start(start_ns: u64, frames: Seq<u64>, pts_ns: u64)
    requires
        start_ns <= pts_ns,
        forall|i: int| 0 <= i < frames.len() ==> #[trigger] frames[i] <= pts_ns,
    ensures
        FrameClock::started(start_ns).after_all(frames).stamp_of(pts_ns) == pts_ns - start_ns,
{
    lemma_last_stamp(start_ns, frames, pts_ns);
}

proof fn lemma_last_stamp(start_ns: u64, frames: Seq<u64>, bound: u64)
    requires
        start_ns <= bound,
        forall|i: int| 0 <= i < frames.len() ==> #[trigger] frames[i] <= bound,
    ensures
        FrameClock::started(start_ns).after_all(frames).origin == Some(start_ns),
        FrameClock::started(start_ns).after_all(frames).last <= bound - start_ns,
    decreases frames.len(),
{
    if frames.len() > 0 {
        let earlier = frames.drop_last();
        assert forall|i: int| 0 <= i < earlier.len() implies #[trigger] earlier[i] <= bound by {
            assert(earlier[i] == frames[i]);
        }
        lemma_last_stamp(start_ns, earlier, bound);
        assert(frames.last() == frames[frames.len() - 1]);
    }
}

proof fn lemma_clock_wf(clock: FrameClock, frames: Seq<u64>)
    requires
        clock.wf(),
    ensures
        clock.after_all(frames).wf(),
    decreases frames.len(),
{
    if frames.len() > 0 {
        lemma_clock_wf(clock, frames.drop_last());
    }
}

/// A stamp is the time since the clock started, or the last stamp where that is later; a
/// clock that has not started starts at 0 with the frame. The next stamp goes on from it.
pub proof fn law_stamp_is_the_time_since_the_start(
    clock: &mut FrameClock,
    pts_ns: u64,
    r: u64,
    start_ns: u64,
    started: FrameClock,
    fresh: FrameClock,
)
    requires
        call_ensures(FrameClock::stamp, (clock, pts_ns), r),
        call_ensures(FrameClock::starting_at, (start_ns,), started),
        call_ensures(FrameClock::new, (), fresh),
    ensures
        old(clock).origin is None ==> r == 0 && final(clock).origin == Some(pts_ns),
        old(clock).origin matches Some(o) ==> {
            &&& pts_ns >= o && pts_ns - o >= old(clock).last ==> r == pts_ns - o
            &&& pts_ns < o || pts_ns - o < old(clock).last ==> r == old(clock).last
            &&& final(clock).origin == Some(o)
        },
        final(clock).last == r,
        started.origin == Some(start_ns) && started.last == 0,
        fresh.origin is None && fresh.last == 0,
{
}

} // verus!
