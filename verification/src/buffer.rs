//! The rolling clip buffer: a time-bounded ring of encoded packets.
//!
//! Encoded packets are pushed continuously and the oldest ones leave as new ones
//! arrive, so that the ring holds about the last N seconds. Saving takes a copy that
//! starts at a keyframe.

use crate::media::{EncodedPacket, PacketView};
use std::collections::VecDeque;
use vstd::prelude::*;

verus! {

const NS_PER_SEC: u64 = 1_000_000_000;

/// How much older than the newest packet a packet with a timestamp is; one with a later
/// timestamp than the newest has no age.
pub open spec fn age_of(newest: u64, pts_ns: u64) -> int {
    if newest >= pts_ns {
        newest - pts_ns
    } else {
        0
    }
}

/// How much older than the newest packet, which is the last one, the packet at `i` is.
pub open spec fn age(packets: Seq<PacketView>, i: int) -> int {
    age_of(packets.last().pts_ns, packets[i].pts_ns)
}

/// Whether the packet at `i` is out of bounds: older than the window, or followed by
/// so many packets that the count is over the cap.
pub open spec fn is_stale(packets: Seq<PacketView>, i: int, window_ns: int, max_packets: int) -> bool {
    age(packets, i) > window_ns || packets.len() - i > max_packets
}

/// The packets that are no older than the window, in order.
pub open spec fn young(packets: Seq<PacketView>, newest: u64, window_ns: int) -> Seq<PacketView> {
    packets.filter(|p: PacketView| age_of(newest, p.pts_ns) <= window_ns)
}

/// The last `n` packets.
pub open spec fn last_of(packets: Seq<PacketView>, n: int) -> Seq<PacketView> {
    if packets.len() > n {
        packets.skip(packets.len() - n)
    } else {
        packets
    }
}

/// What is left of `packets`: every packet older than the window leaves, wherever it
/// is, and then packets leave at the front until the cap is kept.
pub open spec fn evicted(
    packets: Seq<PacketView>,
    window_ns: int,
    max_packets: int,
) -> Seq<PacketView> {
    if packets.len() == 0 {
        packets
    } else {
        last_of(young(packets, packets.last().pts_ns, window_ns), max_packets)
    }
}

/// The index of the first keyframe, or the length when there is none.
pub open spec fn first_keyframe(packets: Seq<PacketView>) -> int
    decreases packets.len(),
{
    if packets.len() == 0 || packets[0].is_keyframe {
        0
    } else {
        1 + first_keyframe(packets.skip(1))
    }
}

/// `packets` from the first keyframe on, or all of them when there is none.
pub open spec fn from_keyframe(packets: Seq<PacketView>) -> Seq<PacketView> {
    if first_keyframe(packets) < packets.len() {
        packets.skip(first_keyframe(packets))
    } else {
        packets
    }
}

/// A number of seconds or of frames per second, of which there is at least one.
pub open spec fn at_least_one(n: u32) -> int {
    if n == 0 {
        1
    } else {
        n as int
    }
}

/// What a ring holds and the bounds that it keeps.
#[verifier::ext_equal]
pub struct Ring {
    /// The packets, oldest first.
    pub packets: Seq<PacketView>,
    /// The length of the window in nanoseconds.
    pub window_ns: int,
    /// The cap on the packet count.
    pub max_packets: int,
}

impl Ring {
    /// The bounds are proper ones and the packets keep them.
    pub open spec fn wf(self) -> bool {
        &&& self.window_ns % 1_000_000_000 == 0
        &&& 1_000_000_000 <= self.window_ns <= 1_000_000_000 * 0xffff_ffff
        &&& 64 <= self.max_packets
        &&& self.packets.len() <= self.max_packets
        &&& forall|i: int|
            0 <= i < self.packets.len() ==> #[trigger] age(self.packets, i) <= self.window_ns
    }

    /// The time from the oldest to the newest packet.
    pub open spec fn span(self) -> int {
        if self.packets.len() == 0 {
            0
        } else {
            age(self.packets, 0)
        }
    }

    /// The ring after one more packet.
    pub open spec fn pushed(self, packet: PacketView) -> Ring {
        Ring {
            packets: evicted(self.packets.push(packet), self.window_ns, self.max_packets),
            ..self
        }
    }

    /// The ring after all of `packets`, in order.
    pub open spec fn pushed_all(self, packets: Seq<PacketView>) -> Ring
        decreases packets.len(),
    {
        if packets.len() == 0 {
            self
        } else {
            self.pushed_all(packets.drop_last()).pushed(packets.last())
        }
    }

    /// A ring with no packet and the bounds for a window and a frame rate.
    pub open spec fn empty(window_seconds: u32, approx_fps: u32) -> Ring {
        let nominal = at_least_one(window_seconds) * at_least_one(approx_fps);
        let doubled = if 2 * nominal > u32::MAX {
            u32::MAX as int
        } else {
            2 * nominal
        };
        Ring {
            packets: Seq::empty(),
            window_ns: at_least_one(window_seconds) * 1_000_000_000,
            max_packets: if doubled < 64 { 64 } else { doubled },
        }
    }
}

/// Whether a ring can be made for this window and frame rate: the nominal number of
/// packets is a `u32`.
pub open spec fn ring_fits(window_seconds: u32, approx_fps: u32) -> bool {
    at_least_one(window_seconds) * at_least_one(approx_fps) <= u32::MAX
}

/// Time-bounded ring of recently encoded packets.
pub struct ClipBuffer {
    packets: VecDeque<EncodedPacket>,
    window_ns: u64,
    /// Cap on the packet count, independent of the window, so that a misbehaving
    /// timestamp source cannot grow the buffer without bound.
    max_packets: usize,
}

impl View for ClipBuffer {
    type V = Ring;

    closed spec fn view(&self) -> Ring {
        Ring {
            packets: self.packets@.map_values(|p: EncodedPacket| p@),
            window_ns: self.window_ns as int,
            max_packets: self.max_packets as int,
        }
    }
}

impl ClipBuffer {
    /// Makes a buffer for about `window_seconds` of footage. `approx_fps` sizes the
    /// cap on the packet count.
    pub fn new(window_seconds: u32, approx_fps: u32) -> (r: ClipBuffer)
        requires
            ring_fits(window_seconds, approx_fps),
        ensures
            r@.wf(),
            r@ == Ring::empty(window_seconds, approx_fps),
    {
        let seconds: u32 = if window_seconds == 0 {
            1
        } else {
            window_seconds
        };
        let fps: u32 = if approx_fps == 0 {
            1
        } else {
            approx_fps
        };
        let window_ns: u64 = seconds as u64 * NS_PER_SEC;
        // Twice the nominal frame count, for encoder burstiness.
        let nominal: u32 = seconds * fps;
        let doubled: u64 = nominal as u64 * 2;
        let max_packets: usize = if doubled > u32::MAX as u64 {
            u32::MAX as usize
        } else {
            doubled as usize
        };
        let reserve: usize = if max_packets < 8192 {
            max_packets
        } else {
            8192
        };
        let r = ClipBuffer {
            packets: VecDeque::with_capacity(reserve),
            window_ns,
            max_packets: if max_packets < 64 {
                64
            } else {
                max_packets
            },
        };
        assert(r@.packets =~= Seq::empty());
        r
    }

    /// Length of the rolling window in whole seconds.
    pub fn window_seconds(&self) -> (r: u32)
        requires
            self@.wf(),
        ensures
            r * 1_000_000_000 == self@.window_ns,
    {
        (self.window_ns / NS_PER_SEC) as u32
    }

    /// Number of packets currently buffered.
    pub fn len(&self) -> (r: usize)
        ensures
            r == self@.packets.len(),
    {
        self.packets.len()
    }

    pub fn is_empty(&self) -> (r: bool)
        ensures
            r == (self@.packets.len() == 0),
    {
        self.packets.len() == 0
    }

    /// Pushes an encoded packet, then evicts everything older than the window and what is
    /// over the cap.
    pub fn push(&mut self, packet: EncodedPacket)
        requires
            old(self)@.wf(),
        ensures
            final(self)@ == old(self)@.pushed(packet@),
            final(self)@.wf(),
    {
        let ghost before = self@;
        self.packets.push_back(packet);
        assert(self@.packets =~= before.packets.push(packet@));
        proof {
            lemma_evicted(self@.packets, self@.window_ns, self@.max_packets);
        }
        self.evict();
    }

    fn evict(&mut self)
        requires
            old(self)@.max_packets > 0,
        ensures
            final(self)@ == (Ring {
                packets: evicted(
                    old(self)@.packets,
                    old(self)@.window_ns,
                    old(self)@.max_packets,
                ),
                ..old(self)@
            }),
    {
        let count = self.packets.len();
        if count == 0 {
            return;
        }
        let newest: u64 = self.packets[count - 1].pts_ns;
        self.drop_stale_front(newest);
        if self.has_stale(newest) {
            self.drop_stale(newest);
        } else {
            proof {
                lemma_all_young(self@.packets, newest, self@.window_ns);
            }
        }
        let ghost kept = self@.packets;
        while self.packets.len() > self.max_packets
            invariant
                self.max_packets > 0,
                self@ == (Ring {
                    packets: kept.skip(kept.len() - self@.packets.len()),
                    ..old(self)@
                }),
                self@.packets.len() <= kept.len(),
                kept.len() <= old(self)@.max_packets ==> self@.packets == kept,
                kept.len() > old(self)@.max_packets ==> self@.packets.len()
                    >= old(self)@.max_packets,
            decreases self@.packets.len(),
        {
            let ghost before = self@.packets;
            let _ = self.packets.pop_front();
            assert(self@.packets =~= before.skip(1));
            assert(before.skip(1) =~= kept.skip(kept.len() - self@.packets.len()));
        }
        assert(self@.packets =~= last_of(kept, old(self)@.max_packets));
    }

    /// Drops packets that are too old at the front, where they mostly are.
    fn drop_stale_front(&mut self, newest: u64)
        ensures
            final(self)@.window_ns == old(self)@.window_ns,
            final(self)@.max_packets == old(self)@.max_packets,
            young(final(self)@.packets, newest, old(self)@.window_ns) == young(
                old(self)@.packets,
                newest,
                old(self)@.window_ns,
            ),
    {
        while self.packets.len() > 0 && newest.saturating_sub(self.packets[0].pts_ns)
            > self.window_ns
            invariant
                self@.window_ns == old(self)@.window_ns,
                self@.max_packets == old(self)@.max_packets,
                young(self@.packets, newest, self@.window_ns) == young(
                    old(self)@.packets,
                    newest,
                    old(self)@.window_ns,
                ),
            decreases self@.packets.len(),
        {
            let ghost before = self@.packets;
            assert(before[0].pts_ns == self.packets@[0].pts_ns);
            let _ = self.packets.pop_front();
            assert(self@.packets =~= before.skip(1));
            proof {
                lemma_young_front(before, newest, self@.window_ns);
            }
        }
    }

    /// Whether some packet is too old.
    fn has_stale(&self, newest: u64) -> (r: bool)
        ensures
            !r ==> forall|i: int|
                0 <= i < self@.packets.len() ==> age_of(
                    newest,
                    (#[trigger] self@.packets[i]).pts_ns,
                ) <= self@.window_ns,
    {
        for i in 0..self.packets.len()
            invariant
                forall|j: int|
                    0 <= j < i ==> age_of(newest, (#[trigger] self@.packets[j]).pts_ns)
                        <= self@.window_ns,
        {
            if newest.saturating_sub(self.packets[i].pts_ns) > self.window_ns {
                return true;
            }
            assert(self@.packets[i as int].pts_ns == self.packets@[i as int].pts_ns);
        }
        false
    }

    /// Drops every packet that is too old: each packet is taken off the front, and put
    /// back at the end where it stays.
    fn drop_stale(&mut self, newest: u64)
        ensures
            final(self)@ == (Ring {
                packets: young(old(self)@.packets, newest, old(self)@.window_ns),
                ..old(self)@
            }),
    {
        let count = self.packets.len();
        let ghost all = self@.packets;
        let ghost w = self@.window_ns;
        proof {
            reveal(Seq::filter);
        }
        assert(all.skip(0) + young(all.take(0), newest, w) =~= all);
        for k in 0..count
            invariant
                count == all.len(),
                w == self@.window_ns == old(self)@.window_ns,
                self@.max_packets == old(self)@.max_packets,
                self@.packets == all.skip(k as int) + young(all.take(k as int), newest, w),
        {
            let ghost before = self@.packets;
            let ghost kept = young(all.take(k as int), newest, w);
            let ghost held = self.packets@;
            assert(before.len() > 0);
            if let Some(packet) = self.packets.pop_front() {
                assert(packet@ == held[0]@);
                assert(held[0]@ == before[0]);
                assert(packet@ == all[k as int]);
                assert(self@.packets =~= before.skip(1));
                proof {
                    lemma_young_push(all.take(k as int), all[k as int], newest, w);
                }
                assert(all.take(k + 1) =~= all.take(k as int).push(all[k as int]));
                let keeps = newest.saturating_sub(packet.pts_ns) <= self.window_ns;
                if keeps {
                    self.packets.push_back(packet);
                    assert(self@.packets =~= before.skip(1).push(all[k as int]));
                }
                assert(self@.packets =~= all.skip(k + 1) + young(all.take(k + 1), newest, w));
            }
        }
        assert(all.take(count as int) =~= all);
        assert(self@.packets =~= young(all, newest, w));
    }

    /// Span between the oldest and newest buffered packet, in nanoseconds.
    pub fn buffered_duration_ns(&self) -> (r: u64)
        ensures
            r == self@.span(),
    {
        let count = self.packets.len();
        if count == 0 {
            0
        } else {
            let newest: u64 = self.packets[count - 1].pts_ns;
            let oldest: u64 = self.packets[0].pts_ns;
            newest.saturating_sub(oldest)
        }
    }

    /// Copies the buffered window, trimmed to begin at the earliest keyframe so that
    /// the clip can be decoded from its first frame.
    pub fn snapshot(&self) -> (r: Vec<EncodedPacket>)
        ensures
            crate::media::packet_views(r@) == from_keyframe(self@.packets),
    {
        let count = self.packets.len();
        let mut start: usize = 0;
        assert(self@.packets.skip(0) =~= self@.packets);
        while start < count && !self.packets[start].is_keyframe
            invariant
                count == self@.packets.len(),
                start <= count,
                first_keyframe(self@.packets) == start + first_keyframe(
                    self@.packets.skip(start as int),
                ),
            decreases count - start,
        {
            assert(self@.packets.skip(start as int).skip(1) =~= self@.packets.skip(start + 1));
            start += 1;
        }
        if start == count {
            start = 0;
        }
        let ghost whole = from_keyframe(self@.packets);
        assert(whole =~= self@.packets.skip(start as int));
        let mut r: Vec<EncodedPacket> = Vec::new();
        let mut i: usize = start;
        while i < count
            invariant
                count == self@.packets.len(),
                start <= i <= count,
                whole == self@.packets.skip(start as int),
                crate::media::packet_views(r@) == whole.take(i - start),
            decreases count - i,
        {
            let copy = self.packets[i].clone();
            assert(copy@ == whole[i - start]);
            let ghost before = r@;
            r.push(copy);
            assert(crate::media::packet_views(r@) =~= crate::media::packet_views(before).push(
                copy@,
            ));
            assert(whole.take(i + 1 - start) =~= whole.take(i - start).push(whole[i - start]));
            i += 1;
        }
        assert(whole.take(count - start) =~= whole);
        r
    }

    pub fn clear(&mut self)
        requires
            old(self)@.wf(),
        ensures
            final(self)@ == (Ring { packets: Seq::empty(), ..old(self)@ }),
            final(self)@.wf(),
    {
        self.packets.clear();
        assert(self@.packets =~= Seq::empty());
    }
}

// --- laws --------------------------------------------------------------------------

/// A packet after others stays exactly where it is no older than the window.
proof fn lemma_young_push(packets: Seq<PacketView>, p: PacketView, newest: u64, window_ns: int)
    ensures
        young(packets.push(p), newest, window_ns) == (if age_of(newest, p.pts_ns) <= window_ns {
            young(packets, newest, window_ns).push(p)
        } else {
            young(packets, newest, window_ns)
        }),
{
    reveal(Seq::filter);
    assert(packets.push(p).drop_last() =~= packets);
}

/// What stays of packets in a row is what stays of the first and what stays of the rest.
proof fn lemma_young_split(packets: Seq<PacketView>, k: int, newest: u64, window_ns: int)
    requires
        0 <= k <= packets.len(),
    ensures
        young(packets, newest, window_ns) == young(packets.take(k), newest, window_ns) + young(
            packets.skip(k),
            newest,
            window_ns,
        ),
{
    assert(packets =~= packets.take(k) + packets.skip(k));
    Seq::filter_distributes_over_add(
        packets.take(k),
        packets.skip(k),
        |p: PacketView| age_of(newest, p.pts_ns) <= window_ns,
    );
}

/// The first packet stays exactly where it is no older than the window.
proof fn lemma_young_front(packets: Seq<PacketView>, newest: u64, window_ns: int)
    requires
        packets.len() > 0,
    ensures
        young(packets, newest, window_ns) == (if age_of(newest, packets[0].pts_ns) <= window_ns {
            seq![packets[0]] + young(packets.skip(1), newest, window_ns)
        } else {
            young(packets.skip(1), newest, window_ns)
        }),
{
    let rest = young(packets.skip(1), newest, window_ns);
    lemma_young_split(packets, 1, newest, window_ns);
    assert(packets.take(1) =~= Seq::<PacketView>::empty().push(packets[0]));
    lemma_young_push(Seq::empty(), packets[0], newest, window_ns);
    assert(young(Seq::empty(), newest, window_ns) =~= Seq::empty()) by {
        reveal(Seq::filter);
    }
    assert(Seq::<PacketView>::empty() + rest =~= rest);
    assert(Seq::<PacketView>::empty().push(packets[0]) =~= seq![packets[0]]);
}

/// Where no packet is too old, all stay.
proof fn lemma_all_young(packets: Seq<PacketView>, newest: u64, window_ns: int)
    requires
        forall|i: int|
            0 <= i < packets.len() ==> age_of(newest, (#[trigger] packets[i]).pts_ns) <= window_ns,
    ensures
        young(packets, newest, window_ns) == packets,
    decreases packets.len(),
{
    reveal(Seq::filter);
    if packets.len() > 0 {
        let earlier = packets.drop_last();
        assert forall|i: int| 0 <= i < earlier.len() implies age_of(
            newest,
            (#[trigger] earlier[i]).pts_ns,
        ) <= window_ns by {
            assert(earlier[i] == packets[i]);
        }
        lemma_all_young(earlier, newest, window_ns);
        assert(packets.last() == packets[packets.len() - 1]);
        assert(earlier.push(packets.last()) =~= packets);
    } else {
        assert(young(packets, newest, window_ns) =~= packets);
    }
}

/// What stays was there and is no older than the window.
proof fn lemma_young_members(packets: Seq<PacketView>, newest: u64, window_ns: int)
    ensures
        young(packets, newest, window_ns).len() <= packets.len(),
        forall|i: int|
            0 <= i < young(packets, newest, window_ns).len() ==> age_of(
                newest,
                (#[trigger] young(packets, newest, window_ns)[i]).pts_ns,
            ) <= window_ns && packets.contains(young(packets, newest, window_ns)[i]),
    decreases packets.len(),
{
    reveal(Seq::filter);
    if packets.len() > 0 {
        let earlier = packets.drop_last();
        lemma_young_members(earlier, newest, window_ns);
        let kept = young(packets, newest, window_ns);
        let before = young(earlier, newest, window_ns);
        assert forall|i: int| 0 <= i < kept.len() implies age_of(
            newest,
            (#[trigger] kept[i]).pts_ns,
        ) <= window_ns && packets.contains(kept[i]) by {
            if i < before.len() {
                assert(kept[i] == before[i]);
                let k = choose|k: int| 0 <= k < earlier.len() && earlier[k] == before[i];
                assert(packets[k] == kept[i]);
            } else {
                assert(packets[packets.len() - 1] == kept[i]);
            }
        }
    }
}

/// Whether the packet at `i` is in `kept`, no further from its end.
pub open spec fn is_kept(kept: Seq<PacketView>, packets: Seq<PacketView>, i: int) -> bool {
    exists|k: int|
        0 <= k < kept.len() && #[trigger] kept[k] == packets[i] && kept.len() - k <= packets.len()
            - i
}

/// A packet that is no older than the window and among the last that the cap admits is
/// not evicted.
proof fn lemma_not_evicted(packets: Seq<PacketView>, i: int, window_ns: int, max_packets: int)
    requires
        0 <= i < packets.len(),
        !is_stale(packets, i, window_ns, max_packets),
    ensures
        is_kept(evicted(packets, window_ns, max_packets), packets, i),
{
    let newest = packets.last().pts_ns;
    let all = young(packets, newest, window_ns);
    let before = young(packets.take(i), newest, window_ns);
    let rest = packets.skip(i);
    lemma_young_split(packets, i, newest, window_ns);
    lemma_young_front(rest, newest, window_ns);
    lemma_young_members(rest.skip(1), newest, window_ns);
    let k = before.len() as int;
    assert(all[k] == packets[i]);
    assert(all.len() - k <= packets.len() - i);
    let kept = evicted(packets, window_ns, max_packets);
    let at = k - (all.len() - kept.len());
    assert(kept[at] == packets[i]);
}

/// What eviction leaves keeps the bounds, was there before, and ends with the newest
/// packet.
proof fn lemma_evicted(packets: Seq<PacketView>, window_ns: int, max_packets: int)
    requires
        packets.len() > 0,
        window_ns >= 0,
        max_packets > 0,
    ensures
        ({
            let kept = evicted(packets, window_ns, max_packets);
            &&& 0 < kept.len() <= max_packets
            &&& kept.len() <= packets.len()
            &&& kept.last() == packets.last()
            &&& forall|i: int|
                0 <= i < kept.len() ==> #[trigger] age(kept, i) <= window_ns && packets.contains(
                    kept[i],
                )
        }),
{
    let newest = packets.last().pts_ns;
    let all = young(packets, newest, window_ns);
    let kept = evicted(packets, window_ns, max_packets);
    lemma_young_push(packets.drop_last(), packets.last(), newest, window_ns);
    assert(packets.drop_last().push(packets.last()) =~= packets);
    lemma_young_members(packets, newest, window_ns);
    assert forall|i: int| 0 <= i < kept.len() implies #[trigger] age(kept, i) <= window_ns
        && packets.contains(kept[i]) by {
        assert(kept[i] == all[i + all.len() - kept.len()]);
    }
}

/// In time order, what is too old is at the front.
proof fn lemma_young_is_suffix(packets: Seq<PacketView>, newest: u64, window_ns: int) -> (gone: int)
    requires
        in_time_order(packets),
        forall|i: int| 0 <= i < packets.len() ==> (#[trigger] packets[i]).pts_ns <= newest,
    ensures
        0 <= gone <= packets.len(),
        young(packets, newest, window_ns) == packets.skip(gone),
        forall|i: int|
            0 <= i < packets.len() ==> (gone <= i <==> age_of(
                newest,
                (#[trigger] packets[i]).pts_ns,
            ) <= window_ns),
    decreases packets.len(),
{
    if packets.len() == 0 {
        assert(young(packets, newest, window_ns) =~= packets.skip(0)) by {
            reveal(Seq::filter);
        }
        0
    } else if age_of(newest, packets[0].pts_ns) <= window_ns {
        assert forall|i: int| 0 <= i < packets.len() implies age_of(
            newest,
            (#[trigger] packets[i]).pts_ns,
        ) <= window_ns by {
            assert(packets[0].pts_ns <= packets[i].pts_ns);
        }
        lemma_all_young(packets, newest, window_ns);
        assert(packets.skip(0) =~= packets);
        0
    } else {
        let rest = packets.skip(1);
        assert forall|i: int| 0 <= i < rest.len() implies (#[trigger] rest[i]).pts_ns
            <= newest by {
            assert(rest[i] == packets[i + 1]);
        }
        let k = lemma_young_is_suffix(rest, newest, window_ns);
        lemma_young_front(packets, newest, window_ns);
        assert(rest.skip(k) =~= packets.skip(k + 1));
        assert forall|i: int| 0 <= i < packets.len() implies (k + 1 <= i <==> age_of(
            newest,
            (#[trigger] packets[i]).pts_ns,
        ) <= window_ns) by {
            if i > 0 {
                assert(packets[i] == rest[i - 1]);
            }
        }
        k + 1
    }
}

/// Eviction leaves the newest packet last, leaves nothing older than the window and no
/// more than the cap admits, and takes nothing away that is within the window and among
/// the last that the cap admits. In time order what is left is the end of what was there,
/// from the first packet within bounds on.
pub proof fn law_eviction_keeps_the_window(
    packets: Seq<PacketView>,
    window_ns: int,
    max_packets: int,
)
    requires
        packets.len() > 0,
        window_ns >= 0,
        max_packets > 0,
    ensures
        ({
            let kept = evicted(packets, window_ns, max_packets);
            let gone = packets.len() - kept.len();
            &&& 0 < kept.len() <= max_packets
            &&& gone >= 0
            &&& kept.last() == packets.last()
            &&& forall|i: int|
                0 <= i < kept.len() ==> #[trigger] age(kept, i) <= window_ns && packets.contains(
                    kept[i],
                )
            &&& forall|i: int|
                0 <= i < packets.len() && !#[trigger] is_stale(packets, i, window_ns, max_packets)
                    ==> is_kept(kept, packets, i)
            &&& in_time_order(packets) ==> kept == packets.skip(gone) && forall|i: int|
                0 <= i < packets.len() ==> (gone <= i <==> !#[trigger] is_stale(
                    packets,
                    i,
                    window_ns,
                    max_packets,
                ))
        }),
{
    let kept = evicted(packets, window_ns, max_packets);
    let gone = packets.len() - kept.len();
    lemma_evicted(packets, window_ns, max_packets);
    assert forall|i: int|
        0 <= i < packets.len() && !#[trigger] is_stale(
            packets,
            i,
            window_ns,
            max_packets,
        ) implies is_kept(kept, packets, i) by {
        lemma_not_evicted(packets, i, window_ns, max_packets);
    }
    if in_time_order(packets) {
        let newest = packets.last().pts_ns;
        assert forall|i: int| 0 <= i < packets.len() implies (#[trigger] packets[i]).pts_ns
            <= newest by {
            assert(packets[packets.len() - 1] == packets.last());
        }
        let k = lemma_young_is_suffix(packets, newest, window_ns);
        assert(kept =~= packets.skip(gone));
        assert forall|i: int| 0 <= i < packets.len() implies (gone <= i <==> !#[trigger] is_stale(
            packets,
            i,
            window_ns,
            max_packets,
        )) by {
            assert((k <= i) <==> age_of(newest, packets[i].pts_ns) <= window_ns);
        }
    }
}

/// Whether the timestamps of `packets` never step back.
pub open spec fn in_time_order(packets: Seq<PacketView>) -> bool {
    forall|i: int, j: int|
        0 <= i <= j < packets.len() ==> (#[trigger] packets[i]).pts_ns <= (
        #[trigger] packets[j]).pts_ns
}

/// Whether the packet at `i` has never been out of bounds: it is within the window of
/// itself and of every later packet, and among the last that the cap admits.
pub open spec fn has_stayed(
    packets: Seq<PacketView>,
    i: int,
    window_ns: int,
    max_packets: int,
) -> bool {
    &&& packets.len() - i <= max_packets
    &&& forall|j: int|
        i <= j < packets.len() ==> age_of((#[trigger] packets[j]).pts_ns, packets[i].pts_ns)
            <= window_ns
}

/// A ring that was empty and got `packets` ends with the newest, holds nothing but of
/// them, nothing older than the window and no more than the cap admits, and holds every
/// one that has never been out of bounds. Where they came in time order, it holds exactly
/// those that lie within the window of the newest one and among the last that the cap
/// admits, in order.
pub proof fn law_ring_holds_the_last_window(ring: Ring, packets: Seq<PacketView>)
    requires
        ring.wf(),
        ring.packets.len() == 0,
        packets.len() > 0,
    ensures
        ({
            let kept = ring.pushed_all(packets).packets;
            let gone = packets.len() - kept.len();
            &&& 0 < kept.len() <= ring.max_packets
            &&& gone >= 0
            &&& kept.last() == packets.last()
            &&& forall|i: int|
                0 <= i < kept.len() ==> #[trigger] age(kept, i) <= ring.window_ns
                    && packets.contains(kept[i])
            &&& forall|i: int|
                0 <= i < packets.len() && #[trigger] has_stayed(
                    packets,
                    i,
                    ring.window_ns,
                    ring.max_packets,
                ) ==> is_kept(kept, packets, i)
            &&& in_time_order(packets) ==> kept == packets.skip(gone) && forall|i: int|
                0 <= i < packets.len() ==> (gone <= i <==> !#[trigger] is_stale(
                    packets,
                    i,
                    ring.window_ns,
                    ring.max_packets,
                ))
        }),
        ring.pushed_all(packets).window_ns == ring.window_ns,
        ring.pushed_all(packets).max_packets == ring.max_packets,
    decreases packets.len(),
{
    let w = ring.window_ns;
    let m = ring.max_packets;
    let earlier = packets.drop_last();
    let newest = packets.last();
    let before = ring.pushed_all(earlier);
    let candidates = before.packets.push(newest);
    let kept = ring.pushed_all(packets).packets;
    if earlier.len() > 0 {
        law_ring_holds_the_last_window(ring, earlier);
    } else {
        assert(before == ring);
    }
    assert(kept == evicted(candidates, w, m));
    lemma_evicted(candidates, w, m);
    assert(candidates.last() == newest);
    assert forall|i: int| 0 <= i < kept.len() implies #[trigger] age(kept, i) <= w
        && packets.contains(kept[i]) by {
        assert(age(kept, i) <= w && candidates.contains(kept[i]));
        let k = choose|k: int| 0 <= k < candidates.len() && candidates[k] == kept[i];
        if k < before.packets.len() {
            assert(age(before.packets, k) <= w && earlier.contains(before.packets[k]));
            let n = choose|n: int| 0 <= n < earlier.len() && earlier[n] == before.packets[k];
            assert(packets[n] == kept[i]);
        } else {
            assert(packets[packets.len() - 1] == kept[i]);
        }
    }
    assert forall|i: int|
        0 <= i < packets.len() && #[trigger] has_stayed(packets, i, w, m) implies is_kept(
        kept,
        packets,
        i,
    ) by {
        let k: int = if i < earlier.len() {
            assert forall|j: int| i <= j < earlier.len() implies age_of(
                (#[trigger] earlier[j]).pts_ns,
                earlier[i].pts_ns,
            ) <= w by {
                assert(earlier[j] == packets[j]);
            }
            assert(has_stayed(earlier, i, w, m));
            let k = choose|k: int|
                0 <= k < before.packets.len() && #[trigger] before.packets[k] == earlier[i]
                    && before.packets.len() - k <= earlier.len() - i;
            assert(candidates[k] == packets[i]);
            k
        } else {
            candidates.len() - 1
        };
        assert(candidates[k] == packets[i]);
        assert(age_of(packets[packets.len() - 1].pts_ns, packets[i].pts_ns) <= w);
        assert(!is_stale(candidates, k, w, m));
        lemma_not_evicted(candidates, k, w, m);
        let n = choose|n: int|
            0 <= n < kept.len() && #[trigger] kept[n] == candidates[k] && kept.len() - n
                <= candidates.len() - k;
        assert(kept[n] == packets[i]);
    }
    if in_time_order(packets) {
        lemma_ring_in_time_order(ring, packets);
    }
}

/// The part of the law on packets in time order.
proof fn lemma_ring_in_time_order(ring: Ring, packets: Seq<PacketView>)
    requires
        ring.wf(),
        ring.packets.len() == 0,
        packets.len() > 0,
        in_time_order(packets),
    ensures
        ({
            let kept = ring.pushed_all(packets).packets;
            let gone = packets.len() - kept.len();
            &&& 0 <= gone < packets.len()
            &&& kept == packets.skip(gone)
            &&& forall|i: int|
                0 <= i < packets.len() ==> (gone <= i <==> !#[trigger] is_stale(
                    packets,
                    i,
                    ring.window_ns,
                    ring.max_packets,
                ))
        }),
        ring.pushed_all(packets).window_ns == ring.window_ns,
        ring.pushed_all(packets).max_packets == ring.max_packets,
    decreases packets.len(),
{
    let w = ring.window_ns;
    let m = ring.max_packets;
    let earlier = packets.drop_last();
    let newest = packets.last();
    let before = ring.pushed_all(earlier);
    let skipped: int;
    if earlier.len() == 0 {
        skipped = 0;
        assert(before == ring);
        assert(before.packets.push(newest) =~= packets.skip(0));
    } else {
        assert(in_time_order(earlier)) by {
            assert forall|i: int, j: int| 0 <= i <= j < earlier.len() implies (
            #[trigger] earlier[i]).pts_ns <= (#[trigger] earlier[j]).pts_ns by {
                assert(earlier[i] == packets[i] && earlier[j] == packets[j]);
            }
        }
        lemma_ring_in_time_order(ring, earlier);
        skipped = earlier.len() - before.packets.len();
        assert(before.packets.push(newest) =~= packets.skip(skipped));
        assert forall|i: int| 0 <= i < skipped implies is_stale(packets, i, w, m) by {
            assert(is_stale(earlier, i, w, m));
            assert(earlier[i] == packets[i]);
            assert(earlier.last() == packets[packets.len() - 2]);
            assert(packets[packets.len() - 2].pts_ns <= packets[packets.len() - 1].pts_ns);
        }
    }
    let candidates = packets.skip(skipped);
    assert(in_time_order(candidates)) by {
        assert forall|i: int, j: int| 0 <= i <= j < candidates.len() implies (
        #[trigger] candidates[i]).pts_ns <= (#[trigger] candidates[j]).pts_ns by {
            assert(candidates[i] == packets[i + skipped] && candidates[j] == packets[j + skipped]);
        }
    }
    law_eviction_keeps_the_window(candidates, w, m);
    let kept = ring.pushed_all(packets).packets;
    assert(kept == evicted(candidates, w, m));
    let gone = packets.len() - kept.len();
    let dropped = candidates.len() - kept.len();
    assert(candidates.skip(dropped) =~= packets.skip(gone));
    assert forall|i: int| 0 <= i < packets.len() implies (gone <= i <==> !#[trigger] is_stale(
        packets,
        i,
        w,
        m,
    )) by {
        if i >= skipped {
            assert(candidates[i - skipped] == packets[i]);
            assert(is_stale(candidates, i - skipped, w, m) == is_stale(packets, i, w, m));
        }
    }
}

/// The first keyframe is found where there is one, and none comes before it.
pub proof fn lemma_first_keyframe(packets: Seq<PacketView>)
    ensures
        0 <= first_keyframe(packets) <= packets.len(),
        first_keyframe(packets) < packets.len() ==> packets[first_keyframe(packets)].is_keyframe,
        forall|j: int| 0 <= j < first_keyframe(packets) ==> !packets[j].is_keyframe,
    decreases packets.len(),
{
    if packets.len() > 0 && !packets[0].is_keyframe {
        lemma_first_keyframe(packets.skip(1));
        assert forall|j: int| 0 <= j < first_keyframe(packets) implies !packets[j].is_keyframe by {
            if j > 0 {
                assert(packets.skip(1)[j - 1] == packets[j]);
            }
        }
    }
}

/// A snapshot is a suffix of the buffer. Where the buffer holds a keyframe, the
/// snapshot starts on one and no keyframe is left out; otherwise it is the whole
/// buffer.
pub proof fn law_snapshot_starts_on_keyframe(packets: Seq<PacketView>)
    ensures
        ({
            let clip = from_keyframe(packets);
            let gone = packets.len() - clip.len();
            &&& 0 <= gone
            &&& clip == packets.skip(gone)
            &&& forall|j: int| 0 <= j < gone ==> !packets[j].is_keyframe
            &&& (exists|j: int| 0 <= j < packets.len() && packets[j].is_keyframe) ==> clip.len() > 0
                && clip[0].is_keyframe
            &&& !(exists|j: int| 0 <= j < packets.len() && packets[j].is_keyframe) ==> clip
                == packets
        }),
{
    lemma_first_keyframe(packets);
    assert(packets.skip(0) =~= packets);
    if first_keyframe(packets) < packets.len() {
        assert(packets[first_keyframe(packets)].is_keyframe);
    }
}

/// How much of the start of the buffer a snapshot leaves out is bounded by how long the
/// first keyframe is in coming.
pub proof fn law_trim_is_bounded_by_the_keyframe_gap(
    packets: Seq<PacketView>,
    keyframe: int,
    gap_ns: int,
)
    requires
        in_time_order(packets),
        0 <= keyframe < packets.len(),
        packets[keyframe].is_keyframe,
        packets[keyframe].pts_ns - packets[0].pts_ns <= gap_ns,
    ensures
        from_keyframe(packets).len() > 0,
        from_keyframe(packets)[0].pts_ns - packets[0].pts_ns <= gap_ns,
{
    lemma_first_keyframe(packets);
    let k = first_keyframe(packets);
    assert(k <= keyframe);
    assert(packets[k].pts_ns <= packets[keyframe].pts_ns);
}

/// The contents of a buffer are its packets in order and its bounds.
proof fn law_buffer_contents(b: ClipBuffer)
    ensures
        b@.packets.len() == b.packets@.len(),
        forall|i: int|
            0 <= i < b.packets@.len() ==> (#[trigger] b@.packets[i]).data == b.packets@[i].data@
                && b@.packets[i].pts_ns == b.packets@[i].pts_ns && b@.packets[i].dts_ns
                == b.packets@[i].dts_ns && b@.packets[i].is_keyframe == b.packets@[i].is_keyframe
                && b@.packets[i].track == b.packets@[i].track,
        b@.window_ns == b.window_ns,
        b@.max_packets == b.max_packets,
{
}

/// A buffer for a number of seconds is empty and has a window of exactly as many seconds,
/// or of one where it is made for none. It has room for twice the nominal number of
/// packets, and for 64 at least.
pub proof fn law_new_buffer_is_for_the_seconds(
    window_seconds: u32,
    approx_fps: u32,
    r: ClipBuffer,
    told: u32,
)
    requires
        call_ensures(ClipBuffer::new, (window_seconds, approx_fps), r),
        call_ensures(ClipBuffer::window_seconds, (&r,), told),
    ensures
        r@.packets.len() == 0,
        window_seconds >= 1 ==> r@.window_ns == window_seconds * 1_000_000_000,
        window_seconds == 0 ==> r@.window_ns == 1_000_000_000,
        window_seconds >= 1 ==> told == window_seconds,
        window_seconds == 0 ==> told == 1,
        r@.max_packets >= 64,
        window_seconds >= 1 && approx_fps >= 1 && 32 <= window_seconds * approx_fps && 2 * (
        window_seconds * approx_fps) <= u32::MAX ==> r@.max_packets == 2 * (window_seconds
            * approx_fps),
        window_seconds >= 1 && approx_fps >= 1 && window_seconds * approx_fps < 32
            ==> r@.max_packets == 64,
        window_seconds >= 1 && approx_fps >= 1 && 2 * (window_seconds * approx_fps) > u32::MAX
            ==> r@.max_packets == u32::MAX,
{
    assert(window_seconds >= 1 ==> told == window_seconds) by {
        assert(told * 1_000_000_000 == r@.window_ns);
    }
}

/// Pushing a packet leaves, in order, exactly those packets that are no older than the
/// window before it, the last ones where they are too many. The bounds stay.
pub proof fn law_push_keeps_the_window(b: &mut ClipBuffer, p: EncodedPacket)
    requires
        old(b)@.wf(),
        call_ensures(ClipBuffer::push, (b, p), ()),
    ensures
        ({
            let all = old(b)@.packets.push(p@);
            let young = all.filter(|q: PacketView| p.pts_ns - q.pts_ns <= old(b)@.window_ns);
            &&& young.len() > 0
            &&& young.len() <= old(b)@.max_packets ==> final(b)@.packets == young
            &&& young.len() > old(b)@.max_packets ==> final(b)@.packets == young.skip(
                young.len() - old(b)@.max_packets,
            )
        }),
        final(b)@.packets.len() > 0,
        final(b)@.packets.last() == p@,
        final(b)@.window_ns == old(b)@.window_ns,
        final(b)@.max_packets == old(b)@.max_packets,
{
    let all = old(b)@.packets.push(p@);
    let w = old(b)@.window_ns;
    lemma_evicted(all, w, old(b)@.max_packets);
    assert(all.last() == p@);
    let mine = |q: PacketView| p.pts_ns - q.pts_ns <= w;
    let theirs = |q: PacketView| age_of(p.pts_ns, q.pts_ns) <= w;
    assert forall|q: PacketView| #[trigger] mine(q) == theirs(q) by {}
    lemma_filters_agree(all, mine, theirs);
    assert(young(all, p.pts_ns, w) == all.filter(theirs));
}

proof fn lemma_filters_agree(
    s: Seq<PacketView>,
    a: spec_fn(PacketView) -> bool,
    b: spec_fn(PacketView) -> bool,
)
    requires
        forall|q: PacketView| #[trigger] a(q) == b(q),
    ensures
        s.filter(a) == s.filter(b),
    decreases s.len(),
{
    reveal(Seq::filter);
    if s.len() > 0 {
        lemma_filters_agree(s.drop_last(), a, b);
        assert(a(s.last()) == b(s.last()));
    }
}

/// The length is the number of packets, and the buffered time is from the first packet to
/// the last; none where the last is not the later one.
pub proof fn law_buffer_measures(b: ClipBuffer, n: usize, empty: bool, span: u64)
    requires
        call_ensures(ClipBuffer::len, (&b,), n),
        call_ensures(ClipBuffer::is_empty, (&b,), empty),
        call_ensures(ClipBuffer::buffered_duration_ns, (&b,), span),
    ensures
        n == b@.packets.len(),
        empty <==> b@.packets.len() == 0,
        b@.packets.len() == 0 ==> span == 0,
        b@.packets.len() > 0 && b@.packets.last().pts_ns >= b@.packets[0].pts_ns ==> span
            == b@.packets.last().pts_ns - b@.packets[0].pts_ns,
        b@.packets.len() > 0 && b@.packets.last().pts_ns < b@.packets[0].pts_ns ==> span == 0,
{
}

/// A snapshot is the end of what is buffered, from the first keyframe on, or all of it
/// where there is none.
pub proof fn law_snapshot_is_the_end_from_a_keyframe(b: ClipBuffer, r: Vec<EncodedPacket>)
    requires
        call_ensures(ClipBuffer::snapshot, (&b,), r),
    ensures
        ({
            let cut = b@.packets.len() - r@.len();
            &&& 0 <= cut
            &&& forall|i: int|
                0 <= i < r@.len() ==> (#[trigger] r@[i]).data@ == b@.packets[cut + i].data
                    && r@[i].pts_ns == b@.packets[cut + i].pts_ns && r@[i].dts_ns == b@.packets[cut
                    + i].dts_ns && r@[i].is_keyframe == b@.packets[cut + i].is_keyframe
                    && r@[i].track == b@.packets[cut + i].track
            &&& forall|i: int| 0 <= i < cut ==> !(#[trigger] b@.packets[i]).is_keyframe
            &&& (exists|i: int| 0 <= i < b@.packets.len() && (#[trigger] b@.packets[i]).is_keyframe)
                ==> r@.len() > 0 && r@[0].is_keyframe
            &&& (forall|i: int| 0 <= i < b@.packets.len() ==> !(#[trigger] b@.packets[i]).is_keyframe)
                ==> cut == 0
        }),
{
    let p = b@.packets;
    law_snapshot_starts_on_keyframe(p);
    let views = crate::media::packet_views(r@);
    lemma_first_keyframe_in_range(p);
    assert(views.len() == r@.len());
    let cut = p.len() - r@.len();
    let k = first_keyframe(p);
    assert(views == from_keyframe(p));
    assert(cut == (if k < p.len() { k } else { 0 }));
    assert forall|i: int| 0 <= i < r@.len() implies (#[trigger] r@[i])@ == p[cut + i] by {
        assert(views[i] == r@[i]@);
        assert(views[i] == p[cut + i]);
    }
    if k < p.len() {
        assert(r@[0]@ == p[k]);
    }
    assert forall|i: int| 0 <= i < r@.len() implies (#[trigger] r@[i]).data@ == p[cut + i].data
        && r@[i].pts_ns == p[cut + i].pts_ns && r@[i].dts_ns == p[cut + i].dts_ns
        && r@[i].is_keyframe == p[cut + i].is_keyframe && r@[i].track == p[cut + i].track by {
        assert(r@[i]@ == p[cut + i]);
    }
}

proof fn lemma_first_keyframe_in_range(p: Seq<PacketView>)
    ensures
        0 <= first_keyframe(p) <= p.len(),
        first_keyframe(p) < p.len() ==> p[first_keyframe(p)].is_keyframe,
        forall|i: int| 0 <= i < first_keyframe(p) ==> !(#[trigger] p[i]).is_keyframe,
    decreases p.len(),
{
    if p.len() > 0 && !p[0].is_keyframe {
        lemma_first_keyframe_in_range(p.skip(1));
        assert forall|i: int| 0 <= i < first_keyframe(p) implies !(#[trigger] p[i]).is_keyframe by {
            if i > 0 {
                assert(p.skip(1)[i - 1] == p[i]);
            }
        }
    }
}

/// Clearing takes every packet and keeps the bounds.
pub proof fn law_clear_takes_every_packet(b: &mut ClipBuffer)
    requires
        call_ensures(ClipBuffer::clear, (b,), ()),
    ensures
        final(b)@.packets.len() == 0,
        final(b)@.window_ns == old(b)@.window_ns,
        final(b)@.max_packets == old(b)@.max_packets,
{
}

/// Packets that are pushed one after the other make up one sequence.
pub proof fn law_pushes_add_up(b: &mut ClipBuffer, start: Ring, packets: Seq<PacketView>, p: EncodedPacket)
    requires
        call_ensures(ClipBuffer::push, (b, p), ()),
        old(b)@ == start.pushed_all(packets),
    ensures
        final(b)@ == start.pushed_all(packets.push(p@)),
        start.pushed_all(Seq::empty()) == start,
{
    assert(packets.push(p@).drop_last() =~= packets);
}

/// What is left of packets in time order after they were pushed into an empty ring: `gone`
/// of them have left at the front, and they are exactly those that are older than the
/// window before the newest, or too many.
pub proof fn law_ring_in_time_order(ring: Ring, packets: Seq<PacketView>)
    requires
        ring.wf(),
        ring.packets.len() == 0,
        packets.len() > 0,
        forall|i: int, j: int|
            0 <= i <= j < packets.len() ==> (#[trigger] packets[i]).pts_ns <= (
            #[trigger] packets[j]).pts_ns,
    ensures
        ({
            let kept = ring.pushed_all(packets).packets;
            let gone = packets.len() - kept.len();
            &&& 0 <= gone < packets.len()
            &&& kept == packets.skip(gone)
            &&& forall|i: int|
                0 <= i < packets.len() ==> (gone <= i <==> packets.last().pts_ns - (
                #[trigger] packets[i]).pts_ns <= ring.window_ns && packets.len() - i
                    <= ring.max_packets)
        }),
{
    law_ring_holds_the_last_window(ring, packets);
    assert(in_time_order(packets));
    let kept = ring.pushed_all(packets).packets;
    let gone = packets.len() - kept.len();
    assert forall|i: int| 0 <= i < packets.len() implies (gone <= i <==> packets.last().pts_ns - (
    #[trigger] packets[i]).pts_ns <= ring.window_ns && packets.len() - i <= ring.max_packets) by {
        assert(gone <= i <==> !is_stale(packets, i, ring.window_ns, ring.max_packets));
        assert(packets[packets.len() - 1] == packets.last());
    }
}

/// A buffer for no seconds or no frames is one for one of them.
pub proof fn law_new_buffer_is_for_something(
    window_seconds: u32,
    approx_fps: u32,
    r: ClipBuffer,
    s: ClipBuffer,
)
    requires
        call_ensures(ClipBuffer::new, (window_seconds, approx_fps), r),
        call_ensures(
            ClipBuffer::new,
            (
                if window_seconds == 0 { 1u32 } else { window_seconds },
                if approx_fps == 0 { 1u32 } else { approx_fps },
            ),
            s,
        ),
    ensures
        r@.window_ns == s@.window_ns,
        r@.max_packets == s@.max_packets,
{
}

} // verus!
