use rewind::buffer::ClipBuffer;
use rewind::media::{EncodedPacket, Track};

fn packet(pts_ms: u64, key: bool) -> EncodedPacket {
    EncodedPacket {
        data: vec![0u8; 16],
        pts_ns: pts_ms * 1_000_000,
        dts_ns: None,
        is_keyframe: key,
        track: Track::Video,
    }
}

#[test]
fn evicts_packets_older_than_window() {
    let mut b = ClipBuffer::new(1, 30);
    for i in 0..200u64 {
        b.push(packet(i * 10, i % 30 == 0));
    }
    assert!(b.buffered_duration_ns() <= 1_000_000_000);
    assert!(!b.is_empty());
}

#[test]
fn snapshot_starts_on_keyframe() {
    let mut b = ClipBuffer::new(10, 30);
    b.push(packet(0, false));
    b.push(packet(10, false));
    b.push(packet(20, true));
    b.push(packet(30, false));
    let snap = b.snapshot();
    assert_eq!(snap.len(), 2);
    assert!(snap[0].is_keyframe);
}

#[test]
fn the_ring_keeps_exactly_the_window() {
    let mut b = ClipBuffer::new(1, 30);
    for i in 0..150u64 {
        b.push(packet(i * 20, true));
    }
    // The newest is at 2980 ms; the window reaches back to 1980 ms.
    let snap = b.snapshot();
    assert_eq!(snap.len(), 51);
    assert_eq!(snap[0].pts_ns, 1_980_000_000);
    assert_eq!(snap[50].pts_ns, 2_980_000_000);
    assert_eq!(b.buffered_duration_ns(), 1_000_000_000);
}

#[test]
fn a_late_packet_is_evicted_behind_a_young_one() {
    let mut b = ClipBuffer::new(1, 30);
    b.push(packet(5_000, true));
    b.push(packet(1_000, true));
    assert_eq!(b.len(), 2);
    b.push(packet(5_500, true));
    let stamps: Vec<u64> = b.snapshot().iter().map(|p| p.pts_ns).collect();
    assert_eq!(stamps, vec![5_000_000_000, 5_500_000_000]);
    assert_eq!(b.len(), 2);
}

#[test]
fn the_cap_holds_when_time_stands_still() {
    let mut b = ClipBuffer::new(1, 1);
    for _ in 0..1000u64 {
        b.push(packet(7, true));
    }
    assert_eq!(b.len(), 64);
    let mut wide = ClipBuffer::new(10, 60);
    for _ in 0..5000u64 {
        wide.push(packet(7, true));
    }
    assert_eq!(wide.len(), 1200);
}

#[test]
fn one_packet_always_stays() {
    let mut b = ClipBuffer::new(1, 30);
    b.push(packet(0, true));
    b.push(packet(60_000, false));
    assert_eq!(b.len(), 1);
    assert_eq!(b.snapshot()[0].pts_ns, 60_000_000_000);
}

#[test]
fn a_buffer_without_keyframes_is_taken_whole() {
    let mut b = ClipBuffer::new(10, 30);
    b.push(packet(0, false));
    b.push(packet(10, false));
    assert_eq!(b.snapshot().len(), 2);
}

#[test]
fn zero_seconds_count_as_one() {
    let b = ClipBuffer::new(0, 0);
    assert_eq!(b.window_seconds(), 1);
    assert!(b.is_empty());
    assert_eq!(b.len(), 0);
    assert_eq!(b.buffered_duration_ns(), 0);
    assert!(b.snapshot().is_empty());
}

#[test]
fn clearing_empties_the_buffer() {
    let mut b = ClipBuffer::new(5, 30);
    b.push(packet(0, true));
    b.clear();
    assert!(b.is_empty());
    assert_eq!(b.window_seconds(), 5);
}

#[test]
fn a_step_back_in_time_evicts_nothing() {
    let mut b = ClipBuffer::new(1, 30);
    b.push(packet(5000, true));
    b.push(packet(10, false));
    assert_eq!(b.len(), 2);
    assert_eq!(b.buffered_duration_ns(), 0);
}
