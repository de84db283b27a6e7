use torwell84::frame_ring::FrameRing;

#[test]
fn frame_ring_cycles_slots_and_numbers_frames() {
    let mut ring = FrameRing::new(3);
    assert_eq!(ring.slot_count(), 3);
    let (s0, held) = ring.begin_frame();
    assert_eq!((s0, held.is_none()), (0, true));
    let f0 = ring.submit(s0, 10, 20, 1_000);
    assert_eq!((f0.frame_id, f0.triple_depth, f0.frame_interval_ns), (0, 1, 0));
    let (s1, _) = ring.begin_frame();
    let f1 = ring.submit(s1, 11, 21, 1_500);
    assert_eq!((s1, f1.frame_id, f1.triple_depth, f1.frame_interval_ns), (1, 1, 2, 500));
    let (s2, _) = ring.begin_frame();
    let f2 = ring.submit(s2, 12, 22, 1_400);
    assert_eq!((s2, f2.frame_id, f2.triple_depth, f2.frame_interval_ns), (2, 2, 3, 0));
    assert_eq!(ring.in_flight(), 3);

    let (again, held) = ring.begin_frame();
    assert_eq!(again, 0);
    let first = held.expect("slot 0 still held frame 0");
    assert_eq!(first, f0);
    assert_eq!(ring.in_flight(), 2);
    let m0 = ring.finish(first, 700, 5, 42);
    assert_eq!((m0.frame_id, m0.cpu_encode_ns, m0.queue_submit_ns, m0.gpu_time_ns), (0, 10, 20, 700));
    assert_eq!((m0.queue_wait_ns, m0.triple_buffer_depth, m0.dropped_frames, m0.timestamp_ms), (5, 1, 0, 42));
    let f3 = ring.submit(again, 13, 23, 2_000);
    assert_eq!((f3.frame_id, f3.triple_depth, f3.frame_interval_ns), (3, 3, 600));

    let all = ring.take_all();
    let ids: Vec<u64> = all.iter().map(|p| p.frame_id).collect();
    assert_eq!(ids, vec![3, 1, 2]);
    assert_eq!(ring.in_flight(), 0);
    let m3 = ring.finish(all[0], 1, 1, 43);
    assert_eq!(m3.dropped_frames, 2);
    let m1 = ring.finish(all[1], 1, 1, 44);
    assert_eq!(m1.dropped_frames, 0);
}
