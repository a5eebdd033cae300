use termtunes::queue::SampleQueue;

#[test]
fn samples_come_out_in_the_order_pushed() {
    let mut q = SampleQueue::new(1);
    q.push_samples(1, &vec![10, 20, 30]);
    q.push_samples(1, &vec![40, 50]);
    let out = q.fill_frames(5);
    assert_eq!(out, vec![10, 20, 30, 40, 50]);
    assert!(q.is_empty());
}

#[test]
fn underrun_fills_with_silence_and_never_fails() {
    let mut q = SampleQueue::new(1);
    q.push_samples(1, &vec![7, 8]);
    let out = q.fill_frames(6);
    assert_eq!(out, vec![7, 8, 0, 0, 0, 0]);
    // an empty queue keeps producing silence
    let more = q.fill_frames(4);
    assert_eq!(more, vec![0, 0, 0, 0]);
}

#[test]
fn partial_drain_keeps_the_rest_in_order() {
    let mut q = SampleQueue::new(9);
    q.push_samples(9, &vec![1, 2, 3, 4, 5]);
    assert_eq!(q.fill_frames(2), vec![1, 2]);
    assert_eq!(q.len(), 3);
    assert_eq!(q.fill_frames(3), vec![3, 4, 5]);
}

#[test]
fn stale_session_cannot_write_or_signal() {
    let mut q = SampleQueue::new(2);
    q.push_samples(1, &vec![99, 98]); // a superseded producer
    assert!(q.is_empty());
    q.mark_done(1);
    assert!(!q.is_done());
    q.push_samples(2, &vec![5]);
    assert_eq!(q.len(), 1);
    q.mark_done(2);
    assert!(q.is_done());
}

#[test]
fn replacing_the_session_keeps_tracks_apart() {
    // session for track A
    let mut qa = SampleQueue::new(1);
    qa.push_samples(1, &vec![11, 12, 13]);

    // play(B) swaps in a fresh queue under a new session token
    let mut qb = SampleQueue::new(2);
    qb.push_samples(2, &vec![21, 22]);

    // A's producer, slow to notice, keeps pushing with its stale token
    qb.push_samples(1, &vec![14, 15]);

    // only B's samples reach the output
    assert_eq!(qb.fill_frames(2), vec![21, 22]);
}

#[test]
fn done_flag_survives_draining() {
    let mut q = SampleQueue::new(3);
    q.push_samples(3, &vec![1]);
    q.mark_done(3);
    assert!(q.is_done());
    q.fill_frames(1);
    assert!(q.is_done());
    assert!(q.is_empty());
}
