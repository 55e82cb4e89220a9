use lib::phys::{deref_frame, get_multiref_count, mark_free, mark_used, ref_frame, PhysFrames};

#[test]
fn fresh_frames_have_no_references() {
    let frames = PhysFrames::new(64, 4);
    assert_eq!(get_multiref_count(&frames, 0), 0);
    assert_eq!(get_multiref_count(&frames, 63), 0);
    assert_eq!(get_multiref_count(&frames, 1000), 0);
}

#[test]
fn ref_frame_raises_count() {
    let mut frames = PhysFrames::new(64, 4);
    ref_frame(&mut frames, 5);
    ref_frame(&mut frames, 5);
    ref_frame(&mut frames, 7);
    assert_eq!(get_multiref_count(&frames, 5), 2);
    assert_eq!(get_multiref_count(&frames, 7), 1);
    assert_eq!(get_multiref_count(&frames, 6), 0);
}

#[test]
fn deref_frame_returns_previous_count() {
    let mut frames = PhysFrames::new(64, 4);
    ref_frame(&mut frames, 3);
    ref_frame(&mut frames, 3);
    assert_eq!(deref_frame(&mut frames, 3), 2);
    assert_eq!(get_multiref_count(&frames, 3), 1);
    assert_eq!(deref_frame(&mut frames, 3), 1);
    assert_eq!(get_multiref_count(&frames, 3), 0);
}

#[test]
fn deref_frame_of_zero_count_stays_zero() {
    let mut frames = PhysFrames::new(64, 4);
    assert_eq!(deref_frame(&mut frames, 9), 0);
    assert_eq!(get_multiref_count(&frames, 9), 0);
    ref_frame(&mut frames, 9);
    assert_eq!(deref_frame(&mut frames, 9), 1);
    assert_eq!(deref_frame(&mut frames, 9), 0);
    assert_eq!(get_multiref_count(&frames, 9), 0);
}

#[test]
fn deref_frame_beyond_capacity_is_zero() {
    let mut frames = PhysFrames::new(8, 1);
    assert_eq!(deref_frame(&mut frames, 100), 0);
}

#[test]
fn deref_undoes_ref() {
    let mut frames = PhysFrames::new(64, 4);
    ref_frame(&mut frames, 11);
    ref_frame(&mut frames, 12);
    let before = get_multiref_count(&frames, 11);
    ref_frame(&mut frames, 11);
    assert_eq!(deref_frame(&mut frames, 11), before + 1);
    assert_eq!(get_multiref_count(&frames, 11), before);
    assert_eq!(get_multiref_count(&frames, 12), 1);
}

#[test]
fn ref_counts_leave_bitmap_alone() {
    let mut frames = PhysFrames::new(64, 4);
    ref_frame(&mut frames, 2);
    assert!(!mark_free(&mut frames, 2));
    mark_used(&mut frames, 2);
    assert_eq!(get_multiref_count(&frames, 2), 1);
}

#[test]
fn mark_free_of_never_used_frame_is_false() {
    let mut frames = PhysFrames::new(64, 4);
    assert!(!mark_free(&mut frames, 0));
    assert!(!mark_free(&mut frames, 127));
    assert!(!mark_free(&mut frames, 100_000));
}

#[test]
fn mark_free_after_mark_used_is_true_once() {
    let mut frames = PhysFrames::new(64, 4);
    mark_used(&mut frames, 37);
    assert!(mark_free(&mut frames, 37));
    assert!(!mark_free(&mut frames, 37));
}

#[test]
fn mark_used_touches_only_that_frame() {
    let mut frames = PhysFrames::new(64, 4);
    mark_used(&mut frames, 33);
    assert!(!mark_free(&mut frames, 32));
    assert!(!mark_free(&mut frames, 34));
    assert!(!mark_free(&mut frames, 1));
    assert!(!mark_free(&mut frames, 65));
    assert!(mark_free(&mut frames, 33));
}

#[test]
fn mark_free_touches_only_that_frame() {
    let mut frames = PhysFrames::new(64, 4);
    for f in [0u64, 1, 31, 32, 63, 64] {
        mark_used(&mut frames, f);
    }
    assert!(mark_free(&mut frames, 31));
    for f in [0u64, 1, 32, 63, 64] {
        assert!(mark_free(&mut frames, f));
    }
    assert!(!mark_free(&mut frames, 31));
}

#[test]
fn mark_used_twice_then_free_once() {
    let mut frames = PhysFrames::new(64, 4);
    mark_used(&mut frames, 100);
    mark_used(&mut frames, 100);
    assert!(mark_free(&mut frames, 100));
    assert!(!mark_free(&mut frames, 100));
}

#[test]
fn last_bit_of_a_word() {
    let mut frames = PhysFrames::new(64, 4);
    mark_used(&mut frames, 127);
    assert!(!mark_free(&mut frames, 126));
    assert!(mark_free(&mut frames, 127));
}

#[test]
fn capacities_are_kept() {
    let frames = PhysFrames::new(4096, 128);
    assert_eq!(frames.count_slots(), 4096);
    assert_eq!(frames.bitmap_words(), 128);
}

#[test]
fn successive_refs_add_up() {
    let mut frames = PhysFrames::new(64, 4);
    ref_frame(&mut frames, 20);
    for _ in 0..10 {
        ref_frame(&mut frames, 21);
    }
    assert_eq!(get_multiref_count(&frames, 21), 10);
    assert_eq!(get_multiref_count(&frames, 20), 1);
}

#[test]
fn frames_past_capacity_read_as_absent() {
    let mut frames = PhysFrames::new(8, 1);
    mark_used(&mut frames, 31);
    assert_eq!(get_multiref_count(&frames, 8), 0);
    assert!(!mark_free(&mut frames, 32));
    assert!(!mark_free(&mut frames, u64::MAX));
    assert!(mark_free(&mut frames, 31));
}
