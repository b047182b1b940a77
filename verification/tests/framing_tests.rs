use stoilib::error::StoiError;
use stoilib::framing::{
    check_segments, frame_count, frame_starts, kept_indices, mask_count, ola_offsets,
    ola_total_len, segment_count, select_frames, FrameRole,
};

#[test]
fn frame_count_of_one_second() {
    // 10000 samples at the analysis rate: 1 + (10000 - 256 - 1) / 128 frames.
    assert_eq!(frame_count(10000), Ok(77));
}

#[test]
fn frame_count_requires_more_than_one_frame() {
    assert_eq!(frame_count(0), Err(StoiError::SignalTooShort));
    assert_eq!(frame_count(255), Err(StoiError::SignalTooShort));
    assert_eq!(frame_count(256), Err(StoiError::SignalTooShort));
    assert_eq!(frame_count(257), Ok(1));
}

#[test]
fn frame_starts_rejects_short_signals() {
    assert_eq!(frame_starts(256), Err(StoiError::SignalTooShort));
    assert_eq!(frame_starts(257).unwrap(), vec![0]);
}

#[test]
fn frame_starts_step_by_the_hop() {
    let starts = frame_starts(1000).unwrap();
    assert_eq!(starts, vec![0, 128, 256, 384, 512, 640]);
    for &s in &starts {
        assert!(s + 256 <= 1000);
    }
}

#[test]
fn select_frames_assigns_window_roles() {
    let mask = vec![true, false, true, true];
    let (roles, kept) = select_frames(&mask);
    assert_eq!(
        roles,
        vec![FrameRole::Leading, FrameRole::Silent, FrameRole::Interior, FrameRole::Trimmed]
    );
    assert_eq!(kept, 2);
}

#[test]
fn select_frames_trims_the_last_kept_frame() {
    let mask = vec![true, true];
    let (roles, kept) = select_frames(&mask);
    assert_eq!(roles, vec![FrameRole::Leading, FrameRole::Trimmed]);
    assert_eq!(kept, 1);
}

#[test]
fn select_frames_with_a_single_survivor() {
    // One frame above the threshold is both the first and the last kept
    // frame; the trim rule discards it and nothing is scored.
    let mask = vec![false, true, false];
    let (roles, kept) = select_frames(&mask);
    assert_eq!(roles, vec![FrameRole::Silent, FrameRole::Trimmed, FrameRole::Silent]);
    assert_eq!(kept, 0);
}

#[test]
fn select_frames_all_silent() {
    let mask = vec![false, false];
    let (roles, kept) = select_frames(&mask);
    assert_eq!(roles, vec![FrameRole::Silent, FrameRole::Silent]);
    assert_eq!(kept, 0);
}

#[test]
fn kept_indices_list_the_set_positions() {
    assert_eq!(kept_indices(&vec![true, false, true, true, false]), vec![0, 2, 3]);
    assert_eq!(kept_indices(&vec![false, false]), vec![]);
    assert_eq!(kept_indices(&vec![]), vec![]);
}

#[test]
fn mask_count_counts_set_entries() {
    assert_eq!(mask_count(&vec![]), 0);
    assert_eq!(mask_count(&vec![true, false, true, true, false]), 3);
}

#[test]
fn segment_count_slides_a_window_of_thirty() {
    assert_eq!(segment_count(29), 0);
    assert_eq!(segment_count(30), 1);
    assert_eq!(segment_count(100), 71);
}

#[test]
fn check_segments_rejects_too_few_kept_frames() {
    assert_eq!(check_segments(0), Err(StoiError::SignalTooShort));
    assert_eq!(check_segments(29), Err(StoiError::SignalTooShort));
    assert_eq!(check_segments(30), Ok(1));
    assert_eq!(check_segments(76), Ok(47));
}

#[test]
fn overlap_add_layout() {
    assert_eq!(ola_offsets(3, 128), vec![0, 128, 256]);
    assert_eq!(ola_total_len(3, 128, 256), 2 * 128 + 256);
    assert_eq!(ola_total_len(1, 128, 256), 256);
    assert_eq!(ola_offsets(0, 128), vec![]);
    assert_eq!(ola_offsets(4, 64), vec![0, 64, 128, 192]);
}
