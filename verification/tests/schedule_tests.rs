use stoilib::schedule::upfirdn_schedule;

/// The reference stepping of the polyphase indices: start at phase
/// `(h_len / 2) % up`, advance the window by `down / up`, subtract
/// `down % up` from the phase and carry one extra input step on wrap.
fn reference_schedule(h_len: usize, x_len: usize, up: usize, down: usize) -> Vec<(usize, usize)> {
    let out_len = x_len * up / down;
    let mut phase = (h_len / 2) % up;
    let phase_step = down % up;
    let x_step = down / up;
    let mut x_start = 0usize;
    let mut r = Vec::new();
    for _ in 0..out_len {
        r.push((x_start, phase));
        x_start += x_step;
        if phase >= phase_step {
            phase -= phase_step;
        } else {
            phase += up - phase_step;
            x_start += 1;
        }
    }
    r
}

fn assert_matches_reference(h_len: usize, x_len: usize, up: usize, down: usize) {
    let got = upfirdn_schedule(h_len, x_len, up, down);
    let want = reference_schedule(h_len, x_len, up, down);
    assert_eq!(got.len(), want.len());
    for (tap, &(xs, ph)) in got.iter().zip(want.iter()) {
        assert_eq!(tap.x_start, xs);
        assert_eq!(tap.phase, ph);
    }
}

#[test]
fn schedule_matches_the_reference_stepping() {
    assert_matches_reference(75, 50, 2, 3);
    assert_matches_reference(75, 50, 3, 2);
    assert_matches_reference(365, 80, 5, 4);
    assert_matches_reference(31947, 441, 100, 441);
}

#[test]
fn schedule_length_is_the_resampled_length() {
    assert_eq!(upfirdn_schedule(75, 50, 2, 3).len(), 33);
    assert_eq!(upfirdn_schedule(365, 8000, 5, 4).len(), 10000);
    assert_eq!(upfirdn_schedule(75, 10, 1, 1).len(), 10);
}

#[test]
fn schedule_for_the_unit_ratio_walks_the_input() {
    let sched = upfirdn_schedule(75, 10, 1, 1);
    for (k, tap) in sched.iter().enumerate() {
        assert_eq!(tap.phase, 0);
        assert_eq!(tap.x_start, k);
    }
}

#[test]
fn schedule_for_pure_downsampling_strides_the_input() {
    // With up == 1 there is a single phase and the window strides by down.
    let sched = upfirdn_schedule(75, 30, 1, 3);
    assert_eq!(sched.len(), 10);
    for (k, tap) in sched.iter().enumerate() {
        assert_eq!(tap.phase, 0);
        assert_eq!(tap.x_start, 3 * k);
    }
}

#[test]
fn schedule_with_an_even_filter_length() {
    assert_matches_reference(74, 40, 3, 5);
    assert_matches_reference(76, 40, 5, 3);
}

#[test]
fn schedule_stays_inside_the_input() {
    for &(h_len, x_len, up, down) in
        &[(75usize, 50usize, 2usize, 3usize), (365, 80, 5, 4), (31947, 441, 100, 441)]
    {
        for tap in upfirdn_schedule(h_len, x_len, up, down).iter() {
            assert!(tap.x_start <= x_len);
            assert!(tap.phase < up);
        }
    }
}
