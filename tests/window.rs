use ct_meter::window::{is_in_settle_band, SampleWindow, WindowPhase, MAX_MV_ATTEN_11};

#[test]
fn settle_band_is_the_middle_tenth() {
    assert_eq!(MAX_MV_ATTEN_11, 2450);
    assert!(!is_in_settle_band(1102));
    assert!(is_in_settle_band(1103));
    assert!(is_in_settle_band(1225));
    assert!(is_in_settle_band(1347));
    assert!(!is_in_settle_band(1348));
    assert!(!is_in_settle_band(0));
    assert!(!is_in_settle_band(u16::MAX));
}

#[test]
fn settle_waits_for_a_mid_scale_sample() {
    let mut w = SampleWindow::new(20);
    w.settle(Some(2000), false);
    assert!(!w.is_settled());
    w.settle(None, false);
    assert!(!w.is_settled());
    assert_eq!(w.state().start_v, 2000);
    w.settle(Some(1200), false);
    assert!(w.is_settled());
    assert_eq!(w.state().start_v, 1200);
}

#[test]
fn settle_gives_up_at_the_timeout() {
    let mut w = SampleWindow::new(20);
    w.settle(Some(0), true);
    assert!(w.is_settled());
    assert_eq!(w.state().phase, WindowPhase::Integrating);
    assert_eq!(w.state().start_v, 0);
}

#[test]
fn sampling_stops_at_target_or_timeout() {
    let mut w = SampleWindow::new(2);
    assert!(!w.keeps_sampling(false));
    w.settle(Some(1200), false);
    assert!(w.keeps_sampling(false));
    assert!(!w.keeps_sampling(true));
    w.take_samples(Some(10), Some(1300));
    assert_eq!(w.state().cross_count, 0);
    w.take_samples(Some(10), Some(1100));
    assert_eq!(w.state().cross_count, 1);
    assert!(w.keeps_sampling(false));
    w.take_samples(Some(10), Some(1250));
    assert_eq!(w.state().cross_count, 2);
    assert!(!w.keeps_sampling(false));
    assert_eq!(w.state().n_samples, 3);
}

#[test]
fn failed_reads_reuse_the_previous_sample() {
    let mut w = SampleWindow::new(10);
    w.settle(Some(1200), false);
    w.take_samples(Some(700), Some(1500));
    w.take_samples(None, None);
    let s = w.state();
    assert_eq!(s.sample_i, 700);
    assert_eq!(s.sample_v, 1500);
    assert_eq!(s.n_samples, 2);
    assert_eq!(s.cross_count, 0);
    w.take_samples(Some(800), None);
    assert_eq!(w.state().sample_i, 800);
    assert_eq!(w.state().sample_v, 1500);
}

#[test]
fn flat_line_never_reaches_target_and_ends_by_timeout() {
    let mut w = SampleWindow::new(20);
    w.settle(Some(0), false);
    assert!(!w.is_settled());
    w.settle(Some(0), true);
    let mut steps = 0;
    while w.keeps_sampling(steps >= 500) {
        w.take_samples(Some(0), Some(0));
        w.track_extremes(true, true);
        steps += 1;
    }
    let s = w.state();
    assert_eq!(s.n_samples, 500);
    assert_eq!(s.cross_count, 0);
    assert_eq!(w.extremes_sum_v(), 0);
    assert_eq!(w.extremes_sum_i(), 0);
}

#[test]
fn extremes_follow_only_quiet_samples() {
    let mut w = SampleWindow::new(10);
    w.settle(Some(1200), false);
    assert_eq!(w.extremes_sum_i(), 2450);
    w.take_samples(Some(1000), Some(1300));
    w.track_extremes(true, true);
    w.take_samples(Some(2400), Some(100));
    w.track_extremes(false, false);
    w.take_samples(Some(1100), Some(1400));
    w.track_extremes(true, false);
    let s = w.state();
    assert_eq!((s.min_i, s.max_i), (1000, 1100));
    assert_eq!((s.min_v, s.max_v), (1300, 1300));
    assert_eq!(w.extremes_sum_i(), 2100);
    assert_eq!(w.extremes_sum_v(), 2600);
}
