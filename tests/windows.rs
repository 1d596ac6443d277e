use particles::window::{ConfigError, Phase, Progress, TimeWindow, Timing};

#[test]
fn window_is_half_open() {
    let w = TimeWindow::new(100, 200).unwrap();
    assert!(w.contains(100));
    assert!(w.contains(199));
    assert!(!w.contains(99));
    assert!(!w.contains(200));
}

#[test]
fn window_progress_is_exact() {
    let w = TimeWindow::new(100, 200).unwrap();
    assert_eq!(w.progress(100), Some(Progress { elapsed_ms: 0, span_ms: 100 }));
    assert_eq!(w.progress(150), Some(Progress { elapsed_ms: 50, span_ms: 100 }));
    assert_eq!(w.progress(199), Some(Progress { elapsed_ms: 99, span_ms: 100 }));
    assert_eq!(w.progress(200), None);
    assert_eq!(w.progress(99), None);
}

#[test]
fn colour_window_endpoints() {
    // A colour transition over [0, 1000): the fraction is 0 at the start and
    // tends to 1 as the cycle nears the end.
    let w = TimeWindow::new(0, 1000).unwrap();
    let start = w.progress(0).unwrap();
    assert_eq!(start.elapsed_ms, 0);
    let near_end = w.progress(999).unwrap();
    let from = [1.0f32, 0.0, 0.0, 1.0];
    let to = [0.0f32, 0.0, 1.0, 1.0];
    let lerp = |p: Progress| -> Vec<f32> {
        let t = p.elapsed_ms as f32 / p.span_ms as f32;
        (0..4).map(|i| from[i] + t * (to[i] - from[i])).collect()
    };
    assert_eq!(lerp(start), from.to_vec());
    let end = lerp(near_end);
    for i in 0..4 {
        assert!((end[i] - to[i]).abs() < 0.01);
    }
}

#[test]
fn empty_window_is_refused() {
    assert_eq!(TimeWindow::new(200, 200), Err(ConfigError::EmptyWindow));
    assert_eq!(TimeWindow::new(300, 200), Err(ConfigError::EmptyWindow));
    assert_eq!(TimeWindow::new(0, 1), Ok(TimeWindow { from_ms: 0, until_ms: 1 }));
}

#[test]
fn timing_phases() {
    let w = TimeWindow::new(10, 20).unwrap();
    assert_eq!(Timing::Always.phase(5), Phase::Active);
    assert_eq!(Timing::Within(w).phase(5), Phase::Idle);
    assert_eq!(
        Timing::Within(w).phase(12),
        Phase::Within(Progress { elapsed_ms: 2, span_ms: 10 })
    );
    assert_eq!(Timing::Within(w).phase(20), Phase::Idle);
}
