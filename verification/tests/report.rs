use ratatui_guardian::{Duration, FrameBudget, RenderProfiler};

fn us(micros: u128) -> Duration {
    Duration::from_nanos(micros * 1000)
}

#[test]
fn report_of_nothing() {
    let p = RenderProfiler::new(FrameBudget::for_60fps());
    assert_eq!(p.report().render(), "No frames recorded");
}

#[test]
fn report_on_a_hog() {
    let mut p = RenderProfiler::new(FrameBudget::new(us(16_000), 2000, 5));
    for _ in 0..847 {
        p.begin_frame_at(us(0));
    }
    p.begin_widget_at("StatusBar", us(0));
    p.end_widget_at(80, us(8_000));
    p.begin_widget_at("Body", us(8_000));
    p.end_widget_at(2000, us(11_000));
    p.end_frame_at(us(12_000));
    assert_eq!(
        p.report().render(),
        "Frame 847: 12.0ms total (⚠ OVER BUDGET, budget: 16ms) 2080 cells
  StatusBar: 8.0ms (67%) for 80 cells — HOG
  Body: 3.0ms (25%) for 2000 cells
  1 findings: 0 critical, 1 warnings, 0 hints
    [warning] StatusBar consumed 67% of frame time"
    );
}

#[test]
fn report_on_a_quiet_frame() {
    let mut p = RenderProfiler::new(FrameBudget::for_30fps());
    p.begin_frame_at(us(0));
    p.begin_widget_at("A", us(0));
    p.end_widget_at(3, us(149));
    p.end_frame_at(us(9_950));
    assert_eq!(
        p.report().render(),
        "Frame 1: 10.0ms total (budget: 33ms) 3 cells\n  A: 0.1ms (1%) for 3 cells"
    );
}

#[test]
fn report_lists_every_finding() {
    let mut p = RenderProfiler::new(FrameBudget::new(us(1_000_000), 1_000_000, 0));
    p.begin_frame_at(us(0));
    p.begin_widget_at("A", us(0));
    p.end_widget_at(0, us(90));
    p.end_frame_at(us(100));
    let text = p.report().render();
    assert!(text.contains("\n  2 findings: 1 critical, 0 warnings, 1 hints\n"));
    assert!(text.contains("\n    [CRITICAL] A consumed 90% of frame time\n"));
    assert!(text.ends_with("\n    [hint] layout nested 1 levels deep (limit: 0)"));
}
