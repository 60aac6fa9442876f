use std::time::Instant;

use ratatui_guardian::{
    BudgetViolation, Duration, FrameBudget, PerWidgetStats, RenderProfiler, WasteCategory,
    WasteDetector,
};

/// Keeps the processor busy for that many milliseconds.
fn spin(millis: u64) {
    let start = Instant::now();
    while start.elapsed() < std::time::Duration::from_millis(millis) {}
}

fn ms(millis: u64) -> Duration {
    Duration::from_millis(millis)
}

/// One frame with one widget, which takes `millis` milliseconds from `start` on.
fn frame(p: &mut RenderProfiler, start: u64, name: &str, millis: u64, cells: usize) {
    p.begin_frame_at(ms(start));
    p.begin_widget_at(name, ms(start));
    p.end_widget_at(cells, ms(start + millis));
    p.end_frame_at(ms(start + 100));
}

#[test]
fn basic_profiling_cycle() {
    let mut p = RenderProfiler::new(FrameBudget::for_60fps());

    p.begin_frame();
    p.begin_widget("Header");
    spin(1);
    p.end_widget(200);
    p.begin_widget("Body");
    spin(1);
    p.end_widget(2000);
    let total = p.end_frame();

    assert!(total >= Duration::from_millis(2));
    assert_eq!(p.last_frame(), 1);

    let stats = p.widget_stats();
    assert_eq!(stats.len(), 2);
    assert!(stats.get("Header").unwrap().render_count == 1);
    assert!(stats.get("Body").unwrap().last_cells == 2000);
    assert!(stats.get("Header").unwrap().total_time >= Duration::from_millis(1));
}

#[test]
fn detects_over_budget() {
    let budget = FrameBudget::new(Duration::from_millis(1), 10_000, 5);
    let mut p = RenderProfiler::new(budget);

    p.begin_frame();
    p.begin_widget("SlowWidget");
    spin(5);
    p.end_widget(100);
    p.end_frame();

    assert!(!p.last_violations().is_empty());
}

#[test]
fn full_redraw_detection() {
    let mut p = RenderProfiler::new(FrameBudget::for_60fps());

    // Frame 1: widget writes 100 cells
    p.begin_frame();
    p.begin_widget("Status");
    p.end_widget(100);
    p.end_frame();

    // Frame 2: same widget writes 200 cells (100% change, a full redraw)
    p.begin_frame();
    p.begin_widget("Status");
    p.end_widget(200);
    p.end_frame();

    let stats = p.widget_stats().get("Status").unwrap();
    assert!(stats.last_was_full_redraw);
}

#[test]
fn new_profiler_is_empty() {
    let p = RenderProfiler::new(FrameBudget::for_30fps());
    assert_eq!(p.budget().max_render_time, ms(33));
    assert_eq!(p.budget().max_diff_cells, 10_000);
    assert_eq!(p.budget().max_widget_depth, 5);
    assert_eq!(p.last_frame(), 0);
    assert_eq!(p.last_frame_time(), None);
    assert!(p.last_violations().is_empty());
    assert!(p.last_findings().is_empty());
    assert_eq!(p.last_frame_total_cells(), 0);
    assert_eq!(p.widget_stats().len(), 0);
}

#[test]
fn end_widget_without_begin_is_ignored() {
    let mut p = RenderProfiler::new(FrameBudget::for_60fps());
    p.begin_frame_at(ms(0));
    p.end_widget_at(100, ms(1));
    p.end_frame_at(ms(2));
    assert_eq!(p.last_frame_total_cells(), 0);
    assert_eq!(p.widget_stats().len(), 0);
}

#[test]
fn end_frame_without_begin_takes_no_time() {
    let mut p = RenderProfiler::new(FrameBudget::for_60fps());
    assert_eq!(p.end_frame_at(ms(50)), Duration::zero());
    assert_eq!(p.last_frame(), 0);
    assert_eq!(p.last_frame_time(), Some(Duration::zero()));
}

#[test]
fn stats_accumulate() {
    let mut p = RenderProfiler::new(FrameBudget::for_60fps());
    frame(&mut p, 0, "A", 4, 10);
    frame(&mut p, 100, "A", 9, 14);
    frame(&mut p, 200, "A", 2, 22);
    frame(&mut p, 300, "B", 1, 5);
    let a = p.widget_stats().get("A").unwrap();
    assert_eq!(a.name, "A");
    assert_eq!(a.total_time, ms(15));
    assert_eq!(a.render_count, 3);
    assert_eq!(a.last_cells, 22);
    assert_eq!(a.prev_cells, 14);
    assert_eq!(a.peak_time, ms(9));
    assert_eq!(a.avg_time(), ms(5));
    assert!(a.last_was_full_redraw);
    assert_eq!(p.widget_stats().get("B").unwrap().render_count, 1);
    assert!(p.widget_stats().get("C").is_none());
    assert_eq!(p.last_frame(), 4);
    assert_eq!(p.last_frame_time(), Some(ms(100)));
    assert_eq!(p.last_frame_total_cells(), 5);
}

#[test]
fn full_redraw_needs_more_than_half() {
    let mut p = RenderProfiler::new(FrameBudget::for_60fps());
    let mut redraw = |cells: usize| {
        frame(&mut p, 0, "A", 0, cells);
        p.widget_stats().get("A").unwrap().last_was_full_redraw
    };
    assert!(!redraw(101));
    assert!(!redraw(151));
    assert!(redraw(75));
    assert!(!redraw(38));
    assert!(!redraw(38));
    assert!(redraw(0));
    assert!(!redraw(0));
    assert!(redraw(1));
    assert!(redraw(usize::MAX));
}

#[test]
fn average_of_no_renders_is_zero() {
    let s = PerWidgetStats::fresh("A".to_string());
    assert_eq!(s.avg_time(), Duration::zero());
}

#[test]
fn average_is_rounded_down_and_takes_any_count() {
    let mut s = PerWidgetStats::fresh("A".to_string());
    s.total_time = Duration::from_nanos(11);
    s.render_count = 4;
    assert_eq!(s.avg_time(), Duration::from_nanos(2));
    s.total_time = Duration::new(4_294_967_296, 0);
    s.render_count = 4_294_967_296;
    assert_eq!(s.avg_time(), Duration::new(1, 0));
}

#[test]
fn total_time_is_cut_off_at_the_longest_span() {
    let longest = Duration::new(u64::MAX, 999_999_999);
    let mut s = PerWidgetStats::fresh("A".to_string());
    s.record(1, longest, 1, 1);
    s.record(2, ms(1), 1, 1);
    assert_eq!(s.total_time, longest);
    assert_eq!(s.render_count, 2);
}

#[test]
fn nested_widgets_are_timed_each() {
    let mut p = RenderProfiler::new(FrameBudget::for_60fps());
    p.begin_frame_at(ms(0));
    p.begin_widget_at("Outer", ms(1));
    p.begin_widget_at("Inner", ms(3));
    p.end_widget_at(7, ms(4));
    p.end_widget_at(9, ms(10));
    let total = p.end_frame_at(ms(12));
    assert_eq!(total, ms(12));
    assert_eq!(p.widget_stats().get("Inner").unwrap().total_time, ms(1));
    assert_eq!(p.widget_stats().get("Outer").unwrap().total_time, ms(9));
    assert_eq!(p.last_frame_total_cells(), 16);
}

#[test]
fn violations_of_every_limit() {
    let mut p = RenderProfiler::new(FrameBudget::new(ms(10), 100, 1));
    p.begin_frame_at(ms(0));
    p.begin_widget_at("Outer", ms(0));
    p.begin_widget_at("Inner", ms(0));
    p.end_widget_at(100, ms(1));
    p.end_widget_at(1, ms(1));
    p.end_frame_at(ms(11));
    assert_eq!(
        p.last_violations().to_vec(),
        vec![
            BudgetViolation::OverTime { actual: ms(11), budget: ms(10) },
            BudgetViolation::DiffTooLarge { cells: 101, limit: 100 },
            BudgetViolation::DepthTooDeep { depth: 2, limit: 1 },
        ]
    );

    p.begin_frame_at(ms(20));
    p.begin_widget_at("Outer", ms(20));
    p.end_widget_at(100, ms(21));
    p.end_frame_at(ms(30));
    assert!(p.last_violations().is_empty());
}

#[test]
fn single_checks() {
    let b = FrameBudget::new(ms(10), 100, 3);
    assert_eq!(b.check_time(ms(10)), None);
    assert_eq!(
        b.check_time(ms(11)),
        Some(BudgetViolation::OverTime { actual: ms(11), budget: ms(10) })
    );
    assert_eq!(b.check_diff(100), None);
    assert_eq!(b.check_diff(101), Some(BudgetViolation::DiffTooLarge { cells: 101, limit: 100 }));
    assert_eq!(b.check_depth(3), None);
    assert_eq!(b.check_depth(4), Some(BudgetViolation::DepthTooDeep { depth: 4, limit: 3 }));
    assert_eq!(FrameBudget::for_60fps().max_render_time, ms(16));
}

#[test]
fn deepest_nesting_is_reported_once() {
    let mut p = RenderProfiler::new(FrameBudget::for_60fps());
    p.begin_frame_at(ms(0));
    for _ in 0..7 {
        p.begin_widget_at("Level", ms(0));
    }
    for _ in 0..7 {
        p.end_widget_at(1, ms(1));
    }
    p.end_frame_at(ms(2));
    assert_eq!(
        p.last_violations().to_vec(),
        vec![BudgetViolation::DepthTooDeep { depth: 7, limit: 5 }]
    );
    assert_eq!(p.last_findings().len(), 1);
    assert_eq!(
        p.last_findings()[0].category,
        WasteCategory::DeepNesting { depth: 7, limit: 5 }
    );
}

#[test]
fn deep_nesting_is_found() {
    let mut p = RenderProfiler::new(FrameBudget::for_60fps());
    p.begin_frame();
    for name in ["a", "b", "c", "d", "e", "f"] {
        p.begin_widget(name);
    }
    for _ in 0..6 {
        p.end_widget(1);
    }
    p.end_frame();
    let deep = |p: &RenderProfiler| {
        p.last_findings()
            .iter()
            .filter(|f| f.category == WasteCategory::DeepNesting { depth: 6, limit: 5 })
            .count()
    };
    assert_eq!(deep(&p), 1);
    assert_eq!(p.widget_stats().get("f").unwrap().last_frame_depth, 6);
    assert_eq!(p.widget_stats().get("f").unwrap().last_frame, 1);
    assert_eq!(p.widget_stats().get("a").unwrap().last_frame_depth, 1);

    // The next frame is flat.
    p.begin_frame();
    p.begin_widget("f");
    p.end_widget(1);
    p.end_frame();
    assert_eq!(deep(&p), 0);
    assert_eq!(p.widget_stats().get("f").unwrap().last_frame_depth, 1);
}

#[test]
fn reading_the_clock_or_being_handed_a_reading() {
    let mut read = RenderProfiler::new(FrameBudget::for_60fps());
    let mut handed = RenderProfiler::new(FrameBudget::for_60fps());
    for cells in [100, 200, 40] {
        read.begin_frame();
        read.begin_widget("A");
        read.end_widget(cells);
        read.end_frame();
        handed.begin_frame_at(ms(0));
        handed.begin_widget_at("A", ms(0));
        handed.end_widget_at(cells, ms(0));
        handed.end_frame_at(ms(0));
    }
    let a = read.widget_stats().get("A").unwrap();
    let b = handed.widget_stats().get("A").unwrap();
    assert_eq!(a.render_count, b.render_count);
    assert_eq!(a.last_cells, b.last_cells);
    assert_eq!(a.prev_cells, b.prev_cells);
    assert_eq!(a.last_was_full_redraw, b.last_was_full_redraw);
    assert_eq!(read.last_frame(), handed.last_frame());
    assert_eq!(read.last_frame_total_cells(), handed.last_frame_total_cells());
}

#[test]
fn first_render_has_nothing_before_it() {
    let mut p = RenderProfiler::new(FrameBudget::for_60fps());
    frame(&mut p, 0, "A", 3, 1000);
    let a = p.widget_stats().get("A").unwrap();
    assert_eq!(a.render_count, 1);
    assert_eq!(a.prev_cells, 0);
    assert!(!a.last_was_full_redraw);
    assert_eq!(a.peak_time, ms(3));
    assert_eq!(a.total_time, ms(3));
}

#[test]
fn widgets_begun_earlier_do_not_count_as_begun() {
    let mut p = RenderProfiler::new(FrameBudget::for_60fps());
    p.begin_frame_at(ms(0));
    for _ in 0..6 {
        p.begin_widget_at("Level", ms(0));
    }
    p.begin_frame_at(ms(1));
    for _ in 0..6 {
        p.end_widget_at(1, ms(1));
    }
    p.end_frame_at(ms(2));
    assert!(p.last_violations().is_empty());
    assert!(p
        .last_findings()
        .iter()
        .any(|f| f.category == WasteCategory::DeepNesting { depth: 6, limit: 5 }));
}

#[test]
fn deep_nesting_is_found_before_it_ends() {
    let mut p = RenderProfiler::new(FrameBudget::for_60fps());
    p.begin_frame_at(ms(0));
    for _ in 0..6 {
        p.begin_widget_at("Level", ms(0));
    }
    p.end_frame_at(ms(1));
    assert_eq!(p.last_findings().len(), 1);
    assert_eq!(
        p.last_findings()[0].category,
        WasteCategory::DeepNesting { depth: 6, limit: 5 }
    );
}

#[test]
fn findings_are_those_of_the_detector() {
    let mut p = RenderProfiler::new(FrameBudget::for_60fps());
    p.begin_frame_at(ms(0));
    for _ in 0..6 {
        p.begin_widget_at("Level", ms(0));
    }
    let mut widgets = Vec::new();
    for i in 0..6 {
        p.end_widget_at(1, ms(i + 1));
        widgets.push(("Level".to_string(), ms(i + 1), 1));
    }
    let total = p.end_frame_at(ms(6));
    let found = WasteDetector::new().detect(
        p.last_frame(),
        total,
        &widgets,
        p.widget_stats(),
        p.budget(),
    );
    assert_eq!(found.len(), 4);
    assert_eq!(found.len(), p.last_findings().len());
    for (a, b) in found.iter().zip(p.last_findings()) {
        assert_eq!(a.frame, b.frame);
        assert_eq!(a.category, b.category);
        assert_eq!(a.severity, b.severity);
    }
}

#[test]
fn ending_a_frame_twice_does_not_reset_it() {
    let mut p = RenderProfiler::new(FrameBudget::for_60fps());
    p.begin_frame();
    p.begin_widget("A");
    p.end_widget(7);
    let first = p.end_frame();
    let second = p.end_frame();
    assert!(second >= first);
    assert_eq!(p.last_frame(), 1);
    assert_eq!(p.last_frame_total_cells(), 7);
    assert_eq!(p.widget_stats().get("A").unwrap().render_count, 1);
    assert_eq!(p.last_frame_time(), Some(second));
}

#[test]
fn widgets_end_innermost_first() {
    let mut p = RenderProfiler::new(FrameBudget::for_60fps());
    p.begin_frame_at(ms(0));
    p.begin_widget_at("Same", ms(0));
    p.begin_widget_at("Other", ms(0));
    p.begin_widget_at("Same", ms(0));
    p.end_widget_at(1, ms(1));
    assert_eq!(p.widget_stats().get("Same").unwrap().last_cells, 1);
    p.end_widget_at(2, ms(2));
    assert_eq!(p.widget_stats().get("Other").unwrap().last_cells, 2);
    p.end_widget_at(3, ms(3));
    let same = p.widget_stats().get("Same").unwrap();
    assert_eq!(same.last_cells, 3);
    assert_eq!(same.prev_cells, 1);
    assert_eq!(same.last_frame_depth, 3);
}

#[test]
fn widget_names_are_those_with_stats() {
    let mut p = RenderProfiler::new(FrameBudget::for_60fps());
    assert!(p.widget_names().is_empty());
    for name in ["B", "A", "B", "C", "A"] {
        frame(&mut p, 0, name, 1, 1);
    }
    p.begin_widget_at("Open", ms(0));
    assert_eq!(p.widget_names().to_vec(), vec!["B", "A", "C"]);
    assert_eq!(p.widget_stats().len(), 3);
    for name in p.widget_names() {
        assert_eq!(&p.widget_stats().get(name).unwrap().name, name);
    }
}

#[test]
fn slow_once_is_fine_three_times_is_not() {
    let mut p = RenderProfiler::new(FrameBudget::for_60fps());
    let mut suspected = |name: &str| {
        // 5 milliseconds for 100 cells: 50 microseconds each.
        frame(&mut p, 0, name, 5, 100);
        p.last_findings()
            .iter()
            .any(|f| matches!(f.category, WasteCategory::SuspectedAllocation { .. }))
    };
    assert!(!suspected("A"));
    assert!(!suspected("A"));
    assert!(suspected("A"));
    assert!(suspected("A"));
    // A frame without it breaks the run.
    assert!(!suspected("B"));
    assert!(!suspected("A"));
    assert!(!suspected("A"));
    assert!(suspected("A"));
}

#[test]
fn slow_renders_in_one_frame_count_once() {
    let mut p = RenderProfiler::new(FrameBudget::for_60fps());
    p.begin_frame_at(ms(0));
    for _ in 0..4 {
        p.begin_widget_at("A", ms(0));
        p.end_widget_at(100, ms(5));
    }
    p.end_frame_at(ms(100));
    assert!(p.last_findings().is_empty());
    assert_eq!(p.widget_stats().get("A").unwrap().slow_frames, 1);
}

#[test]
fn widgets_of_earlier_frames_do_not_count() {
    let mut p = RenderProfiler::new(FrameBudget::for_60fps());
    frame(&mut p, 0, "A", 1, 100);
    p.begin_frame_at(ms(100));
    p.end_frame_at(ms(101));
    assert_eq!(p.last_frame_total_cells(), 0);
    assert_eq!(p.last_frame_time(), Some(ms(1)));
    assert_eq!(p.widget_stats().get("A").unwrap().render_count, 1);
}

#[test]
fn history_keeps_working_when_full() {
    let mut p = RenderProfiler::new(FrameBudget::for_60fps());
    for i in 0..300 {
        frame(&mut p, i, "A", 1, i as usize);
        assert_eq!(p.last_frame(), i + 1);
        assert_eq!(p.last_frame_total_cells(), i as usize);
    }
}

#[test]
fn clock_running_backwards_counts_as_no_time() {
    let mut p = RenderProfiler::new(FrameBudget::for_60fps());
    p.begin_frame_at(ms(10));
    p.begin_widget_at("A", ms(10));
    p.end_widget_at(1, ms(9));
    assert_eq!(p.end_frame_at(ms(8)), Duration::zero());
    assert_eq!(p.widget_stats().get("A").unwrap().total_time, Duration::zero());
}

#[test]
fn spans() {
    assert!(ms(2) > ms(1));
    assert_eq!(Duration::new(1, 5).as_nanos(), 1_000_000_005);
    assert_eq!(Duration::new(1, 2_500_000_000), ms(3500));
    assert_eq!(Duration::new(u64::MAX, u32::MAX), Duration::new(u64::MAX, 999_999_999));
    assert_eq!(Duration::from_nanos(1999).as_micros(), 1);
    assert_eq!(Duration::from_nanos(u128::MAX), Duration::new(u64::MAX, 999_999_999));
    assert_eq!(ms(3).saturating_add(ms(4)), ms(7));
    assert_eq!(ms(4).saturating_sub(ms(3)), ms(1));
    assert_eq!(ms(3).saturating_sub(ms(4)), Duration::zero());
    assert!(Duration::zero().is_zero());
    assert!(!ms(1).is_zero());
}

#[test]
fn widgets_take_at_most_the_whole_frame() {
    let mut p = RenderProfiler::new(FrameBudget::for_60fps());
    p.begin_frame_at(ms(5));
    p.begin_widget_at("A", ms(5));
    p.begin_widget_at("B", ms(6));
    p.end_widget_at(10_000, ms(9));
    p.end_widget_at(10_000, ms(10));
    assert_eq!(p.end_frame_at(ms(10)), ms(5));
    assert_eq!(
        p.last_findings()[0].category,
        WasteCategory::Hog { widget: "A".to_string(), fraction_percent: 100 }
    );
    assert_eq!(p.widget_stats().get("A").unwrap().total_time, ms(5));
}
