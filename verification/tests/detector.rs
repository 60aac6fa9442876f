use ratatui_guardian::{
    Duration, FrameBudget, PerWidgetStats, Severity, StringHashMap, WasteCategory, WasteDetector,
    WasteFinding,
};

fn stats(name: &str) -> PerWidgetStats {
    PerWidgetStats {
        name: name.to_string(),
        total_time: Duration::from_millis(50),
        render_count: 10,
        last_cells: 80,
        peak_time: Duration::from_millis(10),
        prev_cells: 80,
        last_was_full_redraw: false,
        slow_frames: 0,
        last_slow_frame: 0,
        last_frame: 0,
        last_frame_depth: 0,
    }
}

fn one(name: &str, time: Duration, cells: usize) -> Vec<(String, Duration, usize)> {
    vec![(name.to_string(), time, cells)]
}

fn detect(
    frame: u64,
    frame_time: Duration,
    widgets: &[(String, Duration, usize)],
    known: Vec<PerWidgetStats>,
) -> Vec<WasteFinding> {
    let mut all = StringHashMap::new();
    for s in known {
        all.insert(s.name.clone(), s);
    }
    WasteDetector::new().detect(frame, frame_time, widgets, &all, &FrameBudget::for_60fps())
}

#[test]
fn detects_hog() {
    let detector = WasteDetector::new();
    let budget = FrameBudget::for_60fps();
    let mut stats = StringHashMap::new();
    stats.insert(
        "StatusBar".to_string(),
        PerWidgetStats {
            name: "StatusBar".to_string(),
            total_time: Duration::from_millis(50),
            render_count: 10,
            last_cells: 80,
            peak_time: Duration::from_millis(10),
            prev_cells: 80,
            last_was_full_redraw: false,
            slow_frames: 0,
            last_slow_frame: 0,
            last_frame: 0,
            last_frame_depth: 0,
        },
    );

    let widgets = vec![
        ("StatusBar".to_string(), Duration::from_millis(12), 80),
        ("Body".to_string(), Duration::from_millis(1), 2000),
    ];

    let findings = detector.detect(1, Duration::from_millis(14), &widgets, &stats, &budget);

    let hogs: Vec<_> = findings
        .iter()
        .filter(|f| matches!(f.category, WasteCategory::Hog { .. }))
        .collect();
    assert!(!hogs.is_empty());
    assert!(matches!(hogs[0].severity, Severity::Critical));
    assert_eq!(
        hogs[0].category,
        WasteCategory::Hog { widget: "StatusBar".to_string(), fraction_percent: 86 }
    );
}

#[test]
fn hog_thresholds_are_strict() {
    let ms = Duration::from_millis;
    assert!(detect(1, ms(100), &one("A", ms(60), 0), vec![]).is_empty());
    let over = detect(7, ms(100), &one("A", ms(61), 0), vec![]);
    assert_eq!(over.len(), 1);
    assert_eq!(over[0].frame, 7);
    assert_eq!(over[0].severity, Severity::Warning);
    assert_eq!(
        over[0].category,
        WasteCategory::Hog { widget: "A".to_string(), fraction_percent: 61 }
    );
    assert_eq!(detect(1, ms(100), &one("A", ms(85), 0), vec![])[0].severity, Severity::Warning);
    assert_eq!(detect(1, ms(100), &one("A", ms(86), 0), vec![])[0].severity, Severity::Critical);
}

#[test]
fn hog_percentage_is_the_nearest() {
    let ms = Duration::from_millis;
    let mut widgets = one("StatusBar", ms(8), 80);
    widgets.push(("Body".to_string(), ms(3), 2000));
    let found = detect(847, ms(12), &widgets, vec![]);
    assert_eq!(found.len(), 1);
    assert_eq!(found[0].frame, 847);
    assert_eq!(found[0].severity, Severity::Warning);
    assert_eq!(
        found[0].category,
        WasteCategory::Hog { widget: "StatusBar".to_string(), fraction_percent: 67 }
    );
    let half = detect(1, ms(1000), &one("A", ms(705), 0), vec![]);
    assert_eq!(
        half[0].category,
        WasteCategory::Hog { widget: "A".to_string(), fraction_percent: 71 }
    );
    let less = detect(1, ms(1000), &one("A", ms(704), 0), vec![]);
    assert_eq!(
        less[0].category,
        WasteCategory::Hog { widget: "A".to_string(), fraction_percent: 70 }
    );
}

#[test]
fn no_hog_in_a_frame_without_time() {
    assert!(detect(1, Duration::zero(), &one("A", Duration::from_millis(5), 0), vec![]).is_empty());
}

#[test]
fn huge_hog_percentage_is_cut_off() {
    let longest = Duration::new(u64::MAX, 999_999_999);
    let found = detect(1, Duration::from_nanos(1), &one("A", longest, 0), vec![]);
    assert_eq!(
        found[0].category,
        WasteCategory::Hog { widget: "A".to_string(), fraction_percent: u64::MAX }
    );
}

#[test]
fn detects_full_redraw() {
    let frame = Duration::from_millis(16);
    let tiny = Duration::from_nanos(1);
    let mut s = stats("Body");
    s.last_was_full_redraw = true;
    s.render_count = 4;
    let found = detect(3, frame, &one("Body", tiny, 2000), vec![s.clone()]);
    assert_eq!(found.len(), 1);
    assert_eq!(found[0].severity, Severity::Hint);
    assert_eq!(
        found[0].category,
        WasteCategory::FullRedrawForSmallChange {
            widget: "Body".to_string(),
            cells_written: 2000,
            estimated_needed: 200,
        }
    );
    assert_eq!(
        detect(3, frame, &one("Body", tiny, 5001), vec![s.clone()])[0].severity,
        Severity::Warning
    );
    assert!(detect(3, frame, &one("Body", tiny, 500), vec![s.clone()]).is_empty());
    assert!(detect(3, frame, &one("Other", tiny, 2000), vec![s.clone()]).is_empty());
    s.render_count = 3;
    assert!(detect(3, frame, &one("Body", tiny, 2000), vec![s.clone()]).is_empty());
    s.render_count = 4;
    s.last_was_full_redraw = false;
    assert!(detect(3, frame, &one("Body", tiny, 2000), vec![s]).is_empty());
}

#[test]
fn detects_allocation_after_three_slow_frames() {
    let frame_time = Duration::from_millis(100);
    let mut s = stats("A");
    s.slow_frames = 3;
    s.last_slow_frame = 9;
    // 50 microseconds for each of 100 cells.
    let slow = Duration::from_millis(5);
    let found = detect(9, frame_time, &one("A", slow, 100), vec![s.clone()]);
    assert_eq!(found.len(), 1);
    assert_eq!(found[0].severity, Severity::Hint);
    assert_eq!(
        found[0].category,
        WasteCategory::SuspectedAllocation {
            widget: "A".to_string(),
            render_time_us: 5000,
            cells: 100,
        }
    );
    let almost = Duration::from_nanos(4_999_999);
    assert!(detect(9, frame_time, &one("A", almost, 100), vec![s.clone()]).is_empty());
    assert!(detect(9, frame_time, &one("A", slow, 0), vec![s.clone()]).is_empty());
    assert!(detect(10, frame_time, &one("A", slow, 100), vec![s.clone()]).is_empty());
    assert_eq!(
        detect(9, frame_time, &one("A", Duration::from_millis(20), 100), vec![s.clone()])[0].severity,
        Severity::Hint
    );
    assert_eq!(
        detect(9, frame_time, &one("A", Duration::from_nanos(20_100_000), 100), vec![s.clone()])[0]
            .severity,
        Severity::Warning
    );
    s.slow_frames = 2;
    assert!(detect(9, frame_time, &one("A", slow, 100), vec![s]).is_empty());
}

#[test]
fn detects_deep_nesting_by_widget_count() {
    let mut widgets = Vec::new();
    for _ in 0..10 {
        widgets.push(("A".to_string(), Duration::zero(), 1));
    }
    assert!(detect(2, Duration::zero(), &widgets, vec![]).is_empty());
    widgets.push(("A".to_string(), Duration::zero(), 1));
    let found = detect(2, Duration::zero(), &widgets, vec![]);
    assert_eq!(found.len(), 1);
    assert_eq!(found[0].severity, Severity::Hint);
    assert_eq!(found[0].category, WasteCategory::DeepNesting { depth: 11, limit: 5 });
}

#[test]
fn detects_deep_nesting_by_depth() {
    let mut s = stats("A");
    s.last_frame = 2;
    s.last_frame_depth = 6;
    let deep = WasteCategory::DeepNesting { depth: 6, limit: 5 };
    let found = detect(2, Duration::zero(), &one("A", Duration::zero(), 1), vec![s.clone()]);
    assert_eq!(found.len(), 1);
    assert_eq!(found[0].severity, Severity::Hint);
    assert_eq!(found[0].category, deep);
    assert!(detect(3, Duration::zero(), &one("A", Duration::zero(), 1), vec![s.clone()]).is_empty());
    assert!(detect(2, Duration::zero(), &one("B", Duration::zero(), 1), vec![s.clone()]).is_empty());

    let mut widgets = Vec::new();
    for _ in 0..11 {
        widgets.push(("A".to_string(), Duration::zero(), 1));
    }
    let found = detect(2, Duration::zero(), &widgets, vec![s.clone()]);
    assert_eq!(found.len(), 2);
    assert_eq!(found[0].category, deep);
    assert_eq!(found[1].category, WasteCategory::DeepNesting { depth: 11, limit: 5 });

    s.last_frame_depth = 11;
    assert_eq!(detect(2, Duration::zero(), &widgets, vec![s.clone()]).len(), 1);
    s.last_frame_depth = 5;
    assert!(detect(2, Duration::zero(), &one("A", Duration::zero(), 1), vec![s]).is_empty());
}

#[test]
fn widget_count_and_a_huge_limit() {
    let budget = FrameBudget::new(Duration::zero(), 0, usize::MAX);
    let widgets = one("A", Duration::zero(), 1);
    let all = StringHashMap::new();
    assert!(WasteDetector::new().detect(1, Duration::zero(), &widgets, &all, &budget).is_empty());
}

#[test]
fn huge_render_time_is_cut_off() {
    let longest = Duration::new(u64::MAX, 999_999_999);
    let mut s = stats("A");
    s.slow_frames = 3;
    s.last_slow_frame = 1;
    let found = detect(1, Duration::zero(), &one("A", longest, 1), vec![s]);
    assert_eq!(found[0].severity, Severity::Warning);
    assert_eq!(
        found[0].category,
        WasteCategory::SuspectedAllocation {
            widget: "A".to_string(),
            render_time_us: u64::MAX,
            cells: 1,
        }
    );
}

#[test]
fn findings_come_in_widget_order() {
    let ms = Duration::from_millis;
    let mut a = stats("A");
    a.last_was_full_redraw = true;
    a.slow_frames = 3;
    a.last_slow_frame = 4;
    let mut widgets = one("A", ms(70), 1000);
    widgets.push(("B".to_string(), ms(90), 1));
    let found = detect(4, ms(100), &widgets, vec![a]);
    assert_eq!(found.len(), 4);
    assert!(matches!(found[0].category, WasteCategory::Hog { .. }));
    assert!(matches!(found[1].category, WasteCategory::FullRedrawForSmallChange { .. }));
    assert!(matches!(found[2].category, WasteCategory::SuspectedAllocation { .. }));
    assert_eq!(
        found[3].category,
        WasteCategory::Hog { widget: "B".to_string(), fraction_percent: 90 }
    );
    for f in &found {
        assert_eq!(f.frame, 4);
    }
}

#[test]
fn each_render_is_judged_alone() {
    let ms = Duration::from_millis;
    let first = one("A", ms(70), 10);
    let second = one("B", ms(90), 10);
    let mut both = first.clone();
    both.extend(second.clone());
    let mut apart = detect(1, ms(100), &first, vec![]);
    apart.extend(detect(1, ms(100), &second, vec![]));
    let together = detect(1, ms(100), &both, vec![]);
    assert_eq!(together.len(), 2);
    for (a, b) in together.iter().zip(&apart) {
        assert_eq!(a.category, b.category);
        assert_eq!(a.severity, b.severity);
    }
}

#[test]
fn stashed_findings_replace_earlier_ones() {
    let mut detector = WasteDetector::default();
    assert!(detector.last_findings().is_empty());
    let hint = |frame| WasteFinding {
        frame,
        category: WasteCategory::DeepNesting { depth: 11, limit: 5 },
        severity: Severity::Hint,
    };
    detector.stash_findings(1, vec![hint(1), hint(1)]);
    assert_eq!(detector.last_findings().len(), 2);
    detector.stash_findings(2, vec![hint(2)]);
    assert_eq!(detector.last_findings().len(), 1);
    assert_eq!(detector.last_findings()[0].frame, 2);
}

#[test]
fn messages() {
    let widget = || "Bar".to_string();
    assert_eq!(
        WasteCategory::FullRedrawForSmallChange {
            widget: widget(),
            cells_written: 2000,
            estimated_needed: 200,
        }
        .message(),
        "Bar wrote 2000 cells but likely only needed ~200. It redraws the full area on every frame."
    );
    assert_eq!(
        WasteCategory::DeepNesting { depth: 11, limit: 5 }.message(),
        "layout nested 11 levels deep (limit: 5)"
    );
    assert_eq!(
        WasteCategory::SuspectedAllocation { widget: widget(), render_time_us: 1205, cells: 0 }
            .message(),
        "Bar took 1205µs for only 0 cells — likely allocating Strings or Vecs every frame"
    );
    assert_eq!(
        WasteCategory::Hog { widget: widget(), fraction_percent: u64::MAX }.message(),
        "Bar consumed 18446744073709551615% of frame time"
    );
    assert_eq!(Severity::Hint.label(), "hint");
    assert_eq!(Severity::Warning.label(), "warning");
    assert_eq!(Severity::Critical.label(), "CRITICAL");
}
