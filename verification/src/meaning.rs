//! What the words of the contracts mean, in plain arithmetic.

use vstd::prelude::*;

use crate::budget;
use crate::budget::{BudgetModel, BudgetViolation, FrameBudget, ViolationModel};
use crate::detector;
use crate::detector::{
    CategoryModel, FindingModel, SampleModel, Severity, WasteCategory, WasteFinding,
};
use crate::duration;
use crate::duration::Duration;
use crate::profiler;
use crate::profiler::{OpenModel, ProfilerModel};
use crate::report;
use crate::stats;
use crate::stats::{PerWidgetStats, StatsModel};
use crate::text;

verus! {

// ---- Spans of time

/// The longest span is `u64::MAX` seconds and 999,999,999 nanoseconds; anything longer is cut off
/// there, and nothing else is.
pub proof fn law_capped(nanos: nat)
    ensures
        nanos <= u64::MAX * 1_000_000_000 + 999_999_999 ==> duration::capped(nanos) == nanos,
        nanos > u64::MAX * 1_000_000_000 + 999_999_999 ==> duration::capped(nanos) == u64::MAX
            * 1_000_000_000 + 999_999_999,
{
}

/// What passed between two readings, added to the first, gives the second, unless that came first.
pub proof fn law_elapsed(start: nat, end: nat)
    ensures
        start <= end ==> start + duration::elapsed_between(start, end) == end,
        end <= start ==> duration::elapsed_between(start, end) == 0,
{
}

// ---- Budgets

/// A limit is violated if and only if it is exceeded, and the violation tells by what.
pub proof fn law_limits(b: BudgetModel, time: nat, cells: nat, depth: nat)
    ensures
        b.over_time(time) == (if time > b.max_render_time {
            Some(ViolationModel::OverTime { actual: time, budget: b.max_render_time })
        } else {
            None
        }),
        b.diff_too_large(cells) == (if cells > b.max_diff_cells {
            Some(ViolationModel::DiffTooLarge { cells, limit: b.max_diff_cells })
        } else {
            None
        }),
        b.depth_too_deep(depth) == (if depth > b.max_widget_depth {
            Some(ViolationModel::DepthTooDeep { depth, limit: b.max_widget_depth })
        } else {
            None
        }),
{
}

/// The violations of a frame are those of the limits that it exceeds: of its time, then of its cells,
/// then of its depth, each one once.
pub proof fn law_violations_in_order(b: BudgetModel, time: nat, cells: nat, depth: nat)
    ensures
        b.violations(time, cells, depth) == (if time > b.max_render_time {
            seq![ViolationModel::OverTime { actual: time, budget: b.max_render_time }]
        } else {
            Seq::empty()
        }) + (if cells > b.max_diff_cells {
            seq![ViolationModel::DiffTooLarge { cells, limit: b.max_diff_cells }]
        } else {
            Seq::empty()
        }) + (if depth > b.max_widget_depth {
            seq![ViolationModel::DepthTooDeep { depth, limit: b.max_widget_depth }]
        } else {
            Seq::empty()
        }),
{
}

/// A budget stands for its limits, and a violation for what it tells.
pub proof fn law_budget_models(b: FrameBudget, time: Duration, limit: Duration, n: usize, max: usize)
    ensures
        b@.max_render_time == b.max_render_time@,
        b@.max_diff_cells == b.max_diff_cells,
        b@.max_widget_depth == b.max_widget_depth,
        (BudgetViolation::OverTime { actual: time, budget: limit })@ == (ViolationModel::OverTime {
            actual: time@,
            budget: limit@,
        }),
        (BudgetViolation::DiffTooLarge { cells: n, limit: max })@ == (
        ViolationModel::DiffTooLarge { cells: n as nat, limit: max as nat }),
        (BudgetViolation::DepthTooDeep { depth: n, limit: max })@ == (
        ViolationModel::DepthTooDeep { depth: n as nat, limit: max as nat }),
{
}

// ---- Statistics

/// A render is slow if and only if it wrote cells and took 50,000 nanoseconds or more for each.
pub proof fn law_slow(time: nat, cells: nat)
    ensures
        stats::is_slow(time, cells) <==> cells > 0 && time >= 50_000 * cells,
{
    if cells > 0 {
        let micros = time / 1000;
        assert(micros / cells >= 50 <==> micros >= 50 * cells) by (nonlinear_arith)
            requires
                cells > 0,
        ;
    }
}

/// More cells in the same time, or less time for the same cells, never make a render slow.
pub proof fn law_slow_is_per_cell(time: nat, cells: nat, less: nat, more: nat)
    requires
        less <= time,
        0 < cells <= more,
        stats::is_slow(less, more),
    ensures
        stats::is_slow(time, cells),
{
    law_slow(time, cells);
    law_slow(less, more);
}

/// The microseconds per cell are a whole number: as many as fit into the time.
pub proof fn law_micros_per_cell(time: nat, cells: nat)
    requires
        cells > 0,
    ensures
        1000 * cells * stats::micros_per_cell(time, cells) <= time,
        time < 1000 * cells * (stats::micros_per_cell(time, cells) + 1),
{
    let micros = time / 1000;
    let each = micros / cells;
    assert(cells * each <= micros && micros < cells * (each + 1)) by (nonlinear_arith)
        requires
            cells > 0,
            each == micros / cells,
    ;
    assert(1000 * cells * each == 1000 * (cells * each)) by (nonlinear_arith);
    assert(1000 * cells * (each + 1) == 1000 * (cells * (each + 1))) by (nonlinear_arith);
}

/// A render is a full redraw if and only if it is not the first, and writes more than one and a half
/// times the cells of the one before, or less than half of them.
pub proof fn law_full_redraw(s: StatsModel, cells: nat)
    ensures
        s.is_full_redraw(cells) <==> s.render_count > 0 && (2 * cells > 3 * s.last_cells || 2
            * cells < s.last_cells),
{
}

/// The average, taken for each render, stays within the total by less than a nanosecond each.
pub proof fn law_average(s: StatsModel)
    ensures
        s.render_count == 0 ==> s.avg_time() == 0,
        s.render_count > 0 ==> s.avg_time() * s.render_count <= s.total_time && s.total_time < (
        s.avg_time() + 1) * s.render_count,
{
    if s.render_count > 0 {
        let avg = s.total_time / s.render_count;
        assert(avg * s.render_count <= s.total_time && s.total_time < (avg + 1) * s.render_count)
            by (nonlinear_arith)
            requires
                s.render_count > 0,
                avg == s.total_time / s.render_count,
        ;
    }
}

/// Nothing is known of a widget that was never rendered.
pub proof fn law_fresh(name: Seq<char>)
    ensures
        ({
            let s = StatsModel::fresh(name);
            &&& s.name == name
            &&& s.total_time == 0 && s.render_count == 0 && s.peak_time == 0
            &&& s.last_cells == 0 && s.prev_cells == 0 && !s.last_was_full_redraw
            &&& s.slow_frames == 0 && s.last_slow_frame == 0
            &&& s.last_frame == 0 && s.last_frame_depth == 0
        }),
{
}

/// What one more render does to the statistics of a widget.
pub proof fn law_record(s: StatsModel, frame: nat, time: nat, cells: nat, depth: nat)
    ensures
        ({
            let r = s.record(frame, time, cells, depth);
            let longest = (u64::MAX * 1_000_000_000 + 999_999_999) as nat;
            let slow = cells > 0 && time >= 50_000 * cells;
            &&& r.name == s.name
            &&& r.render_count == s.render_count + 1
            &&& s.total_time + time <= longest ==> r.total_time == s.total_time + time
            &&& s.total_time + time > longest ==> r.total_time == longest
            &&& r.peak_time >= s.peak_time && r.peak_time >= time
            &&& r.peak_time == s.peak_time || r.peak_time == time
            &&& r.last_cells == cells
            &&& r.prev_cells == s.last_cells
            &&& r.last_was_full_redraw <==> s.render_count > 0 && (2 * cells > 3 * s.last_cells || 2
                * cells < s.last_cells)
            &&& r.last_frame == frame
            &&& frame != s.last_frame ==> r.last_frame_depth == depth
            &&& frame == s.last_frame ==> r.last_frame_depth >= depth && r.last_frame_depth
                >= s.last_frame_depth && (r.last_frame_depth == depth || r.last_frame_depth
                == s.last_frame_depth)
            &&& !slow ==> r.slow_frames == s.slow_frames && r.last_slow_frame == s.last_slow_frame
            &&& slow ==> r.last_slow_frame == frame
            &&& slow && s.slow_frames == 0 ==> r.slow_frames == 1
            &&& slow && s.slow_frames > 0 && frame == s.last_slow_frame ==> r.slow_frames
                == s.slow_frames
            &&& slow && 0 < s.slow_frames < u64::MAX && frame == s.last_slow_frame + 1
                ==> r.slow_frames == s.slow_frames + 1
            &&& slow && s.slow_frames >= u64::MAX && frame == s.last_slow_frame + 1
                ==> r.slow_frames == u64::MAX
            &&& slow && frame != s.last_slow_frame && frame != s.last_slow_frame + 1
                ==> r.slow_frames == 1
        }),
{
    law_slow(time, cells);
}

/// The statistics of a widget stand for what they say.
pub proof fn law_stats_model(s: PerWidgetStats)
    ensures
        s@.name == s.name@,
        s@.total_time == s.total_time@,
        s@.render_count == s.render_count,
        s@.last_cells == s.last_cells,
        s@.peak_time == s.peak_time@,
        s@.prev_cells == s.prev_cells,
        s@.last_was_full_redraw == s.last_was_full_redraw,
        s@.slow_frames == s.slow_frames,
        s@.last_slow_frame == s.last_slow_frame,
        s@.last_frame == s.last_frame,
        s@.last_frame_depth == s.last_frame_depth,
{
}

// ---- Findings

/// Whether `percent` is the share of `time` in `total`, to the nearest whole percent, or the largest
/// `u64` where the share is beyond it.
pub open spec fn nearest_percent(time: nat, total: nat, percent: nat) -> bool {
    let doubled = 200 * time as int;
    if doubled < (2 * u64::MAX + 1) * total {
        (2 * percent - 1) * total <= doubled < (2 * percent + 1) * total
    } else {
        percent == u64::MAX
    }
}

/// A share is told to the nearest whole percent.
pub proof fn law_percent(time: nat, total: nat)
    ensures
        total == 0 ==> detector::percent_of(time, total) == 0,
        total > 0 ==> nearest_percent(time, total, detector::percent_of(time, total)),
{
    if total > 0 {
        let q = ((200 * time + total) / (2 * total)) as int;
        let t = total as int;
        let d = (200 * time) as int;
        assert(2 * t * q <= d + t && d + t < 2 * t * (q + 1)) by (nonlinear_arith)
            requires
                t > 0,
                d >= 0,
                q == (d + t) / (2 * t),
        ;
        assert((2 * q - 1) * t == 2 * t * q - t && (2 * q + 1) * t == 2 * t * (q + 1) - t)
            by (nonlinear_arith);
        let m = u64::MAX as int;
        assert(q <= m ==> (2 * q + 1) * t <= (2 * m + 1) * t) by (nonlinear_arith)
            requires
                t > 0,
        ;
        assert(q > m ==> (2 * q - 1) * t >= (2 * m + 1) * t) by (nonlinear_arith)
            requires
                t > 0,
        ;
    }
}

/// `micros` is the whole microseconds in `time` nanoseconds, or the largest `u64` if there are more.
pub open spec fn whole_micros(time: nat, micros: nat) -> bool {
    if time < 1000 * (u64::MAX + 1) {
        1000 * micros <= time < 1000 * (micros + 1)
    } else {
        micros == u64::MAX
    }
}

/// The findings about a single render. It is a hog if it took more than 60% of the frame's time. It
/// is a full redraw if it wrote more than 500 cells, and the widget was rendered more than three
/// times and is in a full redraw. It is suspected of allocating if it took 50,000 nanoseconds or more
/// for each of its cells, as one did in the two frames before. It is nothing else, and each once.
pub proof fn law_findings_of_one_render(
    frame: nat,
    total: nat,
    w: SampleModel,
    all_stats: Map<Seq<char>, StatsModel>,
)
    ensures
        ({
            let found = detector::all_widget_findings(frame, total, seq![w], all_stats);
            let known = all_stats.contains_key(w.name);
            let s = all_stats[w.name];
            let hog = total > 0 && 100 * w.time > 60 * total;
            let redraw = known && s.render_count > 3 && s.last_was_full_redraw && w.cells > 500;
            let slow = known && w.cells > 0 && w.time >= 50_000 * w.cells && s.slow_frames >= 3
                && s.last_slow_frame == frame;
            let hogs: int = if hog {
                1
            } else {
                0
            };
            let redraws: int = if redraw {
                1
            } else {
                0
            };
            let slows: int = if slow {
                1
            } else {
                0
            };
            &&& found.len() == hogs + redraws + slows
            &&& hog ==> {
                let f = found[0];
                &&& f.frame == frame
                &&& f.category is Hog
                &&& f.category->Hog_widget == w.name
                &&& nearest_percent(w.time, total, f.category->fraction_percent)
                &&& f.severity == if 100 * w.time > 85 * total {
                    Severity::Critical
                } else {
                    Severity::Warning
                }
            }
            &&& redraw ==> {
                let f = found[hogs];
                &&& f.frame == frame
                &&& f.category is FullRedrawForSmallChange
                &&& f.category->FullRedrawForSmallChange_widget == w.name
                &&& f.category->cells_written == w.cells
                &&& 10 * f.category->estimated_needed <= w.cells < 10 * (
                f.category->estimated_needed + 1)
                &&& f.severity == if w.cells > 5000 {
                    Severity::Warning
                } else {
                    Severity::Hint
                }
            }
            &&& slow ==> {
                let f = found[hogs + redraws];
                &&& f.frame == frame
                &&& f.category is SuspectedAllocation
                &&& f.category->SuspectedAllocation_widget == w.name
                &&& whole_micros(w.time, f.category->render_time_us)
                &&& f.category->SuspectedAllocation_cells == w.cells
                &&& f.severity == if w.time >= 201_000 * w.cells {
                    Severity::Warning
                } else {
                    Severity::Hint
                }
            }
        }),
{
    let found = detector::all_widget_findings(frame, total, seq![w], all_stats);
    assert(seq![w].drop_last() =~= seq![]);
    assert(seq![w].last() == w);
    assert(detector::all_widget_findings(frame, total, seq![], all_stats) =~= seq![]);
    assert(found =~= detector::widget_findings(frame, total, w, all_stats));
    law_percent(w.time, total);
    law_slow(w.time, w.cells);
    if w.cells > 0 {
        law_micros_per_cell(w.time, w.cells);
        let each = stats::micros_per_cell(w.time, w.cells);
        assert(each > 200 <==> w.time >= 201_000 * w.cells) by (nonlinear_arith)
            requires
                w.cells > 0,
                1000 * w.cells * each <= w.time,
                w.time < 1000 * w.cells * (each + 1),
        ;
    }
}

/// No findings come of no renders.
pub proof fn law_findings_of_no_render(
    frame: nat,
    total: nat,
    all_stats: Map<Seq<char>, StatsModel>,
)
    ensures
        detector::all_widget_findings(frame, total, Seq::empty(), all_stats) == Seq::<
            FindingModel,
        >::empty(),
{
}

/// Whether `depth` is how deep the deepest of the widgets was nested in `frame`, as their statistics
/// tell; zero if they do not.
pub open spec fn is_deepest(
    frame: nat,
    widgets: Seq<SampleModel>,
    all_stats: Map<Seq<char>, StatsModel>,
    depth: nat,
) -> bool {
    &&& forall|i: int|
        0 <= i < widgets.len() && all_stats.contains_key((#[trigger] widgets[i]).name)
            && all_stats[widgets[i].name].last_frame == frame
            ==> all_stats[widgets[i].name].last_frame_depth <= depth
    &&& depth > 0 ==> exists|i: int|
        0 <= i < widgets.len() && all_stats.contains_key((#[trigger] widgets[i]).name)
            && all_stats[widgets[i].name].last_frame == frame
            && all_stats[widgets[i].name].last_frame_depth == depth
}

/// The depth that the renders of a frame tell is that of the deepest.
pub proof fn law_rendered_depth(
    frame: nat,
    widgets: Seq<SampleModel>,
    all_stats: Map<Seq<char>, StatsModel>,
)
    ensures
        is_deepest(
            frame,
            widgets,
            all_stats,
            detector::rendered_depth(frame, widgets, all_stats),
        ),
    decreases widgets.len(),
{
    if widgets.len() > 0 {
        let init = widgets.drop_last();
        let n = widgets.len() - 1;
        law_rendered_depth(frame, init, all_stats);
        let others = detector::rendered_depth(frame, init, all_stats);
        let depth = detector::rendered_depth(frame, widgets, all_stats);
        assert forall|i: int|
            0 <= i < widgets.len() && all_stats.contains_key((#[trigger] widgets[i]).name)
                && all_stats[widgets[i].name].last_frame
                == frame implies all_stats[widgets[i].name].last_frame_depth <= depth by {
            if i < n {
                assert(init[i] == widgets[i]);
            }
        }
        if depth > 0 {
            if depth == others {
                let i = choose|i: int|
                    0 <= i < init.len() && all_stats.contains_key((#[trigger] init[i]).name)
                        && all_stats[init[i].name].last_frame == frame
                        && all_stats[init[i].name].last_frame_depth == depth;
                assert(init[i] == widgets[i]);
            } else {
                assert(widgets[n] == widgets.last());
            }
        }
    }
}

/// The finding of deep nesting.
pub open spec fn nested(frame: nat, depth: nat, limit: nat) -> FindingModel {
    FindingModel {
        frame,
        category: CategoryModel::DeepNesting { depth, limit },
        severity: Severity::Hint,
    }
}

/// The detector's findings about a frame are those about its renders, then that they are nested
/// deeper than the limit, then that they are more than twice the limit; one suffices where these two
/// say the same.
pub proof fn law_findings_of_frame(
    frame: nat,
    total: nat,
    widgets: Seq<SampleModel>,
    all_stats: Map<Seq<char>, StatsModel>,
    b: BudgetModel,
    depth: nat,
)
    requires
        is_deepest(frame, widgets, all_stats, depth),
    ensures
        ({
            let limit = b.max_widget_depth;
            let many = widgets.len() > 2 * limit;
            detector::frame_findings(frame, total, widgets, all_stats, b)
                == detector::all_widget_findings(frame, total, widgets, all_stats) + (if depth
                > limit && !(many && widgets.len() == depth) {
                seq![nested(frame, depth, limit)]
            } else {
                Seq::empty()
            }) + (if many {
                seq![nested(frame, widgets.len(), limit)]
            } else {
                Seq::empty()
            })
        }),
{
    law_rendered_depth(frame, widgets, all_stats);
    let told = detector::rendered_depth(frame, widgets, all_stats);
    assert(told == depth) by {
        if told > 0 {
            let i = choose|i: int|
                0 <= i < widgets.len() && all_stats.contains_key((#[trigger] widgets[i]).name)
                    && all_stats[widgets[i].name].last_frame == frame
                    && all_stats[widgets[i].name].last_frame_depth == told;
            assert(told <= depth);
        }
        if depth > 0 {
            let i = choose|i: int|
                0 <= i < widgets.len() && all_stats.contains_key((#[trigger] widgets[i]).name)
                    && all_stats[widgets[i].name].last_frame == frame
                    && all_stats[widgets[i].name].last_frame_depth == depth;
            assert(depth <= told);
        }
    }
}

/// A severity and a kind of waste read as they should.
pub proof fn law_messages(name: Seq<char>, a: nat, b: nat)
    ensures
        detector::severity_label(Severity::Hint) == "hint"@,
        detector::severity_label(Severity::Warning) == "warning"@,
        detector::severity_label(Severity::Critical) == "CRITICAL"@,
        (CategoryModel::Hog { widget: name, fraction_percent: a }).message() == name + " consumed "@
            + text::decimal(a) + "% of frame time"@,
        (CategoryModel::DeepNesting { depth: a, limit: b }).message() == "layout nested "@
            + text::decimal(a) + " levels deep (limit: "@ + text::decimal(b) + ")"@,
        (CategoryModel::SuspectedAllocation {
            widget: name,
            render_time_us: a,
            cells: b,
        }).message() == name + " took "@ + text::decimal(a) + "µs for only "@ + text::decimal(b)
            + " cells — likely allocating Strings or Vecs every frame"@,
        (CategoryModel::FullRedrawForSmallChange {
            widget: name,
            cells_written: a,
            estimated_needed: b,
        }).message() == name + " wrote "@ + text::decimal(a)
            + " cells but likely only needed ~"@ + text::decimal(b)
            + ". It redraws the full area on every frame."@,
{
}

/// A finding, its kind of waste and a render stand for what they say.
pub proof fn law_finding_models(
    f: WasteFinding,
    name: String,
    a: usize,
    b: usize,
    n: u64,
    time: Duration,
)
    ensures
        f@.frame == f.frame,
        f@.category == f.category@,
        f@.severity == f.severity,
        (WasteCategory::Hog { widget: name, fraction_percent: n })@ == (CategoryModel::Hog {
            widget: name@,
            fraction_percent: n as nat,
        }),
        (WasteCategory::DeepNesting { depth: a, limit: b })@ == (CategoryModel::DeepNesting {
            depth: a as nat,
            limit: b as nat,
        }),
        (WasteCategory::SuspectedAllocation { widget: name, render_time_us: n, cells: a })@ == (
        CategoryModel::SuspectedAllocation {
            widget: name@,
            render_time_us: n as nat,
            cells: a as nat,
        }),
        (WasteCategory::FullRedrawForSmallChange {
            widget: name,
            cells_written: a,
            estimated_needed: b,
        })@ == (CategoryModel::FullRedrawForSmallChange {
            widget: name@,
            cells_written: a as nat,
            estimated_needed: b as nat,
        }),
        detector::sample_model((name, time, a)) == (SampleModel {
            name: name@,
            time: time@,
            cells: a as nat,
        }),
{
}

/// Many findings, violations, renders, names and statistics stand each for its own.
pub proof fn law_models_of_many(
    findings: Seq<WasteFinding>,
    violations: Seq<BudgetViolation>,
    samples: Seq<(String, Duration, usize)>,
    names: Seq<String>,
    all_stats: Map<Seq<char>, PerWidgetStats>,
)
    ensures
        detector::finding_models(findings).len() == findings.len(),
        forall|i: int|
            0 <= i < findings.len() ==> (#[trigger] detector::finding_models(findings)[i])
                == findings[i]@,
        budget::violation_models(violations).len() == violations.len(),
        forall|i: int|
            0 <= i < violations.len() ==> (#[trigger] budget::violation_models(violations)[i])
                == violations[i]@,
        detector::sample_models(samples).len() == samples.len(),
        forall|i: int|
            0 <= i < samples.len() ==> (#[trigger] detector::sample_models(samples)[i])
                == detector::sample_model(samples[i]),
        profiler::name_models(names).len() == names.len(),
        forall|i: int|
            0 <= i < names.len() ==> (#[trigger] profiler::name_models(names)[i]) == names[i]@,
        detector::stats_models(all_stats).dom() == all_stats.dom(),
        forall|name: Seq<char>| #[trigger]
            all_stats.contains_key(name) ==> detector::stats_models(all_stats)[name]
                == all_stats[name]@,
{
    assert(detector::stats_models(all_stats).dom() =~= all_stats.dom());
}

// ---- Calls of a profiler

/// The cells of a frame are the sum over all its renders, whatever their names.
pub proof fn law_total_cells(a: Seq<SampleModel>, b: Seq<SampleModel>, w: SampleModel)
    ensures
        profiler::total_cells(Seq::empty()) == 0,
        profiler::total_cells(seq![w]) == w.cells,
        profiler::total_cells(a + b) == profiler::total_cells(a) + profiler::total_cells(b),
    decreases b.len(),
{
    assert(seq![w].drop_last() =~= seq![]);
    assert(profiler::total_cells(seq![]) == 0);
    assert(profiler::total_cells(seq![w]) == w.cells);
    if b.len() == 0 {
        assert(a + b =~= a);
    } else {
        law_total_cells(a, b.drop_last(), w);
        assert((a + b).drop_last() =~= a + b.drop_last());
    }
}

/// Ending a widget raises the cells of the frame by just those that it wrote.
pub proof fn law_end_widget_adds_its_cells(m: ProfilerModel, now: nat, cells: nat)
    requires
        m.open_widgets.len() > 0,
    ensures
        profiler::total_cells(m.end_widget(now, cells).frame_widgets) == profiler::total_cells(
            m.frame_widgets,
        ) + cells,
{
    let w = m.end_widget(now, cells).frame_widgets.last();
    law_total_cells(m.frame_widgets, seq![w], w);
    assert(m.end_widget(now, cells).frame_widgets =~= m.frame_widgets + seq![w]);
}

/// A new profiler has its budget and nothing else.
pub proof fn law_start(b: BudgetModel)
    ensures
        ({
            let m = ProfilerModel::start(b);
            &&& m.budget == b
            &&& m.clock == 0 && m.frame_number == 0 && m.frame_start is None && m.deepest == 0
            &&& m.open_widgets.len() == 0 && m.frame_widgets.len() == 0 && m.names.len() == 0
            &&& m.history.len() == 0 && m.findings.len() == 0
            &&& forall|name: Seq<char>| !m.stats.contains_key(name)
        }),
{
}

/// A frame that begins is numbered next, starts now, and has no widgets yet. Nothing else changes.
pub proof fn law_begin_frame(m: ProfilerModel, now: nat)
    ensures
        ({
            let e = m.begin_frame(now);
            &&& e.frame_number == m.frame_number + 1
            &&& e.frame_start == Some(now)
            &&& e.frame_widgets.len() == 0
            &&& e.deepest == 0
            &&& e.budget == m.budget && e.clock == m.clock && e.open_widgets == m.open_widgets
            &&& e.stats == m.stats && e.names == m.names
            &&& e.history == m.history && e.findings == m.findings
        }),
{
}

/// A widget that begins is the innermost one, since now, and may be the deepest of the frame. Nothing
/// else changes.
pub proof fn law_begin_widget(m: ProfilerModel, name: Seq<char>, now: nat)
    ensures
        ({
            let e = m.begin_widget(name, now);
            let depth = m.open_widgets.len() + 1;
            &&& e.open_widgets.len() == depth
            &&& e.open_widgets.drop_last() == m.open_widgets
            &&& e.open_widgets.last() == (OpenModel { name, start: now })
            &&& e.deepest >= depth && e.deepest >= m.deepest
            &&& e.deepest == depth || e.deepest == m.deepest
            &&& e.budget == m.budget && e.clock == m.clock && e.frame_number == m.frame_number
            &&& e.frame_start == m.frame_start && e.frame_widgets == m.frame_widgets
            &&& e.stats == m.stats && e.names == m.names
            &&& e.history == m.history && e.findings == m.findings
        }),
{
    assert(m.begin_widget(name, now).open_widgets.drop_last() =~= m.open_widgets);
}

/// A widget that ends was the innermost one. Its render joins those of the frame, with its name, the
/// time since it began and its cells, and is recorded in its statistics, at the frame's number and
/// the widget's depth; a first render adds its name. Nothing else changes.
pub proof fn law_end_widget(m: ProfilerModel, now: nat, cells: nat)
    requires
        m.open_widgets.len() > 0,
    ensures
        ({
            let e = m.end_widget(now, cells);
            let name = m.open_widgets.last().name;
            let start = m.open_widgets.last().start;
            let time = if start <= now {
                (now - start) as nat
            } else {
                0
            };
            &&& e.open_widgets == m.open_widgets.drop_last()
            &&& e.frame_widgets.len() == m.frame_widgets.len() + 1
            &&& e.frame_widgets.drop_last() == m.frame_widgets
            &&& e.frame_widgets.last() == (SampleModel { name, time, cells })
            &&& e.stats.dom() == m.stats.dom().insert(name)
            &&& forall|other: Seq<char>| #[trigger]
                m.stats.contains_key(other) && other != name ==> e.stats[other] == m.stats[other]
            &&& e.stats[name] == m.stats_of(name).record(
                m.frame_number,
                time,
                cells,
                m.open_widgets.len(),
            )
            &&& m.stats.contains_key(name) ==> e.names == m.names
            &&& !m.stats.contains_key(name) ==> e.names == m.names.push(name)
            &&& e.budget == m.budget && e.clock == m.clock && e.frame_number == m.frame_number
            &&& e.frame_start == m.frame_start && e.deepest == m.deepest
            &&& e.history == m.history && e.findings == m.findings
        }),
{
    let e = m.end_widget(now, cells);
    assert(e.frame_widgets.drop_last() =~= m.frame_widgets);
    assert(e.stats.dom() =~= m.stats.dom().insert(m.open_widgets.last().name));
}

/// The statistics of a widget are those kept under its name; without any, it was never rendered.
pub proof fn law_stats_of(m: ProfilerModel, name: Seq<char>)
    ensures
        m.stats.contains_key(name) ==> m.stats_of(name) == m.stats[name],
        !m.stats.contains_key(name) ==> m.stats_of(name) == StatsModel::fresh(name),
{
}

/// A frame takes the time since it began, and none if no frame ever began.
pub proof fn law_frame_time(m: ProfilerModel, now: nat)
    ensures
        m.frame_start is None ==> m.frame_time(now) == 0,
        m.frame_start matches Some(start) ==> {
            &&& start <= now ==> start + m.frame_time(now) == now
            &&& now <= start ==> m.frame_time(now) == 0
        },
{
}

/// A frame that ends is the last of the history, with its number, its time, its renders and its
/// violations; one frame leaves if there were 120. Nothing else changes but the findings.
pub proof fn law_end_frame(m: ProfilerModel, now: nat)
    ensures
        ({
            let e = m.end_frame(now);
            let record = e.history.last();
            let h = m.history;
            let kept = e.history.len() - 1;
            &&& e.history.len() == (if h.len() < 120 {
                h.len() + 1
            } else {
                120
            })
            &&& forall|i: int|
                0 <= i < kept ==> #[trigger] e.history[i] == h[h.len() - kept + i]
            &&& record.frame_number == m.frame_number
            &&& record.total_time == m.frame_time(now)
            &&& record.widgets == m.frame_widgets
            &&& record.violations == m.budget.violations(
                m.frame_time(now),
                profiler::total_cells(m.frame_widgets),
                m.deepest,
            )
            &&& e.last_violations() == record.violations
            &&& e.last_frame_total_cells() == profiler::total_cells(m.frame_widgets)
            &&& e.budget == m.budget && e.clock == m.clock && e.frame_number == m.frame_number
            &&& e.frame_start == m.frame_start && e.open_widgets == m.open_widgets
            &&& e.deepest == m.deepest && e.frame_widgets == m.frame_widgets
            &&& e.stats == m.stats && e.names == m.names
        }),
{
}

/// The findings about a frame that ends are the detector's, and that a widget began in it deeper than
/// the limit, unless the detector says the same.
pub proof fn law_findings_of_completed_frame(m: ProfilerModel, now: nat, depth: nat)
    requires
        is_deepest(m.frame_number, m.frame_widgets, m.stats, depth),
    ensures
        ({
            let limit = m.budget.max_widget_depth;
            let n = m.frame_widgets.len();
            m.end_frame(now).findings == detector::frame_findings(
                m.frame_number,
                m.frame_time(now),
                m.frame_widgets,
                m.stats,
                m.budget,
            ) + (if m.deepest > limit && m.deepest != depth && !(n > 2 * limit && n == m.deepest) {
                seq![nested(m.frame_number, m.deepest, limit)]
            } else {
                Seq::empty()
            })
        }),
{
    law_findings_of_frame(
        m.frame_number,
        m.frame_time(now),
        m.frame_widgets,
        m.stats,
        m.budget,
        depth,
    );
    law_rendered_depth(m.frame_number, m.frame_widgets, m.stats);
    let told = detector::rendered_depth(m.frame_number, m.frame_widgets, m.stats);
    assert(told == depth) by {
        if told > 0 {
            let i = choose|i: int|
                0 <= i < m.frame_widgets.len() && m.stats.contains_key(
                    (#[trigger] m.frame_widgets[i]).name,
                ) && m.stats[m.frame_widgets[i].name].last_frame == m.frame_number
                    && m.stats[m.frame_widgets[i].name].last_frame_depth == told;
            assert(told <= depth);
        }
        if depth > 0 {
            let i = choose|i: int|
                0 <= i < m.frame_widgets.len() && m.stats.contains_key(
                    (#[trigger] m.frame_widgets[i]).name,
                ) && m.stats[m.frame_widgets[i].name].last_frame == m.frame_number
                    && m.stats[m.frame_widgets[i].name].last_frame_depth == depth;
            assert(depth <= told);
        }
    }
}

/// Before any frame was completed there are no violations and no cells.
pub proof fn law_nothing_completed(m: ProfilerModel)
    requires
        m.history.len() == 0,
    ensures
        m.last_violations().len() == 0,
        m.last_frame_total_cells() == 0,
{
}

/// What the calls ask for: a frame counter, a render counter or a sum of cells that is not full.
pub proof fn law_what_calls_ask_for(m: ProfilerModel)
    ensures
        m.can_begin_frame() <==> m.frame_number < u64::MAX,
        m.can_end_frame() <==> profiler::total_cells(m.frame_widgets) <= usize::MAX,
        m.open_widgets.len() == 0 ==> m.can_end_widget(),
        m.open_widgets.len() > 0 ==> (m.can_end_widget() <==> (m.stats.contains_key(
            m.open_widgets.last().name,
        ) ==> m.stats[m.open_widgets.last().name].render_count < u64::MAX)),
{
}

// ---- Text

/// The number that decimal digits stand for.
pub open spec fn value(digits: Seq<char>) -> int
    decreases digits.len(),
{
    if digits.len() == 0 {
        0
    } else {
        10 * value(digits.drop_last()) + (digits.last() as int - '0' as int)
    }
}

/// A number in decimal is made of digits, without leading zeros, and stands for the number.
pub proof fn law_decimal(n: nat)
    ensures
        value(text::decimal(n)) == n,
        text::decimal(n).len() > 0,
        forall|i: int|
            0 <= i < text::decimal(n).len() ==> '0' <= #[trigger] text::decimal(n)[i] <= '9',
        n > 0 ==> text::decimal(n)[0] != '0',
    decreases n,
{
    reveal_with_fuel(value, 3);
    let d = text::decimal(n);
    if n < 10 {
        assert(d.drop_last() =~= seq![]);
    } else {
        law_decimal(n / 10);
        assert(d.drop_last() =~= text::decimal(n / 10));
        assert(d.last() == text::digit(n % 10));
    }
}

/// Milliseconds are told with one decimal place, to the nearest.
pub proof fn law_millis(nanos: nat)
    ensures
        exists|whole: nat, tenth: nat|
            tenth < 10 && text::millis(nanos) == #[trigger] text::decimal(whole) + "."@
                + #[trigger] text::decimal(tenth) && 1_000_000 * whole + 100_000 * tenth <= nanos
                + 50_000 && nanos < 1_000_000 * whole + 100_000 * tenth + 50_000,
{
    let tenths = (nanos + 50_000) / 100_000;
    let whole = tenths / 10;
    let tenth = tenths % 10;
    assert(text::millis(nanos) == text::decimal(whole) + "."@ + text::decimal(tenth));
}

// ---- Reports

/// A report counts a finding under its own severity, and under no other.
pub proof fn law_count(findings: Seq<FindingModel>, f: FindingModel, severity: Severity)
    ensures
        report::count(Seq::empty(), severity) == 0,
        report::count(findings.push(f), severity) == report::count(findings, severity) + (
        if f.severity == severity {
            1nat
        } else {
            0
        }),
{
    reveal(Seq::filter);
    assert(findings.push(f).drop_last() =~= findings);
}

/// The lines of the widgets follow each other, one for each render: its name, its time, its share of
/// the frame's time, its cells, and a mark if it took more than 60%.
pub proof fn law_widget_lines(
    a: Seq<SampleModel>,
    b: Seq<SampleModel>,
    w: SampleModel,
    total: nat,
)
    ensures
        report::widget_lines(Seq::empty(), total) == Seq::<char>::empty(),
        report::widget_lines(a + b, total) == report::widget_lines(a, total)
            + report::widget_lines(b, total),
        exists|percent: nat|
            (total > 0 ==> nearest_percent(w.time, total, percent)) && (total == 0 ==> percent == 0)
                && report::widget_lines(seq![w], total) == "\n  "@ + w.name + ": "@ + text::millis(
                w.time,
            ) + "ms ("@ + #[trigger] text::decimal(percent) + "%) for "@ + text::decimal(w.cells)
                + " cells"@ + (if total > 0 && 100 * w.time > 60 * total {
                " — HOG"@
            } else {
                Seq::empty()
            }),
    decreases b.len(),
{
    assert(report::widget_lines(seq![], total) =~= seq![]);
    assert(seq![w].drop_last() =~= seq![]);
    let percent = detector::percent_of(w.time, total);
    law_percent(w.time, total);
    assert(report::widget_lines(seq![w], total) =~= "\n  "@ + w.name + ": "@ + text::millis(w.time)
        + "ms ("@ + text::decimal(percent) + "%) for "@ + text::decimal(w.cells) + " cells"@ + (
    if total > 0 && 100 * w.time > 60 * total {
        " — HOG"@
    } else {
        Seq::empty()
    }));
    if b.len() == 0 {
        assert(a + b =~= a);
        assert(report::widget_lines(b, total) =~= seq![]);
        assert(report::widget_lines(a + b, total) =~= report::widget_lines(a, total)
            + report::widget_lines(b, total));
    } else {
        law_widget_lines(a, b.drop_last(), w, total);
        assert((a + b).drop_last() =~= a + b.drop_last());
        assert(report::widget_lines(a + b, total) =~= report::widget_lines(a, total)
            + report::widget_lines(b, total));
    }
}

/// The lines of the findings follow each other, one for each: its severity and its message.
pub proof fn law_finding_lines(a: Seq<FindingModel>, b: Seq<FindingModel>, f: FindingModel)
    ensures
        report::finding_lines(Seq::empty()) == Seq::<char>::empty(),
        report::finding_lines(a + b) == report::finding_lines(a) + report::finding_lines(b),
        report::finding_lines(seq![f]) == "\n    ["@ + detector::severity_label(f.severity) + "] "@
            + f.category.message(),
    decreases b.len(),
{
    assert(report::finding_lines(seq![]) =~= seq![]);
    assert(seq![f].drop_last() =~= seq![]);
    assert(report::finding_lines(seq![f]) =~= "\n    ["@ + detector::severity_label(f.severity)
        + "] "@ + f.category.message());
    if b.len() == 0 {
        assert(a + b =~= a);
        assert(report::finding_lines(b) =~= seq![]);
        assert(report::finding_lines(a + b) =~= report::finding_lines(a) + report::finding_lines(
            b,
        ));
    } else {
        law_finding_lines(a, b.drop_last(), f);
        assert((a + b).drop_last() =~= a + b.drop_last());
        assert(report::finding_lines(a + b) =~= report::finding_lines(a) + report::finding_lines(
            b,
        ));
    }
}

/// The report on a frame that ends tells its number, its time, the time budget and its cells, then
/// its widgets, then how many findings there are and what they say. It is marked as over budget if
/// and only if its time, its cells or its depth is over the limit.
pub proof fn law_report(m: ProfilerModel, now: nat)
    ensures
        ({
            let e = m.end_frame(now);
            let time = m.frame_time(now);
            let cells = profiler::total_cells(m.frame_widgets);
            let over = time > m.budget.max_render_time || cells > m.budget.max_diff_cells
                || m.deepest > m.budget.max_widget_depth;
            report::report_text(e) == "Frame "@ + text::decimal(m.frame_number) + ": "@
                + text::millis(time) + "ms total ("@ + (if over {
                "⚠ OVER BUDGET, "@
            } else {
                Seq::empty()
            }) + "budget: "@ + text::decimal(m.budget.max_render_time / 1_000_000) + "ms) "@
                + text::decimal(cells) + " cells"@ + report::widget_lines(m.frame_widgets, time) + (
            if e.findings.len() == 0 {
                Seq::empty()
            } else {
                "\n  "@ + text::decimal(e.findings.len()) + " findings: "@ + text::decimal(
                    report::count(e.findings, Severity::Critical),
                ) + " critical, "@ + text::decimal(report::count(e.findings, Severity::Warning))
                    + " warnings, "@ + text::decimal(report::count(e.findings, Severity::Hint))
                    + " hints"@ + report::finding_lines(e.findings)
            })
        }),
{
    let e = m.end_frame(now);
    let time = m.frame_time(now);
    let cells = profiler::total_cells(m.frame_widgets);
    assert(e.history.last() == m.frame_record(now));
    law_violations_in_order(m.budget, time, cells, m.deepest);
    let over = time > m.budget.max_render_time || cells > m.budget.max_diff_cells || m.deepest
        > m.budget.max_widget_depth;
    assert(e.history.last().violations.len() > 0 <==> over);
    let line = "Frame "@ + text::decimal(m.frame_number) + ": "@ + text::millis(time)
        + "ms total ("@ + (if over {
        "⚠ OVER BUDGET, "@
    } else {
        Seq::empty()
    }) + "budget: "@ + text::decimal(m.budget.max_render_time / 1_000_000) + "ms) "@
        + text::decimal(cells) + " cells"@;
    assert(report::frame_line(e) =~= line);
    if e.findings.len() == 0 {
        assert(report::report_text(e) =~= line + report::widget_lines(m.frame_widgets, time));
    } else {
        let counts = "\n  "@ + text::decimal(e.findings.len()) + " findings: "@ + text::decimal(
            report::count(e.findings, Severity::Critical),
        ) + " critical, "@ + text::decimal(report::count(e.findings, Severity::Warning))
            + " warnings, "@ + text::decimal(report::count(e.findings, Severity::Hint))
            + " hints"@;
        assert(report::count_line(e.findings) =~= counts);
        assert(report::report_text(e) =~= line + report::widget_lines(m.frame_widgets, time) + (
        counts + report::finding_lines(e.findings)));
    }
}

/// The report on a profiler without a completed frame says so.
pub proof fn law_report_of_nothing(m: ProfilerModel)
    requires
        m.history.len() == 0,
    ensures
        report::report_text(m) == "No frames recorded"@,
{
}

} // verus!
