//! Waste detection.
//!
//! Identifies common rendering anti-patterns:
//! - Full-screen redraws for tiny changes
//! - Excessively nested layouts
//! - Widgets that appear to allocate on every frame (heuristic)

use vstd::hash_map::StringHashMap;
use vstd::prelude::*;

use crate::budget::{BudgetModel, FrameBudget};
use crate::duration::Duration;
use crate::stats;
use crate::stats::{PerWidgetStats, StatsModel};
use crate::text;

verus! {

/// What kind of waste was detected.
#[derive(Debug, Clone, PartialEq, Eq)]
pub enum WasteCategory {
    /// A widget touched nearly every cell but likely only needed to update a few.
    FullRedrawForSmallChange { widget: String, cells_written: usize, estimated_needed: usize },
    /// Layout nesting exceeds the configured depth limit.
    DeepNesting { depth: usize, limit: usize },
    /// A widget's render time is suspiciously high for the number of cells,
    /// suggesting per-frame allocation (String, Vec, etc.).
    SuspectedAllocation { widget: String, render_time_us: u64, cells: usize },
    /// A single widget dominates frame time.
    Hog { widget: String, fraction_percent: u64 },
}

/// How bad is it, really.
#[derive(Debug, Clone, Copy, PartialEq, Eq)]
pub enum Severity {
    Hint,
    Warning,
    Critical,
}

/// A single waste finding for a specific frame.
#[derive(Debug, Clone)]
pub struct WasteFinding {
    pub frame: u64,
    pub category: WasteCategory,
    pub severity: Severity,
}

/// A [`WasteCategory`] with its widget's name as a sequence of characters.
pub enum CategoryModel {
    FullRedrawForSmallChange { widget: Seq<char>, cells_written: nat, estimated_needed: nat },
    DeepNesting { depth: nat, limit: nat },
    SuspectedAllocation { widget: Seq<char>, render_time_us: nat, cells: nat },
    Hog { widget: Seq<char>, fraction_percent: nat },
}

/// What a [`WasteFinding`] says.
pub struct FindingModel {
    pub frame: nat,
    pub category: CategoryModel,
    pub severity: Severity,
}

/// One render of a widget: its name, its time in nanoseconds, and the cells it wrote.
pub struct SampleModel {
    pub name: Seq<char>,
    pub time: nat,
    pub cells: nat,
}

impl View for WasteCategory {
    type V = CategoryModel;

    open spec fn view(&self) -> CategoryModel {
        match *self {
            WasteCategory::FullRedrawForSmallChange { widget, cells_written, estimated_needed } =>
                CategoryModel::FullRedrawForSmallChange {
                    widget: widget@,
                    cells_written: cells_written as nat,
                    estimated_needed: estimated_needed as nat,
                },
            WasteCategory::DeepNesting { depth, limit } => CategoryModel::DeepNesting {
                depth: depth as nat,
                limit: limit as nat,
            },
            WasteCategory::SuspectedAllocation { widget, render_time_us, cells } =>
                CategoryModel::SuspectedAllocation {
                    widget: widget@,
                    render_time_us: render_time_us as nat,
                    cells: cells as nat,
                },
            WasteCategory::Hog { widget, fraction_percent } => CategoryModel::Hog {
                widget: widget@,
                fraction_percent: fraction_percent as nat,
            },
        }
    }
}

impl View for WasteFinding {
    type V = FindingModel;

    open spec fn view(&self) -> FindingModel {
        FindingModel {
            frame: self.frame as nat,
            category: self.category@,
            severity: self.severity,
        }
    }
}

/// The name of a severity.
pub open spec fn severity_label(severity: Severity) -> Seq<char> {
    match severity {
        Severity::Hint => "hint"@,
        Severity::Warning => "warning"@,
        Severity::Critical => "CRITICAL"@,
    }
}

impl CategoryModel {
    /// The sentence that describes the waste.
    pub open spec fn message(self) -> Seq<char> {
        match self {
            CategoryModel::FullRedrawForSmallChange { widget, cells_written, estimated_needed } =>
                widget + " wrote "@ + text::decimal(cells_written)
                    + " cells but likely only needed ~"@ + text::decimal(estimated_needed)
                    + ". It redraws the full area on every frame."@,
            CategoryModel::DeepNesting { depth, limit } => "layout nested "@ + text::decimal(depth)
                + " levels deep (limit: "@ + text::decimal(limit) + ")"@,
            CategoryModel::SuspectedAllocation { widget, render_time_us, cells } => widget
                + " took "@ + text::decimal(render_time_us) + "µs for only "@ + text::decimal(
                cells,
            ) + " cells — likely allocating Strings or Vecs every frame"@,
            CategoryModel::Hog { widget, fraction_percent } => widget + " consumed "@
                + text::decimal(fraction_percent) + "% of frame time"@,
        }
    }
}

impl Severity {
    /// The name of the severity.
    pub fn label(&self) -> (label: &'static str)
        ensures
            label@ == severity_label(*self),
    {
        match self {
            Severity::Hint => "hint",
            Severity::Warning => "warning",
            Severity::Critical => "CRITICAL",
        }
    }
}

impl WasteCategory {
    /// The sentence that describes the waste.
    pub fn message(&self) -> (message: String)
        ensures
            message@ == self@.message(),
    {
        let mut out: String = String::new();
        match self {
            WasteCategory::FullRedrawForSmallChange { widget, cells_written, estimated_needed } => {
                out.append(widget.as_str());
                out.append(" wrote ");
                text::push_decimal(&mut out, *cells_written as u128);
                out.append(" cells but likely only needed ~");
                text::push_decimal(&mut out, *estimated_needed as u128);
                out.append(". It redraws the full area on every frame.");
            },
            WasteCategory::DeepNesting { depth, limit } => {
                out.append("layout nested ");
                text::push_decimal(&mut out, *depth as u128);
                out.append(" levels deep (limit: ");
                text::push_decimal(&mut out, *limit as u128);
                out.append(")");
            },
            WasteCategory::SuspectedAllocation { widget, render_time_us, cells } => {
                out.append(widget.as_str());
                out.append(" took ");
                text::push_decimal(&mut out, *render_time_us as u128);
                out.append("µs for only ");
                text::push_decimal(&mut out, *cells as u128);
                out.append(" cells — likely allocating Strings or Vecs every frame");
            },
            WasteCategory::Hog { widget, fraction_percent } => {
                out.append(widget.as_str());
                out.append(" consumed ");
                text::push_decimal(&mut out, *fraction_percent as u128);
                out.append("% of frame time");
            },
        }
        assert(out@ =~= self@.message());
        out
    }
}

/// What each finding says.
pub open spec fn finding_models(findings: Seq<WasteFinding>) -> Seq<FindingModel> {
    findings.map_values(|f: WasteFinding| f@)
}

/// What a widget's entry in a frame stands for.
pub open spec fn sample_model(sample: (String, Duration, usize)) -> SampleModel {
    SampleModel { name: sample.0@, time: sample.1@, cells: sample.2 as nat }
}

/// What each widget's entry in a frame stands for.
pub open spec fn sample_models(samples: Seq<(String, Duration, usize)>) -> Seq<SampleModel> {
    samples.map_values(|s: (String, Duration, usize)| sample_model(s))
}

/// What the statistics of each widget stand for.
pub open spec fn stats_models(stats: Map<Seq<char>, PerWidgetStats>) -> Map<Seq<char>, StatsModel> {
    stats.map_values(|s: PerWidgetStats| s@)
}

/// Whether `time` is more than `percent` percent of `total`.
pub open spec fn exceeds_percent(time: nat, total: nat, percent: nat) -> bool {
    100 * time > percent * total
}

/// How many percent of `total` the given `time` is, to the nearest whole number and as far as a
/// `u64` can tell; zero if `total` is.
pub open spec fn percent_of(time: nat, total: nat) -> nat {
    if total == 0 {
        0
    } else {
        capped_u64((200 * time + total) / (2 * total))
    }
}

/// `n`, or the largest `u64` if `n` is larger than that.
pub open spec fn capped_u64(n: nat) -> nat {
    if n <= u64::MAX {
        n
    } else {
        u64::MAX as nat
    }
}

/// The finding that a widget takes more than 60% of the frame's time, critical if it takes more
/// than 85%.
pub open spec fn hog(frame: nat, frame_time: nat, w: SampleModel) -> Seq<FindingModel> {
    if frame_time > 0 && exceeds_percent(w.time, frame_time, 60) {
        seq![
            FindingModel {
                frame,
                category: CategoryModel::Hog {
                    widget: w.name,
                    fraction_percent: percent_of(w.time, frame_time),
                },
                severity: if exceeds_percent(w.time, frame_time, 85) {
                    Severity::Critical
                } else {
                    Severity::Warning
                },
            },
        ]
    } else {
        seq![]
    }
}

/// The finding that a widget rendered more than three times writes more than 500 cells in a full
/// redraw. A tenth of the cells is the estimate of what it needed.
pub open spec fn full_redraw(frame: nat, w: SampleModel, stats: StatsModel) -> Seq<FindingModel> {
    if stats.render_count > 3 && stats.last_was_full_redraw && w.cells > 500 {
        seq![
            FindingModel {
                frame,
                category: CategoryModel::FullRedrawForSmallChange {
                    widget: w.name,
                    cells_written: w.cells,
                    estimated_needed: w.cells / 10,
                },
                severity: if w.cells > 5000 {
                    Severity::Warning
                } else {
                    Severity::Hint
                },
            },
        ]
    } else {
        seq![]
    }
}

/// The finding that a widget is slow for its cells in this frame, and was in the two before.
pub open spec fn suspected_allocation(frame: nat, w: SampleModel, stats: StatsModel) -> Seq<
    FindingModel,
> {
    if stats::is_slow(w.time, w.cells) && stats.slow_frames >= 3 && stats.last_slow_frame
        == frame {
        seq![
            FindingModel {
                frame,
                category: CategoryModel::SuspectedAllocation {
                    widget: w.name,
                    render_time_us: capped_u64(w.time / 1000),
                    cells: w.cells,
                },
                severity: if stats::micros_per_cell(w.time, w.cells) > 200 {
                    Severity::Warning
                } else {
                    Severity::Hint
                },
            },
        ]
    } else {
        seq![]
    }
}

/// The findings about one render of a widget.
pub open spec fn widget_findings(
    frame: nat,
    frame_time: nat,
    w: SampleModel,
    all_stats: Map<Seq<char>, StatsModel>,
) -> Seq<FindingModel> {
    if all_stats.contains_key(w.name) {
        hog(frame, frame_time, w) + full_redraw(frame, w, all_stats[w.name])
            + suspected_allocation(frame, w, all_stats[w.name])
    } else {
        hog(frame, frame_time, w)
    }
}

/// The findings about each of the widgets, in order.
pub open spec fn all_widget_findings(
    frame: nat,
    frame_time: nat,
    widgets: Seq<SampleModel>,
    all_stats: Map<Seq<char>, StatsModel>,
) -> Seq<FindingModel>
    decreases widgets.len(),
{
    if widgets.len() == 0 {
        seq![]
    } else {
        all_widget_findings(frame, frame_time, widgets.drop_last(), all_stats) + widget_findings(
            frame,
            frame_time,
            widgets.last(),
            all_stats,
        )
    }
}

/// How deep a widget was nested in `frame`, as its statistics tell; zero if they do not.
pub open spec fn depth_in(
    frame: nat,
    w: SampleModel,
    all_stats: Map<Seq<char>, StatsModel>,
) -> nat {
    if all_stats.contains_key(w.name) && all_stats[w.name].last_frame == frame {
        all_stats[w.name].last_frame_depth
    } else {
        0
    }
}

/// How deep the deepest of the widgets was nested in `frame`.
pub open spec fn rendered_depth(
    frame: nat,
    widgets: Seq<SampleModel>,
    all_stats: Map<Seq<char>, StatsModel>,
) -> nat
    decreases widgets.len(),
{
    if widgets.len() == 0 {
        0
    } else {
        let others = rendered_depth(frame, widgets.drop_last(), all_stats);
        let last = depth_in(frame, widgets.last(), all_stats);
        if others < last {
            last
        } else {
            others
        }
    }
}

/// The finding that a frame is nested `depth` deep.
pub open spec fn nesting_finding(frame: nat, depth: nat, limit: nat) -> FindingModel {
    FindingModel {
        frame,
        category: CategoryModel::DeepNesting { depth, limit },
        severity: Severity::Hint,
    }
}

/// The finding that a frame is nested deeper than the limit, unless the count of its widgets gives
/// the same.
pub open spec fn deep_nesting(frame: nat, depth: nat, widgets: nat, limit: nat) -> Seq<
    FindingModel,
> {
    if depth > limit && !(widgets > 2 * limit && widgets == depth) {
        seq![nesting_finding(frame, depth, limit)]
    } else {
        seq![]
    }
}

/// The cross-check on nesting: more than twice as many widgets as the limit are taken for as many
/// levels.
pub open spec fn many_widgets(frame: nat, widgets: nat, limit: nat) -> Seq<FindingModel> {
    if widgets > 2 * limit {
        seq![nesting_finding(frame, widgets, limit)]
    } else {
        seq![]
    }
}

/// All findings about a frame: those about each widget in order, then those about nesting.
pub open spec fn frame_findings(
    frame: nat,
    frame_time: nat,
    widgets: Seq<SampleModel>,
    all_stats: Map<Seq<char>, StatsModel>,
    budget: BudgetModel,
) -> Seq<FindingModel> {
    all_widget_findings(frame, frame_time, widgets, all_stats) + deep_nesting(
        frame,
        rendered_depth(frame, widgets, all_stats),
        widgets.len(),
        budget.max_widget_depth,
    ) + many_widgets(frame, widgets.len(), budget.max_widget_depth)
}

/// How many percent of `total` the given `time` is, to the nearest whole number; zero if `total`
/// is.
pub fn percent(time: Duration, total: Duration) -> (percent: u64)
    ensures
        percent == percent_of(time@, total@),
{
    if total.is_zero() {
        return 0;
    }
    cap_u64((time.as_nanos() * 200 + total.as_nanos()) / (total.as_nanos() * 2))
}

/// `n`, or the largest `u64` if `n` is larger than that.
fn cap_u64(n: u128) -> (capped: u64)
    ensures
        capped == capped_u64(n as nat),
{
    if n <= u64::MAX as u128 {
        n as u64
    } else {
        u64::MAX
    }
}

/// Whether there are more than twice as many widgets as the limit.
pub fn has_many_widgets(widgets: usize, limit: usize) -> (many: bool)
    ensures
        many == (widgets > 2 * limit),
{
    limit < widgets / 2 + widgets % 2
}

/// How deep the deepest of the widgets was nested in `frame`, as their statistics tell.
pub fn deepest_render(
    frame: u64,
    widgets: &[(String, Duration, usize)],
    all_stats: &StringHashMap<PerWidgetStats>,
) -> (depth: usize)
    ensures
        depth == rendered_depth(frame as nat, sample_models(widgets@), stats_models(all_stats@)),
{
    let ghost samples = sample_models(widgets@);
    let ghost models = stats_models(all_stats@);
    let mut depth: usize = 0;
    let mut i: usize = 0;
    while i < widgets.len()
        invariant
            i <= widgets.len(),
            samples == sample_models(widgets@),
            models == stats_models(all_stats@),
            depth == rendered_depth(frame as nat, samples.take(i as int), models),
        decreases widgets.len() - i,
    {
        assert(samples.take(i + 1).drop_last() =~= samples.take(i as int));
        assert(samples.take(i + 1).last() == sample_model(widgets@[i as int]));
        if let Some(stats) = all_stats.get(widgets[i].0.as_str()) {
            if stats.last_frame == frame && depth < stats.last_frame_depth {
                depth = stats.last_frame_depth;
            }
        }
        i = i + 1;
    }
    assert(samples.take(i as int) =~= samples);
    depth
}

/// Whether a widget that took `time` takes more than 60% of a frame that took `total`.
pub fn is_hog(time: Duration, total: Duration) -> (hog: bool)
    ensures
        hog == (total@ > 0 && exceeds_percent(time@, total@, 60)),
{
    !total.is_zero() && time.as_nanos() * 100 > total.as_nanos() * 60
}

impl WasteFinding {
    /// The finding that a frame is nested `depth` deep.
    pub fn nesting(frame: u64, depth: usize, limit: usize) -> (finding: WasteFinding)
        ensures
            finding@ == nesting_finding(frame as nat, depth as nat, limit as nat),
    {
        WasteFinding {
            frame,
            category: WasteCategory::DeepNesting { depth, limit },
            severity: Severity::Hint,
        }
    }
}

/// The waste detector. Stateless between calls: all context comes from profiler data.
pub struct WasteDetector {
    last_findings: Vec<WasteFinding>,
}

impl View for WasteDetector {
    type V = Seq<FindingModel>;

    /// The findings stashed last.
    closed spec fn view(&self) -> Seq<FindingModel> {
        finding_models(self.last_findings@)
    }
}

impl WasteDetector {
    /// A detector with no findings.
    pub fn new() -> (detector: WasteDetector)
        ensures
            detector@ == Seq::<FindingModel>::empty(),
    {
        let detector = WasteDetector { last_findings: Vec::new() };
        assert(detector@ =~= Seq::<FindingModel>::empty());
        detector
    }

    /// Adds the findings about one render of a widget.
    fn detect_widget(
        frame: u64,
        frame_time: Duration,
        widget: &(String, Duration, usize),
        all_stats: &StringHashMap<PerWidgetStats>,
        findings: &mut Vec<WasteFinding>,
    )
        ensures
            finding_models(final(findings)@) == finding_models(old(findings)@) + widget_findings(
                frame as nat,
                frame_time@,
                sample_model(*widget),
                stats_models(all_stats@),
            ),
    {
        let time = widget.1;
        let cells: usize = widget.2;
        let ghost w = sample_model(*widget);
        let ghost before = finding_models(findings@);

        if is_hog(time, frame_time) {
            findings.push(
                WasteFinding {
                    frame,
                    category: WasteCategory::Hog {
                        widget: widget.0.clone(),
                        fraction_percent: percent(time, frame_time),
                    },
                    severity: if time.as_nanos() * 100 > frame_time.as_nanos() * 85 {
                        Severity::Critical
                    } else {
                        Severity::Warning
                    },
                },
            );
        }
        assert(finding_models(findings@) =~= before + hog(frame as nat, frame_time@, w));

        if let Some(stats) = all_stats.get(widget.0.as_str()) {
            let ghost hogs = finding_models(findings@);
            if stats.render_count > 3 && stats.last_was_full_redraw && cells > 500 {
                findings.push(
                    WasteFinding {
                        frame,
                        category: WasteCategory::FullRedrawForSmallChange {
                            widget: widget.0.clone(),
                            cells_written: cells,
                            estimated_needed: cells / 10,
                        },
                        severity: if cells > 5000 {
                            Severity::Warning
                        } else {
                            Severity::Hint
                        },
                    },
                );
            }
            let ghost redraws = finding_models(findings@);
            assert(redraws =~= hogs + full_redraw(frame as nat, w, stats@));

            if stats::check_slow(time, cells) && stats.slow_frames >= 3 && stats.last_slow_frame
                == frame {
                let micros: u128 = time.as_micros();
                findings.push(
                    WasteFinding {
                        frame,
                        category: WasteCategory::SuspectedAllocation {
                            widget: widget.0.clone(),
                            render_time_us: cap_u64(micros),
                            cells,
                        },
                        severity: if micros / cells as u128 > 200 {
                            Severity::Warning
                        } else {
                            Severity::Hint
                        },
                    },
                );
            }
            assert(finding_models(findings@) =~= redraws + suspected_allocation(
                frame as nat,
                w,
                stats@,
            ));
            assert(finding_models(findings@) =~= before + widget_findings(
                frame as nat,
                frame_time@,
                w,
                stats_models(all_stats@),
            ));
        }
    }

    /// Analyze a frame's data and return findings.
    ///
    /// Shares of the frame's time are compared in whole nanoseconds, without rounding. A widget is
    /// suspected of allocating once it is slow for its cells in a third frame in a row, as its
    /// statistics tell. So do they tell how deep it was nested; as a cross-check, nesting is also
    /// approximated by the number of widgets in the frame.
    pub fn detect(
        &self,
        frame: u64,
        frame_time: Duration,
        widgets: &[(String, Duration, usize)],
        all_stats: &StringHashMap<PerWidgetStats>,
        budget: &FrameBudget,
    ) -> (findings: Vec<WasteFinding>)
        ensures
            finding_models(findings@) == frame_findings(
                frame as nat,
                frame_time@,
                sample_models(widgets@),
                stats_models(all_stats@),
                budget@,
            ),
    {
        let mut findings: Vec<WasteFinding> = Vec::new();
        let ghost samples = sample_models(widgets@);
        let ghost stats = stats_models(all_stats@);
        let mut i: usize = 0;
        assert(finding_models(findings@) =~= all_widget_findings(
            frame as nat,
            frame_time@,
            samples.take(0),
            stats,
        ));
        while i < widgets.len()
            invariant
                i <= widgets.len(),
                samples == sample_models(widgets@),
                stats == stats_models(all_stats@),
                finding_models(findings@) == all_widget_findings(
                    frame as nat,
                    frame_time@,
                    samples.take(i as int),
                    stats,
                ),
            decreases widgets.len() - i,
        {
            Self::detect_widget(frame, frame_time, &widgets[i], all_stats, &mut findings);
            assert(samples.take(i + 1).drop_last() =~= samples.take(i as int));
            i = i + 1;
        }
        assert(samples.take(i as int) =~= samples);
        let ghost before = finding_models(findings@);

        let limit: usize = budget.max_widget_depth;
        let depth: usize = deepest_render(frame, widgets, all_stats);
        let many: bool = has_many_widgets(widgets.len(), limit);
        if depth > limit && !(many && widgets.len() == depth) {
            findings.push(WasteFinding::nesting(frame, depth, limit));
        }
        let ghost deep = finding_models(findings@);
        assert(deep =~= before + deep_nesting(
            frame as nat,
            depth as nat,
            samples.len(),
            limit as nat,
        ));
        if many {
            findings.push(WasteFinding::nesting(frame, widgets.len(), limit));
        }
        assert(finding_models(findings@) =~= deep + many_widgets(
            frame as nat,
            samples.len(),
            limit as nat,
        ));
        findings
    }

    /// Stash findings for later retrieval (called by the profiler at `end_frame`).
    pub fn stash_findings(&mut self, _frame: u64, findings: Vec<WasteFinding>)
        ensures
            final(self)@ == finding_models(findings@),
    {
        self.last_findings = findings;
    }

    /// Retrieve the findings from the last frame.
    pub fn last_findings(&self) -> (findings: &[WasteFinding])
        ensures
            finding_models(findings@) == self@,
    {
        self.last_findings.as_slice()
    }
}

impl Default for WasteDetector {
    fn default() -> (detector: WasteDetector)
        ensures
            detector@ == Seq::<FindingModel>::empty(),
    {
        WasteDetector::new()
    }
}

} // verus!
