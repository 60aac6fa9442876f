//! Human-readable reports.

use vstd::prelude::*;

use crate::detector;
use crate::detector::{FindingModel, SampleModel, Severity, WasteFinding};
use crate::duration::Duration;
use crate::profiler;
use crate::profiler::{ProfilerModel, RenderProfiler};
use crate::text;

verus! {

/// A report on the last frame of a profiler.
///
/// Its text has a line for the frame, one for each widget, and, where there are findings, one that
/// counts them and one for each:
///
/// ```text
/// Frame 847: 12.0ms total (⚠ OVER BUDGET, budget: 16ms) 2080 cells
///   StatusBar: 8.0ms (67%) for 80 cells — HOG
///   Body: 3.0ms (25%) for 2000 cells
///   1 findings: 0 critical, 1 warnings, 0 hints
///     [warning] StatusBar consumed 67% of frame time
/// ```
///
/// A frame that violates any of its limits is over budget.
pub struct ReportFormatter<'a> {
    profiler: &'a RenderProfiler,
}

impl<'a> View for ReportFormatter<'a> {
    type V = ProfilerModel;

    /// The state of the profiler that the report is on.
    closed spec fn view(&self) -> ProfilerModel {
        self.profiler@
    }
}

/// The line of a frame.
pub open spec fn frame_line(m: ProfilerModel) -> Seq<char> {
    let frame = m.history.last();
    "Frame "@ + text::decimal(frame.frame_number) + ": "@ + text::millis(frame.total_time)
        + "ms total ("@ + (if frame.violations.len() > 0 {
        "⚠ OVER BUDGET, "@
    } else {
        seq![]
    }) + "budget: "@ + text::decimal(m.budget.max_render_time / 1_000_000) + "ms) "@
        + text::decimal(profiler::total_cells(frame.widgets)) + " cells"@
}

/// The line of a widget in a frame that took `total` nanoseconds.
pub open spec fn widget_line(w: SampleModel, total: nat) -> Seq<char> {
    "\n  "@ + w.name + ": "@ + text::millis(w.time) + "ms ("@ + text::decimal(
        detector::percent_of(w.time, total),
    ) + "%) for "@ + text::decimal(w.cells) + " cells"@ + (if total > 0
        && detector::exceeds_percent(w.time, total, 60) {
        " — HOG"@
    } else {
        seq![]
    })
}

/// The lines of the widgets in a frame that took `total` nanoseconds.
pub open spec fn widget_lines(widgets: Seq<SampleModel>, total: nat) -> Seq<char>
    decreases widgets.len(),
{
    if widgets.len() == 0 {
        seq![]
    } else {
        widget_lines(widgets.drop_last(), total) + widget_line(widgets.last(), total)
    }
}

/// How many of the findings are of the given severity.
pub open spec fn count(findings: Seq<FindingModel>, severity: Severity) -> nat {
    findings.filter(|f: FindingModel| f.severity == severity).len()
}

/// The line that counts the findings.
pub open spec fn count_line(findings: Seq<FindingModel>) -> Seq<char> {
    "\n  "@ + text::decimal(findings.len()) + " findings: "@ + text::decimal(
        count(findings, Severity::Critical),
    ) + " critical, "@ + text::decimal(count(findings, Severity::Warning)) + " warnings, "@
        + text::decimal(count(findings, Severity::Hint)) + " hints"@
}

/// The line of a finding.
pub open spec fn finding_line(finding: FindingModel) -> Seq<char> {
    "\n    ["@ + detector::severity_label(finding.severity) + "] "@ + finding.category.message()
}

/// The lines of the findings.
pub open spec fn finding_lines(findings: Seq<FindingModel>) -> Seq<char>
    decreases findings.len(),
{
    if findings.len() == 0 {
        seq![]
    } else {
        finding_lines(findings.drop_last()) + finding_line(findings.last())
    }
}

/// The whole report.
pub open spec fn report_text(m: ProfilerModel) -> Seq<char> {
    if m.history.len() == 0 {
        "No frames recorded"@
    } else {
        let frame = m.history.last();
        frame_line(m) + widget_lines(frame.widgets, frame.total_time) + (if m.findings.len() == 0 {
            seq![]
        } else {
            count_line(m.findings) + finding_lines(m.findings)
        })
    }
}

/// Appends the line of a widget.
fn push_widget_line(out: &mut String, widget: &(String, Duration, usize), total: Duration)
    ensures
        final(out)@ == old(out)@ + widget_line(detector::sample_model(*widget), total@),
{
    let time = widget.1;
    out.append("\n  ");
    out.append(widget.0.as_str());
    out.append(": ");
    text::push_millis(out, time);
    out.append("ms (");
    text::push_decimal(out, detector::percent(time, total) as u128);
    out.append("%) for ");
    text::push_decimal(out, widget.2 as u128);
    out.append(" cells");
    if detector::is_hog(time, total) {
        out.append(" — HOG");
    }
    assert(out@ =~= old(out)@ + widget_line(detector::sample_model(*widget), total@));
}

/// Appends the line that counts the findings.
fn push_count_line(out: &mut String, findings: &[WasteFinding])
    ensures
        final(out)@ == old(out)@ + count_line(detector::finding_models(findings@)),
{
    let ghost models = detector::finding_models(findings@);
    let mut critical: usize = 0;
    let mut warnings: usize = 0;
    let mut hints: usize = 0;
    let mut i: usize = 0;
    proof {
        reveal(Seq::filter);
    }
    while i < findings.len()
        invariant
            i <= findings.len(),
            models == detector::finding_models(findings@),
            critical == count(models.take(i as int), Severity::Critical),
            warnings == count(models.take(i as int), Severity::Warning),
            hints == count(models.take(i as int), Severity::Hint),
            critical + warnings + hints == i,
        decreases findings.len() - i,
    {
        proof {
            reveal(Seq::filter);
            assert(models.take(i + 1).drop_last() =~= models.take(i as int));
            assert(models.take(i + 1).last() == findings@[i as int]@);
        }
        match findings[i].severity {
            Severity::Critical => {
                critical = critical + 1;
            },
            Severity::Warning => {
                warnings = warnings + 1;
            },
            Severity::Hint => {
                hints = hints + 1;
            },
        }
        i = i + 1;
    }
    assert(models.take(i as int) =~= models);
    out.append("\n  ");
    text::push_decimal(out, findings.len() as u128);
    out.append(" findings: ");
    text::push_decimal(out, critical as u128);
    out.append(" critical, ");
    text::push_decimal(out, warnings as u128);
    out.append(" warnings, ");
    text::push_decimal(out, hints as u128);
    out.append(" hints");
    assert(out@ =~= old(out)@ + count_line(models));
}

impl<'a> ReportFormatter<'a> {
    /// A report on the last frame of `profiler`.
    pub fn new(profiler: &'a RenderProfiler) -> (report: ReportFormatter<'a>)
        ensures
            report@ == profiler@,
    {
        ReportFormatter { profiler }
    }

    /// The text of the report.
    pub fn render(&self) -> (report: String)
        requires
            self@.inv(),
        ensures
            report@ == report_text(self@),
    {
        let history = self.profiler.history();
        let mut out: String = String::new();
        if history.len() == 0 {
            out.append("No frames recorded");
            assert(out@ =~= report_text(self@));
            return out;
        }
        let ghost m = self@;
        let frame = &history[history.len() - 1];
        let total = frame.total_time;
        assert(m.history.last() == frame.model());
        out.append("Frame ");
        text::push_decimal(&mut out, frame.frame_number as u128);
        out.append(": ");
        text::push_millis(&mut out, total);
        out.append("ms total (");
        if frame.violations.len() > 0 {
            out.append("⚠ OVER BUDGET, ");
        }
        out.append("budget: ");
        text::push_decimal(&mut out, self.profiler.budget().max_render_time.as_nanos() / 1_000_000);
        out.append("ms) ");
        text::push_decimal(&mut out, self.profiler.last_frame_total_cells() as u128);
        out.append(" cells");
        assert(out@ =~= frame_line(m));

        let ghost samples = detector::sample_models(frame.widget_times@);
        let mut i: usize = 0;
        assert(out@ =~= frame_line(m) + widget_lines(samples.take(0), total@));
        while i < frame.widget_times.len()
            invariant
                i <= frame.widget_times.len(),
                samples == detector::sample_models(frame.widget_times@),
                out@ == frame_line(m) + widget_lines(samples.take(i as int), total@),
            decreases frame.widget_times.len() - i,
        {
            push_widget_line(&mut out, &frame.widget_times[i], total);
            assert(samples.take(i + 1).drop_last() =~= samples.take(i as int));
            i = i + 1;
            assert(out@ =~= frame_line(m) + widget_lines(samples.take(i as int), total@));
        }
        assert(samples.take(i as int) =~= samples);

        let findings = self.profiler.last_findings();
        if findings.len() > 0 {
            push_count_line(&mut out, findings);
            let ghost head = out@;
            let ghost models = detector::finding_models(findings@);
            let mut j: usize = 0;
            assert(out@ =~= head + finding_lines(models.take(0)));
            while j < findings.len()
                invariant
                    j <= findings.len(),
                    models == detector::finding_models(findings@),
                    out@ == head + finding_lines(models.take(j as int)),
                decreases findings.len() - j,
            {
                out.append("\n    [");
                out.append(findings[j].severity.label());
                out.append("] ");
                out.append(findings[j].category.message().as_str());
                assert(models.take(j + 1).drop_last() =~= models.take(j as int));
                assert(models.take(j + 1).last() == findings@[j as int]@);
                j = j + 1;
                assert(out@ =~= head + finding_lines(models.take(j as int)));
            }
            assert(models.take(j as int) =~= models);
        }
        assert(out@ =~= report_text(m));
        out
    }
}

} // verus!
