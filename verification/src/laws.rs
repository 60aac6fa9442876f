//! What holds of a profiler over many calls.

use vstd::prelude::*;

use crate::budget;
use crate::budget::{BudgetModel, ViolationModel};
use crate::detector;
use crate::detector::{FindingModel, SampleModel, Severity};
use crate::duration;
use crate::meaning;
use crate::profiler;
use crate::profiler::{FrameModel, ProfilerModel, MAX_HISTORY};
use crate::report;
use crate::stats;
use crate::stats::StatsModel;

verus! {

/// A call of a profiler, with the clock's reading.
pub enum Step {
    BeginFrame { now: nat },
    BeginWidget { name: Seq<char>, now: nat },
    EndWidget { now: nat, cells: nat },
    EndFrame { now: nat },
}

/// A render of a widget, the frame that it ended in, and how deep the widget was nested.
pub struct Render {
    pub frame: nat,
    pub depth: nat,
    pub sample: SampleModel,
}

impl ProfilerModel {
    /// The state after one call.
    pub open spec fn step(self, step: Step) -> ProfilerModel {
        match step {
            Step::BeginFrame { now } => self.begin_frame(now),
            Step::BeginWidget { name, now } => self.begin_widget(name, now),
            Step::EndWidget { now, cells } => self.end_widget(now, cells),
            Step::EndFrame { now } => self.end_frame(now),
        }
    }

    /// The state after the calls, in order.
    pub open spec fn run(self, steps: Seq<Step>) -> ProfilerModel
        decreases steps.len(),
    {
        if steps.len() == 0 {
            self
        } else {
            self.run(steps.drop_last()).step(steps.last())
        }
    }

    /// The frames that the calls complete, in order.
    pub open spec fn completed(self, steps: Seq<Step>) -> Seq<FrameModel>
        decreases steps.len(),
    {
        if steps.len() == 0 {
            seq![]
        } else {
            let earlier = self.completed(steps.drop_last());
            match steps.last() {
                Step::EndFrame { now } => earlier.push(
                    self.run(steps.drop_last()).frame_record(now),
                ),
                _ => earlier,
            }
        }
    }

    /// The renders that the calls end, in order.
    pub open spec fn renders(self, steps: Seq<Step>) -> Seq<Render>
        decreases steps.len(),
    {
        if steps.len() == 0 {
            seq![]
        } else {
            let earlier = self.renders(steps.drop_last());
            let before = self.run(steps.drop_last());
            match steps.last() {
                Step::EndWidget { now, cells } if before.open_widgets.len() > 0 => earlier.push(
                    Render {
                        frame: before.frame_number,
                        depth: before.open_widgets.len(),
                        sample: SampleModel {
                            name: before.open_widgets.last().name,
                            time: if before.open_widgets.last().start <= now {
                                (now - before.open_widgets.last().start) as nat
                            } else {
                                0
                            },
                            cells,
                        },
                    },
                ),
                _ => earlier,
            }
        }
    }
}

impl ProfilerModel {
    /// The state after the calls, in order, where the clock's last reading at each is as given. A
    /// call that reads the clock makes the reading its own; another leaves it as it was.
    pub open spec fn run_with_clock(self, steps: Seq<Step>, clock: Seq<nat>) -> ProfilerModel
        decreases steps.len(),
    {
        if steps.len() == 0 {
            self
        } else {
            self.run_with_clock(steps.drop_last(), clock).tick(clock[steps.len() - 1]).step(
                steps.last(),
            )
        }
    }
}

/// A reading of the clock and a call do not depend on each other, but for the reading that is handed
/// to the call.
pub proof fn law_clock_is_apart(m: ProfilerModel, now: nat, step: Step)
    ensures
        m.tick(now).step(step) == m.step(step).tick(now),
{
}

/// To take a reading that does not move the clock changes nothing.
pub proof fn law_clock_at_rest(m: ProfilerModel)
    ensures
        m.tick(m.clock) == m,
{
}

/// Calls that read the clock and calls that are handed a reading lead to the same state, but for the
/// clock's last reading: what holds of the one holds of the other.
pub proof fn law_calls_may_read_the_clock(m: ProfilerModel, steps: Seq<Step>, clock: Seq<nat>)
    ensures
        m.run_with_clock(steps, clock) == m.run(steps).tick(
            if steps.len() == 0 {
                m.clock
            } else {
                clock[steps.len() - 1]
            },
        ),
    decreases steps.len(),
{
    if steps.len() > 0 {
        law_calls_may_read_the_clock(m, steps.drop_last(), clock);
        law_clock_is_apart(m.run(steps.drop_last()), clock[steps.len() - 1], steps.last());
    }
}

/// How many of the calls begin a frame.
pub open spec fn frames_begun(steps: Seq<Step>) -> nat
    decreases steps.len(),
{
    if steps.len() == 0 {
        0
    } else {
        frames_begun(steps.drop_last()) + (if steps.last() is BeginFrame {
            1nat
        } else {
            0
        })
    }
}

/// The renders of the named widget, in order.
pub open spec fn renders_of(renders: Seq<Render>, name: Seq<char>) -> Seq<SampleModel>
    decreases renders.len(),
{
    if renders.len() == 0 {
        seq![]
    } else {
        let earlier = renders_of(renders.drop_last(), name);
        if renders.last().sample.name == name {
            earlier.push(renders.last().sample)
        } else {
            earlier
        }
    }
}

/// The nanoseconds that the renders took in all.
pub open spec fn total_time(samples: Seq<SampleModel>) -> nat
    decreases samples.len(),
{
    if samples.len() == 0 {
        0
    } else {
        total_time(samples.drop_last()) + samples.last().time
    }
}

/// The cells of the render that has `n` others after it; zero if there is none.
pub open spec fn cells_before_last(samples: Seq<SampleModel>, n: nat) -> nat {
    if n < samples.len() {
        samples[samples.len() - 1 - n].cells
    } else {
        0
    }
}

/// Whether a render is a slow one of the named widget, in the given frame: it wrote cells, and took
/// 50,000 nanoseconds or more for each.
pub open spec fn slow_render(render: Render, name: Seq<char>, frame: int) -> bool {
    &&& render.sample.name == name
    &&& render.frame == frame
    &&& render.sample.cells > 0
    &&& render.sample.time >= 50_000 * render.sample.cells
}

/// Whether the named widget had a slow render in the given frame.
pub open spec fn slow_in(renders: Seq<Render>, name: Seq<char>, frame: int) -> bool {
    exists|i: int| 0 <= i < renders.len() && slow_render(#[trigger] renders[i], name, frame)
}

/// The history rolls: it holds the frames completed last, in order, up to 120 of them and no others.
pub proof fn law_history_rolls(m: ProfilerModel, steps: Seq<Step>)
    requires
        m.inv(),
    ensures
        ({
            let all = m.history + m.completed(steps);
            let kept = m.run(steps).history;
            &&& kept.len() == (if all.len() < 120 {
                all.len()
            } else {
                120
            })
            &&& forall|i: int|
                0 <= i < kept.len() ==> #[trigger] kept[i] == all[all.len() - kept.len() + i]
        }),
{
    lemma_history_rolls(m, steps);
}

/// The history is the end of all that it was given.
proof fn lemma_history_rolls(m: ProfilerModel, steps: Seq<Step>)
    requires
        m.inv(),
    ensures
        m.run(steps).history == profiler::keep_last(
            m.history + m.completed(steps),
            MAX_HISTORY as nat,
        ),
    decreases steps.len(),
{
    if steps.len() == 0 {
        assert(m.history + m.completed(steps) =~= m.history);
    } else {
        lemma_history_rolls(m, steps.drop_last());
        let before = m.run(steps.drop_last());
        let all = m.history + m.completed(steps.drop_last());
        if let Step::EndFrame { now } = steps.last() {
            let record = before.frame_record(now);
            assert(m.history + m.completed(steps) =~= all.push(record));
            assert(profiler::keep_last(before.history.push(record), MAX_HISTORY as nat)
                =~= profiler::keep_last(all.push(record), MAX_HISTORY as nat));
        }
    }
}

/// Frames are numbered in the order in which they begin, the first one with 1.
pub proof fn law_frames_are_counted(budget: BudgetModel, steps: Seq<Step>)
    ensures
        ProfilerModel::start(budget).run(steps).frame_number == frames_begun(steps),
    decreases steps.len(),
{
    if steps.len() > 0 {
        law_frames_are_counted(budget, steps.drop_last());
    }
}

/// The statistics of a widget cover its renders since the profiler was made: how many there were,
/// how long they took in all, how long the longest took, the cells of the last one and of the one
/// before, and whether these differ by more than half of the earlier ones. A widget has statistics if
/// and only if it was rendered.
pub proof fn law_stats_cover_lifetime(budget: BudgetModel, steps: Seq<Step>, name: Seq<char>)
    ensures
        ({
            let start = ProfilerModel::start(budget);
            let own = renders_of(start.renders(steps), name);
            let end = start.run(steps);
            let stats = end.stats_of(name);
            &&& end.stats.contains_key(name) <==> own.len() > 0
            &&& stats.name == name
            &&& stats.render_count == own.len()
            &&& stats.total_time == (if total_time(own) <= 18_446_744_073_709_551_615_999_999_999 {
                total_time(own)
            } else {
                18_446_744_073_709_551_615_999_999_999
            })
            &&& forall|i: int| 0 <= i < own.len() ==> (#[trigger] own[i]).time <= stats.peak_time
            &&& own.len() > 0 ==> exists|i: int|
                0 <= i < own.len() && (#[trigger] own[i]).time == stats.peak_time
            &&& stats.last_cells == cells_before_last(own, 0)
            &&& stats.prev_cells == cells_before_last(own, 1)
            &&& stats.last_was_full_redraw <==> own.len() >= 2 && (2 * cells_before_last(own, 0) > 3
                * cells_before_last(own, 1) || 2 * cells_before_last(own, 0) < cells_before_last(
                own,
                1,
            ))
        }),
    decreases steps.len(),
{
    let start = ProfilerModel::start(budget);
    if steps.len() > 0 {
        law_stats_cover_lifetime(budget, steps.drop_last(), name);
        let before = start.run(steps.drop_last());
        let renders = start.renders(steps);
        let earlier = renders_of(start.renders(steps.drop_last()), name);
        let own = renders_of(renders, name);
        if steps.last() is EndWidget && before.open_widgets.len() > 0 {
            assert(renders.drop_last() =~= start.renders(steps.drop_last()));
            if before.open_widgets.last().name == name {
                let peak = start.run(steps).stats_of(name).peak_time;
                assert(own.drop_last() =~= earlier);
                assert forall|i: int| 0 <= i < own.len() implies (#[trigger] own[i]).time
                    <= peak by {
                    if i < earlier.len() {
                        assert(own[i] == earlier[i]);
                    }
                }
                if own.last().time < peak {
                    let i = choose|i: int|
                        0 <= i < earlier.len() && (#[trigger] earlier[i]).time == peak;
                    assert(own[i] == earlier[i]);
                } else {
                    assert(own[own.len() - 1].time == peak);
                }
            }
        }
    }
}

/// Every state that calls lead to from a new profiler is valid: the readings are spans that the
/// clock can give, and frames are completed where their cells can be counted.
pub proof fn law_reached_states_are_valid(budget: BudgetModel, steps: Seq<Step>)
    requires
        forall|i: int|
            0 <= i < steps.len() ==> reading(#[trigger] steps[i]) <= duration::MAX_NANOS,
        forall|i: int|
            0 <= i < steps.len() && #[trigger] steps[i] is EndFrame ==> ProfilerModel::start(
                budget,
            ).run(steps.take(i)).can_end_frame(),
    ensures
        ProfilerModel::start(budget).run(steps).inv(),
    decreases steps.len(),
{
    let start = ProfilerModel::start(budget);
    if steps.len() > 0 {
        let init = steps.drop_last();
        let n = steps.len() - 1;
        assert forall|i: int| 0 <= i < init.len() implies reading(#[trigger] init[i])
            <= duration::MAX_NANOS && (init[i] is EndFrame ==> start.run(
            init.take(i),
        ).can_end_frame()) by {
            assert(init[i] == steps[i]);
            assert(init.take(i) =~= steps.take(i));
        }
        law_reached_states_are_valid(budget, init);
        let before = start.run(init);
        assert(steps[n] == steps.last());
        assert(steps.take(n) =~= init);
        match steps.last() {
            Step::BeginFrame { now } => before.lemma_begin_frame_inv(now),
            Step::BeginWidget { name, now } => before.lemma_begin_widget_inv(name, now),
            Step::EndWidget { now, cells } => before.lemma_end_widget_inv(now, cells),
            Step::EndFrame { now } => before.lemma_end_frame_inv(now),
        }
    }
}

/// The statistics that a profiler keeps of a widget are its own and of at least one render. The
/// total is at least the peak, and at most the peak for each render. After the first render there
/// are no cells before it, and it is no full redraw.
pub proof fn law_stats_are_consistent(m: ProfilerModel, name: Seq<char>)
    requires
        m.inv(),
        m.stats.contains_key(name),
    ensures
        ({
            let s = m.stats[name];
            &&& s.name == name
            &&& s.render_count >= 1
            &&& s.peak_time <= s.total_time
            &&& s.total_time <= s.render_count * s.peak_time
            &&& s.render_count == 1 ==> s.prev_cells == 0 && !s.last_was_full_redraw
        }),
{
    assert(m.stats_inv(name));
    let s = m.stats[name];
    assert(s.render_count * s.peak_time == s.peak_time * s.render_count) by (nonlinear_arith);
}

/// The frames of a profiler's history are numbered in order, and none has a number above that of the
/// last frame that was begun.
pub proof fn law_history_is_in_order(m: ProfilerModel, i: int, j: int)
    requires
        m.inv(),
        0 <= i <= j < m.history.len(),
    ensures
        m.history[i].frame_number <= m.history[j].frame_number,
        m.history[j].frame_number <= m.frame_number,
{
}

/// The statistics of a widget that were collected in a profiler never show an average above the
/// peak.
pub proof fn law_average_at_most_peak(m: ProfilerModel, name: Seq<char>)
    requires
        m.inv(),
        m.stats.contains_key(name),
    ensures
        m.stats[name].avg_time() <= m.stats[name].peak_time,
{
    assert(m.stats_inv(name));
    let s = m.stats[name];
    assert(s.consistent());
    assert(s.total_time / s.render_count <= s.peak_time) by (nonlinear_arith)
        requires
            s.render_count > 0,
            s.total_time <= s.peak_time * s.render_count,
    ;
}

/// One more render adds its slowness and nothing else.
proof fn lemma_slow_in_push(renders: Seq<Render>, render: Render, name: Seq<char>, frame: int)
    ensures
        slow_in(renders.push(render), name, frame) <==> slow_in(renders, name, frame)
            || slow_render(render, name, frame),
{
    let pushed = renders.push(render);
    if slow_in(renders, name, frame) {
        let i = choose|i: int|
            0 <= i < renders.len() && slow_render(#[trigger] renders[i], name, frame);
        assert(slow_render(pushed[i], name, frame));
    }
    if slow_render(render, name, frame) {
        assert(pushed[renders.len() as int] == render);
    }
    if slow_in(pushed, name, frame) {
        let i = choose|i: int|
            0 <= i < pushed.len() && slow_render(#[trigger] pushed[i], name, frame);
        if i < renders.len() {
            assert(slow_render(renders[i], name, frame));
        }
    }
}

/// The renders of the frame are the last ones, and those before them ended in earlier frames. Frames
/// do not decrease along the renders.
pub proof fn law_renders_of_the_frame_are_the_last(budget: BudgetModel, steps: Seq<Step>)
    ensures
        ({
            let start = ProfilerModel::start(budget);
            let renders = start.renders(steps);
            let end = start.run(steps);
            let first = renders.len() - end.frame_widgets.len();
            &&& first >= 0
            &&& forall|i: int|
                first <= i < renders.len() ==> (#[trigger] renders[i]).frame == end.frame_number
                    && renders[i].sample == end.frame_widgets[i - first]
            &&& forall|i: int|
                0 <= i < first ==> (#[trigger] renders[i]).frame < end.frame_number
            &&& forall|i: int, j: int|
                0 <= i <= j < renders.len() ==> (#[trigger] renders[i]).frame <= (
                #[trigger] renders[j]).frame
        }),
    decreases steps.len(),
{
    let start = ProfilerModel::start(budget);
    if steps.len() > 0 {
        law_renders_of_the_frame_are_the_last(budget, steps.drop_last());
        let before = start.run(steps.drop_last());
        let earlier = start.renders(steps.drop_last());
        let renders = start.renders(steps);
        let end = start.run(steps);
        if steps.last() is EndWidget && before.open_widgets.len() > 0 {
            assert(renders == earlier.push(renders.last()));
            let first = renders.len() - end.frame_widgets.len();
            assert(first == earlier.len() - before.frame_widgets.len());
            assert forall|i: int| first <= i < renders.len() implies (#[trigger] renders[i]).frame
                == end.frame_number && renders[i].sample == end.frame_widgets[i - first] by {
                if i < earlier.len() {
                    assert(renders[i] == earlier[i]);
                }
            }
            assert forall|i: int| 0 <= i < first implies (#[trigger] renders[i]).frame
                < end.frame_number by {
                assert(renders[i] == earlier[i]);
            }
            assert forall|i: int, j: int| 0 <= i <= j < renders.len() implies (
            #[trigger] renders[i]).frame <= (#[trigger] renders[j]).frame by {
                if i < earlier.len() {
                    assert(renders[i] == earlier[i]);
                    if j < earlier.len() {
                        assert(renders[j] == earlier[j]);
                    }
                }
            }
        } else if steps.last() is BeginFrame {
            assert(renders == earlier);
            let first = earlier.len() - before.frame_widgets.len();
            assert forall|i: int| 0 <= i < renders.len() implies (#[trigger] renders[i]).frame
                < end.frame_number by {
                if i >= first {
                    assert(earlier[i].frame == before.frame_number);
                } else {
                    assert(earlier[i].frame < before.frame_number);
                }
            }
        } else {
            assert(renders == earlier);
        }
    }
}

/// No render ends in a frame that has not begun.
proof fn lemma_renders_and_frames(budget: BudgetModel, steps: Seq<Step>, i: int)
    requires
        0 <= i < ProfilerModel::start(budget).renders(steps).len(),
    ensures
        ProfilerModel::start(budget).renders(steps)[i].frame <= ProfilerModel::start(budget).run(
            steps,
        ).frame_number,
{
    law_renders_of_the_frame_are_the_last(budget, steps);
    let renders = ProfilerModel::start(budget).renders(steps);
    let end = ProfilerModel::start(budget).run(steps);
    if i < renders.len() - end.frame_widgets.len() {
        assert(renders[i].frame < end.frame_number);
    }
}

/// A widget's run of slow frames is just that: it had a slow render in each of them, in none after
/// them, and, as far as the run can be counted, not in the one before them.
pub proof fn law_slow_frames_are_a_run(budget: BudgetModel, steps: Seq<Step>, name: Seq<char>)
    ensures
        ({
            let start = ProfilerModel::start(budget);
            let renders = start.renders(steps);
            let stats = start.run(steps).stats_of(name);
            let first = stats.last_slow_frame - stats.slow_frames + 1;
            if stats.slow_frames == 0 {
                forall|frame: int| !#[trigger] slow_in(renders, name, frame)
            } else {
                &&& forall|frame: int|
                    first <= frame <= stats.last_slow_frame ==> #[trigger] slow_in(
                        renders,
                        name,
                        frame,
                    )
                &&& forall|frame: int|
                    frame > stats.last_slow_frame ==> !#[trigger] slow_in(renders, name, frame)
                &&& stats.slow_frames < u64::MAX ==> !slow_in(renders, name, first - 1)
            }
        }),
    decreases steps.len(),
{
    let start = ProfilerModel::start(budget);
    if steps.len() > 0 {
        law_slow_frames_are_a_run(budget, steps.drop_last(), name);
        let before = start.run(steps.drop_last());
        let earlier = start.renders(steps.drop_last());
        let renders = start.renders(steps);
        assert forall|i: int| 0 <= i < earlier.len() implies (#[trigger] earlier[i]).frame
            <= before.frame_number by {
            lemma_renders_and_frames(budget, steps.drop_last(), i);
        }
        if steps.last() is EndWidget && before.open_widgets.len() > 0 {
            let last = renders.last();
            meaning::law_slow(last.sample.time, last.sample.cells);
            assert(renders == earlier.push(last));
            assert forall|frame: int| #[trigger] slow_in(renders, name, frame) <==> slow_in(
                earlier,
                name,
                frame,
            ) || slow_render(last, name, frame) by {
                lemma_slow_in_push(earlier, last, name, frame);
            }
            let old_stats = before.stats_of(name);
            if old_stats.slow_frames > 0 {
                assert(slow_in(earlier, name, old_stats.last_slow_frame as int));
            }
        }
    }
}

/// What two sequences hold together, one of them holds.
proof fn lemma_concat_contains<A>(a: Seq<A>, b: Seq<A>, x: A)
    ensures
        (a + b).contains(x) <==> a.contains(x) || b.contains(x),
{
    let both = a + b;
    if a.contains(x) {
        let i = choose|i: int| 0 <= i < a.len() && a[i] == x;
        assert(both[i] == x);
    }
    if b.contains(x) {
        let i = choose|i: int| 0 <= i < b.len() && b[i] == x;
        assert(both[a.len() + i] == x);
    }
    if both.contains(x) {
        let i = choose|i: int| 0 <= i < both.len() && both[i] == x;
        if i < a.len() {
            assert(a[i] == x);
        } else {
            assert(b[i - a.len()] == x);
        }
    }
}

/// The findings about the widgets are those about each of them.
proof fn lemma_widget_findings(
    frame: nat,
    frame_time: nat,
    widgets: Seq<SampleModel>,
    all_stats: Map<Seq<char>, StatsModel>,
    f: FindingModel,
)
    ensures
        detector::all_widget_findings(frame, frame_time, widgets, all_stats).contains(f) <==> (
        exists|i: int|
            0 <= i < widgets.len() && detector::widget_findings(
                frame,
                frame_time,
                #[trigger] widgets[i],
                all_stats,
            ).contains(f)),
    decreases widgets.len(),
{
    if widgets.len() > 0 {
        let init = widgets.drop_last();
        lemma_widget_findings(frame, frame_time, init, all_stats, f);
        lemma_concat_contains(
            detector::all_widget_findings(frame, frame_time, init, all_stats),
            detector::widget_findings(frame, frame_time, widgets.last(), all_stats),
            f,
        );
        if exists|i: int|
            0 <= i < init.len() && detector::widget_findings(
                frame,
                frame_time,
                #[trigger] init[i],
                all_stats,
            ).contains(f) {
            let i = choose|i: int|
                0 <= i < init.len() && detector::widget_findings(
                    frame,
                    frame_time,
                    #[trigger] init[i],
                    all_stats,
                ).contains(f);
            assert(widgets[i] == init[i]);
        }
        if exists|i: int|
            0 <= i < widgets.len() && detector::widget_findings(
                frame,
                frame_time,
                #[trigger] widgets[i],
                all_stats,
            ).contains(f) {
            let i = choose|i: int|
                0 <= i < widgets.len() && detector::widget_findings(
                    frame,
                    frame_time,
                    #[trigger] widgets[i],
                    all_stats,
                ).contains(f);
            if i < init.len() {
                assert(widgets[i] == init[i]);
            } else {
                assert(widgets[i] == widgets.last());
            }
        }
    }
}

/// Each render is judged alone: the findings about some renders and then others are those about the
/// former, followed by those about the latter.
pub proof fn law_renders_are_judged_alone(
    frame: nat,
    frame_time: nat,
    first: Seq<SampleModel>,
    second: Seq<SampleModel>,
    all_stats: Map<Seq<char>, StatsModel>,
)
    ensures
        detector::all_widget_findings(frame, frame_time, first + second, all_stats)
            == detector::all_widget_findings(frame, frame_time, first, all_stats)
            + detector::all_widget_findings(frame, frame_time, second, all_stats),
    decreases second.len(),
{
    if second.len() == 0 {
        assert(first + second =~= first);
        assert(detector::all_widget_findings(frame, frame_time, second, all_stats) =~= seq![]);
    } else {
        law_renders_are_judged_alone(frame, frame_time, first, second.drop_last(), all_stats);
        assert((first + second).drop_last() =~= first + second.drop_last());
        assert(detector::all_widget_findings(frame, frame_time, first + second, all_stats)
            =~= detector::all_widget_findings(frame, frame_time, first, all_stats)
            + detector::all_widget_findings(frame, frame_time, second, all_stats));
    }
}

/// The findings about the nesting of a frame: its depth, and the cross-check on it.
pub open spec fn nesting_findings(
    frame: nat,
    widgets: Seq<SampleModel>,
    all_stats: Map<Seq<char>, StatsModel>,
    budget: BudgetModel,
) -> Seq<FindingModel> {
    detector::deep_nesting(
        frame,
        detector::rendered_depth(frame, widgets, all_stats),
        widgets.len(),
        budget.max_widget_depth,
    ) + detector::many_widgets(frame, widgets.len(), budget.max_widget_depth)
}

/// Each finding of the detector about a frame is a hog, a full redraw or a suspected allocation of
/// one of its widgets, or about its nesting, and is found in each of these cases.
pub proof fn law_findings_are_complete(
    frame: nat,
    frame_time: nat,
    widgets: Seq<SampleModel>,
    all_stats: Map<Seq<char>, StatsModel>,
    budget: BudgetModel,
    f: FindingModel,
)
    ensures
        detector::frame_findings(frame, frame_time, widgets, all_stats, budget).contains(f) <==> {
            ||| exists|i: int|
                0 <= i < widgets.len() && {
                    let w = #[trigger] widgets[i];
                    ||| detector::hog(frame, frame_time, w).contains(f)
                    ||| all_stats.contains_key(w.name) && detector::full_redraw(
                        frame,
                        w,
                        all_stats[w.name],
                    ).contains(f)
                    ||| all_stats.contains_key(w.name) && detector::suspected_allocation(
                        frame,
                        w,
                        all_stats[w.name],
                    ).contains(f)
                }
            ||| nesting_findings(frame, widgets, all_stats, budget).contains(f)
        },
{
    lemma_widget_findings(frame, frame_time, widgets, all_stats, f);
    assert(detector::frame_findings(frame, frame_time, widgets, all_stats, budget)
        =~= detector::all_widget_findings(frame, frame_time, widgets, all_stats)
        + nesting_findings(frame, widgets, all_stats, budget));
    lemma_concat_contains(
        detector::all_widget_findings(frame, frame_time, widgets, all_stats),
        nesting_findings(frame, widgets, all_stats, budget),
        f,
    );
    assert forall|w: SampleModel|
        #![trigger detector::widget_findings(frame, frame_time, w, all_stats)]
        detector::widget_findings(frame, frame_time, w, all_stats).contains(f) <==> {
            ||| detector::hog(frame, frame_time, w).contains(f)
            ||| all_stats.contains_key(w.name) && detector::full_redraw(
                frame,
                w,
                all_stats[w.name],
            ).contains(f)
            ||| all_stats.contains_key(w.name) && detector::suspected_allocation(
                frame,
                w,
                all_stats[w.name],
            ).contains(f)
        } by {
        if all_stats.contains_key(w.name) {
            let hogs = detector::hog(frame, frame_time, w);
            let redraws = detector::full_redraw(frame, w, all_stats[w.name]);
            lemma_concat_contains(hogs, redraws, f);
            lemma_concat_contains(
                hogs + redraws,
                detector::suspected_allocation(frame, w, all_stats[w.name]),
                f,
            );
        }
    }
}

/// The findings about a completed frame are those of the detector, and the one about widgets that
/// are nested too deep and not ended.
proof fn lemma_findings_of_frame(m: ProfilerModel, now: nat, f: FindingModel)
    ensures
        m.end_frame(now).findings.contains(f) <==> detector::frame_findings(
            m.frame_number,
            m.frame_time(now),
            m.frame_widgets,
            m.stats,
            m.budget,
        ).contains(f) || m.unfinished_nesting().contains(f),
{
    lemma_concat_contains(
        detector::frame_findings(
            m.frame_number,
            m.frame_time(now),
            m.frame_widgets,
            m.stats,
            m.budget,
        ),
        m.unfinished_nesting(),
        f,
    );
}

/// Every finding of the detector about a frame carries the frame's number.
pub proof fn law_findings_carry_frame(
    frame: nat,
    frame_time: nat,
    widgets: Seq<SampleModel>,
    all_stats: Map<Seq<char>, StatsModel>,
    budget: BudgetModel,
    f: FindingModel,
)
    requires
        detector::frame_findings(frame, frame_time, widgets, all_stats, budget).contains(f),
    ensures
        f.frame == frame,
{
    law_findings_are_complete(frame, frame_time, widgets, all_stats, budget, f);
}

/// Every finding about a completed frame carries the frame's number.
pub proof fn law_completed_findings_carry_frame(m: ProfilerModel, now: nat, f: FindingModel)
    requires
        m.end_frame(now).findings.contains(f),
    ensures
        f.frame == m.frame_number,
{
    lemma_findings_of_frame(m, now, f);
    law_findings_are_complete(
        m.frame_number,
        m.frame_time(now),
        m.frame_widgets,
        m.stats,
        m.budget,
        f,
    );
}

/// Whether a finding is a suspected allocation of the named widget.
pub open spec fn is_allocation_finding(f: FindingModel, name: Seq<char>) -> bool {
    f.category is SuspectedAllocation && f.category->SuspectedAllocation_widget == name
}

/// Whether a finding says that a render is a hog, with its share of the frame's time to the nearest
/// percent, and calls it critical just if it took more than 85%.
pub open spec fn hog_of(f: FindingModel, w: SampleModel, total: nat) -> bool {
    &&& f.category is Hog && f.category->Hog_widget == w.name
    &&& meaning::nearest_percent(w.time, total, f.category->fraction_percent)
    &&& f.severity == if 100 * w.time > 85 * total {
        Severity::Critical
    } else {
        Severity::Warning
    }
}

/// A widget is called a hog just for those of its renders that took more than 60% of the frame's
/// time.
pub proof fn law_hogs(m: ProfilerModel, now: nat)
    ensures
        ({
            let total = m.frame_time(now);
            let found = m.end_frame(now).findings;
            &&& forall|f: FindingModel| #[trigger]
                found.contains(f) && f.category is Hog ==> exists|i: int|
                    0 <= i < m.frame_widgets.len() && hog_of(
                        f,
                        #[trigger] m.frame_widgets[i],
                        total,
                    ) && total > 0 && 100 * m.frame_widgets[i].time > 60 * total
            &&& forall|i: int|
                0 <= i < m.frame_widgets.len() && total > 0 && 100 * (
                #[trigger] m.frame_widgets[i]).time > 60 * total ==> exists|f: FindingModel|
                    #[trigger] found.contains(f) && hog_of(f, m.frame_widgets[i], total)
        }),
{
    let total = m.frame_time(now);
    let found = m.end_frame(now).findings;
    assert forall|f: FindingModel| #[trigger]
        found.contains(f) && f.category is Hog implies exists|i: int|
        0 <= i < m.frame_widgets.len() && hog_of(f, #[trigger] m.frame_widgets[i], total) && total
            > 0 && 100 * m.frame_widgets[i].time > 60 * total by {
        lemma_findings_of_frame(m, now, f);
        law_findings_are_complete(
            m.frame_number,
            total,
            m.frame_widgets,
            m.stats,
            m.budget,
            f,
        );
        let i = choose|i: int|
            0 <= i < m.frame_widgets.len() && detector::hog(
                m.frame_number,
                total,
                #[trigger] m.frame_widgets[i],
            ).contains(f);
        meaning::law_percent(m.frame_widgets[i].time, total);
        assert(hog_of(f, m.frame_widgets[i], total));
    }
    assert forall|i: int|
        0 <= i < m.frame_widgets.len() && total > 0 && 100 * (#[trigger] m.frame_widgets[i]).time
            > 60 * total implies exists|f: FindingModel| #[trigger]
        found.contains(f) && hog_of(f, m.frame_widgets[i], total) by {
        let hogs = detector::hog(m.frame_number, total, m.frame_widgets[i]);
        let f = hogs[0];
        assert(hogs.contains(f));
        lemma_findings_of_frame(m, now, f);
        law_findings_are_complete(
            m.frame_number,
            total,
            m.frame_widgets,
            m.stats,
            m.budget,
            f,
        );
        meaning::law_percent(m.frame_widgets[i].time, total);
        assert(found.contains(f) && hog_of(f, m.frame_widgets[i], total));
    }
}

/// An allocation is suspected if and only if a render of the widget took 50,000 nanoseconds or more
/// for each of its cells in this frame, and one did in each of the two frames before. Being slow once
/// is fine.
pub proof fn law_allocations_take_three_frames(
    budget: BudgetModel,
    steps: Seq<Step>,
    now: nat,
    name: Seq<char>,
)
    ensures
        ({
            let start = ProfilerModel::start(budget);
            let renders = start.renders(steps);
            let end = start.run(steps);
            (exists|f: FindingModel| #[trigger]
                end.end_frame(now).findings.contains(f) && is_allocation_finding(f, name)) <==> {
                &&& exists|i: int|
                    0 <= i < end.frame_widgets.len() && (#[trigger] end.frame_widgets[i]).name
                        == name && end.frame_widgets[i].cells > 0 && end.frame_widgets[i].time
                        >= 50_000 * end.frame_widgets[i].cells
                &&& slow_in(renders, name, end.frame_number - 1)
                &&& slow_in(renders, name, end.frame_number - 2)
            }
        }),
{
    let start = ProfilerModel::start(budget);
    let renders = start.renders(steps);
    let end = start.run(steps);
    let found = end.end_frame(now).findings;
    let stats = end.stats_of(name);
    let frame = end.frame_number;
    law_slow_frames_are_a_run(budget, steps, name);
    law_renders_of_the_frame_are_the_last(budget, steps);
    assert forall|i: int| 0 <= i < renders.len() implies (#[trigger] renders[i]).frame <= frame by {
        lemma_renders_and_frames(budget, steps, i);
    }
    assert forall|time: nat, cells: nat| #[trigger]
        stats::is_slow(time, cells) <==> cells > 0 && time >= 50_000 * cells by {
        meaning::law_slow(time, cells);
    }
    if exists|f: FindingModel| #[trigger] found.contains(f) && is_allocation_finding(f, name) {
        let f = choose|f: FindingModel| #[trigger]
            found.contains(f) && is_allocation_finding(f, name);
        lemma_findings_of_frame(end, now, f);
        law_findings_are_complete(
            frame,
            end.frame_time(now),
            end.frame_widgets,
            end.stats,
            end.budget,
            f,
        );
        let i = choose|i: int|
            0 <= i < end.frame_widgets.len() && end.stats.contains_key(
                (#[trigger] end.frame_widgets[i]).name,
            ) && detector::suspected_allocation(
                frame,
                end.frame_widgets[i],
                end.stats[end.frame_widgets[i].name],
            ).contains(f);
        assert(end.frame_widgets[i].name == name);
        assert(slow_in(renders, name, frame - 1));
        assert(slow_in(renders, name, frame - 2));
    }
    if (exists|i: int|
        0 <= i < end.frame_widgets.len() && (#[trigger] end.frame_widgets[i]).name == name
            && end.frame_widgets[i].cells > 0 && end.frame_widgets[i].time >= 50_000
            * end.frame_widgets[i].cells) && slow_in(
        renders,
        name,
        frame - 1,
    ) && slow_in(renders, name, frame - 2) {
        let i = choose|i: int|
            0 <= i < end.frame_widgets.len() && (#[trigger] end.frame_widgets[i]).name == name
                && end.frame_widgets[i].cells > 0 && end.frame_widgets[i].time >= 50_000
                * end.frame_widgets[i].cells;
        let w = end.frame_widgets[i];
        let j = renders.len() - end.frame_widgets.len() + i;
        assert(slow_render(renders[j], name, frame as int));
        assert(slow_in(renders, name, frame as int));
        assert(stats.slow_frames > 0);
        assert(slow_in(renders, name, stats.last_slow_frame as int));
        assert(stats.last_slow_frame == frame);
        assert(stats.slow_frames >= 3);
        let suspected = detector::suspected_allocation(frame, w, stats);
        assert(suspected.contains(suspected[0]));
        lemma_findings_of_frame(end, now, suspected[0]);
        law_findings_are_complete(
            frame,
            end.frame_time(now),
            end.frame_widgets,
            end.stats,
            end.budget,
            suspected[0],
        );
        assert(found.contains(suspected[0]) && is_allocation_finding(suspected[0], name));
    }
}

/// Whether the last two renders of a widget wrote cells that differ by more than half of the earlier
/// ones, in either direction.
pub open spec fn changed_by_more_than_half(own: Seq<SampleModel>) -> bool {
    own.len() >= 2 && {
        let earlier = own[own.len() - 2].cells;
        let later = own[own.len() - 1].cells;
        later > earlier && 2 * (later - earlier) > earlier || later < earlier && 2 * (earlier
            - later) > earlier
    }
}

/// Whether a finding says that a render is a full redraw, with its cells and a tenth of them, and
/// calls it a warning just if it wrote more than 5,000.
pub open spec fn full_redraw_of(f: FindingModel, w: SampleModel) -> bool {
    &&& f.category is FullRedrawForSmallChange
    &&& f.category->FullRedrawForSmallChange_widget == w.name
    &&& f.category->cells_written == w.cells
    &&& 10 * f.category->estimated_needed <= w.cells < 10 * (f.category->estimated_needed + 1)
    &&& f.severity == if w.cells > 5000 {
        Severity::Warning
    } else {
        Severity::Hint
    }
}

/// A full redraw is found just for those renders of the frame that wrote more than 500 cells, of a
/// widget that was rendered more than three times and whose last two renders differ in their cells
/// by more than half of the earlier ones, be it up or down.
pub proof fn law_full_redraws(budget: BudgetModel, steps: Seq<Step>, now: nat, name: Seq<char>)
    ensures
        ({
            let start = ProfilerModel::start(budget);
            let own = renders_of(start.renders(steps), name);
            let end = start.run(steps);
            let found = end.end_frame(now).findings;
            let redrawn = own.len() > 3 && changed_by_more_than_half(own);
            &&& forall|f: FindingModel| #[trigger]
                found.contains(f) && f.category is FullRedrawForSmallChange
                    && f.category->FullRedrawForSmallChange_widget == name ==> redrawn && exists|
                    i: int,
                |
                    0 <= i < end.frame_widgets.len() && full_redraw_of(
                        f,
                        #[trigger] end.frame_widgets[i],
                    ) && end.frame_widgets[i].cells > 500
            &&& forall|i: int|
                0 <= i < end.frame_widgets.len() && (#[trigger] end.frame_widgets[i]).name == name
                    && end.frame_widgets[i].cells > 500 && redrawn ==> exists|f: FindingModel|
                    #[trigger] found.contains(f) && full_redraw_of(f, end.frame_widgets[i])
        }),
{
    let start = ProfilerModel::start(budget);
    let own = renders_of(start.renders(steps), name);
    let end = start.run(steps);
    let found = end.end_frame(now).findings;
    let frame = end.frame_number;
    law_stats_cover_lifetime(budget, steps, name);
    assert forall|f: FindingModel| #[trigger]
        found.contains(f) && f.category is FullRedrawForSmallChange
            && f.category->FullRedrawForSmallChange_widget == name implies own.len() > 3
        && changed_by_more_than_half(own) && exists|i: int|
        0 <= i < end.frame_widgets.len() && full_redraw_of(f, #[trigger] end.frame_widgets[i])
            && end.frame_widgets[i].cells > 500 by {
        lemma_findings_of_frame(end, now, f);
        law_findings_are_complete(
            frame,
            end.frame_time(now),
            end.frame_widgets,
            end.stats,
            end.budget,
            f,
        );
        let i = choose|i: int|
            0 <= i < end.frame_widgets.len() && end.stats.contains_key(
                (#[trigger] end.frame_widgets[i]).name,
            ) && detector::full_redraw(
                frame,
                end.frame_widgets[i],
                end.stats[end.frame_widgets[i].name],
            ).contains(f);
        assert(full_redraw_of(f, end.frame_widgets[i]));
    }
    assert forall|i: int|
        0 <= i < end.frame_widgets.len() && (#[trigger] end.frame_widgets[i]).name == name
            && end.frame_widgets[i].cells > 500 && own.len() > 3 && changed_by_more_than_half(
            own,
        ) implies exists|f: FindingModel| #[trigger]
        found.contains(f) && full_redraw_of(f, end.frame_widgets[i]) by {
        let w = end.frame_widgets[i];
        let redraws = detector::full_redraw(frame, w, end.stats[name]);
        assert(end.stats_of(name) == end.stats[name]);
        let f = redraws[0];
        assert(redraws.contains(f));
        lemma_findings_of_frame(end, now, f);
        law_findings_are_complete(
            frame,
            end.frame_time(now),
            end.frame_widgets,
            end.stats,
            end.budget,
            f,
        );
        assert(found.contains(f) && full_redraw_of(f, w));
    }
}

/// The statistics of a widget tell the frame of its last render, and how deep its deepest render in
/// that frame was nested.
pub proof fn law_depth_of_widget(budget: BudgetModel, steps: Seq<Step>, name: Seq<char>)
    ensures
        ({
            let start = ProfilerModel::start(budget);
            let renders = start.renders(steps);
            let stats = start.run(steps).stats_of(name);
            &&& forall|i: int|
                0 <= i < renders.len() && (#[trigger] renders[i]).sample.name == name
                    ==> renders[i].frame <= stats.last_frame && (renders[i].frame
                    == stats.last_frame ==> renders[i].depth <= stats.last_frame_depth)
            &&& start.run(steps).stats.contains_key(name) ==> exists|i: int|
                0 <= i < renders.len() && (#[trigger] renders[i]).sample.name == name
                    && renders[i].frame == stats.last_frame && renders[i].depth
                    == stats.last_frame_depth
        }),
    decreases steps.len(),
{
    let start = ProfilerModel::start(budget);
    if steps.len() > 0 {
        law_depth_of_widget(budget, steps.drop_last(), name);
        let before = start.run(steps.drop_last());
        let earlier = start.renders(steps.drop_last());
        let renders = start.renders(steps);
        let end = start.run(steps);
        if steps.last() is EndWidget && before.open_widgets.len() > 0 {
            assert(renders == earlier.push(renders.last()));
            let old_stats = before.stats_of(name);
            let stats = end.stats_of(name);
            let n = earlier.len() as int;
            assert forall|i: int| 0 <= i < n implies renders[i] == #[trigger] earlier[i]
                && earlier[i].frame <= before.frame_number by {
                lemma_renders_and_frames(budget, steps.drop_last(), i);
            }
            assert(renders[n] == renders.last());
            assert forall|i: int|
                0 <= i < renders.len() && (#[trigger] renders[i]).sample.name
                    == name implies renders[i].frame <= stats.last_frame && (renders[i].frame
                == stats.last_frame ==> renders[i].depth <= stats.last_frame_depth) by {
                if i < n {
                    assert(renders[i] == earlier[i]);
                }
            }
            if end.stats.contains_key(name) {
                if before.stats.contains_key(name) {
                    let i = choose|i: int|
                        0 <= i < earlier.len() && (#[trigger] earlier[i]).sample.name == name
                            && earlier[i].frame == old_stats.last_frame && earlier[i].depth
                            == old_stats.last_frame_depth;
                    assert(renders[i] == earlier[i]);
                    if before.open_widgets.last().name == name {
                        assert(renders[n].sample.name == name);
                    }
                } else {
                    assert(renders[n].sample.name == name);
                }
            }
        } else {
            assert(renders == earlier);
        }
    }
}

/// Deep nesting is found just as deep as the deepest render of the frame was nested, as deep as the
/// deepest widget that began in it, if that is over the limit, and as there are renders, if those are
/// more than twice the limit. Each is a hint that carries the frame's number.
pub proof fn law_nesting_findings(budget: BudgetModel, steps: Seq<Step>, now: nat, depth: nat)
    ensures
        ({
            let start = ProfilerModel::start(budget);
            let renders = start.renders(steps);
            let end = start.run(steps);
            let found = end.end_frame(now).findings;
            let limit = budget.max_widget_depth;
            let n = end.frame_number;
            &&& found.contains(meaning::nested(n, depth, limit)) <==> {
                ||| depth > limit && depth == end.deepest
                ||| depth > limit && (exists|i: int|
                    0 <= i < renders.len() && (#[trigger] renders[i]).frame == n && renders[i].depth
                        == depth) && (forall|i: int|
                    0 <= i < renders.len() && (#[trigger] renders[i]).frame == n
                        ==> renders[i].depth <= depth)
                ||| depth > 2 * limit && depth == end.frame_widgets.len()
            }
            &&& forall|f: FindingModel| #[trigger]
                found.contains(f) && f.category is DeepNesting ==> f == meaning::nested(
                    n,
                    f.category->DeepNesting_depth,
                    limit,
                )
        }),
{
    let start = ProfilerModel::start(budget);
    let renders = start.renders(steps);
    let end = start.run(steps);
    let found = end.end_frame(now).findings;
    let limit = budget.max_widget_depth;
    let n = end.frame_number;
    let told = detector::rendered_depth(n, end.frame_widgets, end.stats);
    let first = renders.len() - end.frame_widgets.len();
    law_budget_stays(start, steps);
    law_renders_of_the_frame_are_the_last(budget, steps);
    meaning::law_rendered_depth(n, end.frame_widgets, end.stats);
    assert forall|i: int| 0 <= i < renders.len() && (#[trigger] renders[i]).frame
        == n implies renders[i].depth <= told by {
        let name = renders[i].sample.name;
        law_depth_of_widget(budget, steps, name);
        law_stats_cover_lifetime(budget, steps, name);
        lemma_rendered_has_stats(budget, steps, i);
        let j = choose|j: int|
            0 <= j < renders.len() && (#[trigger] renders[j]).sample.name == name
                && renders[j].frame == end.stats_of(name).last_frame && renders[j].depth
                == end.stats_of(name).last_frame_depth;
        lemma_renders_and_frames(budget, steps, j);
        assert(end.frame_widgets[i - first].name == name);
    }
    if told > 0 {
        let j = choose|j: int|
            0 <= j < end.frame_widgets.len() && end.stats.contains_key(
                (#[trigger] end.frame_widgets[j]).name,
            ) && end.stats[end.frame_widgets[j].name].last_frame == n
                && end.stats[end.frame_widgets[j].name].last_frame_depth == told;
        law_depth_of_widget(budget, steps, end.frame_widgets[j].name);
        assert(exists|i: int|
            0 <= i < renders.len() && (#[trigger] renders[i]).frame == n && renders[i].depth
                == told);
    }
    let deep = detector::deep_nesting(n, told, end.frame_widgets.len(), limit);
    let many = detector::many_widgets(n, end.frame_widgets.len(), limit);
    let late = end.unfinished_nesting();
    assert forall|f: FindingModel| #[trigger]
        found.contains(f) && f.category is DeepNesting <==> deep.contains(f) || many.contains(f)
            || late.contains(f) by {
        lemma_findings_of_frame(end, now, f);
        law_findings_are_complete(
            n,
            end.frame_time(now),
            end.frame_widgets,
            end.stats,
            end.budget,
            f,
        );
        lemma_concat_contains(deep, many, f);
    }
    let f = meaning::nested(n, depth, limit);
    if deep.len() > 0 {
        assert(deep.contains(deep[0]));
    }
    if many.len() > 0 {
        assert(many.contains(many[0]));
    }
    if late.len() > 0 {
        assert(late.contains(late[0]));
    }
    assert(found.contains(f) <==> deep.contains(f) || many.contains(f) || late.contains(f));
}

/// A widget with a render has statistics.
proof fn lemma_rendered_has_stats(budget: BudgetModel, steps: Seq<Step>, i: int)
    requires
        0 <= i < ProfilerModel::start(budget).renders(steps).len(),
    ensures
        ProfilerModel::start(budget).run(steps).stats.contains_key(
            ProfilerModel::start(budget).renders(steps)[i].sample.name,
        ),
    decreases steps.len(),
{
    let start = ProfilerModel::start(budget);
    let earlier = start.renders(steps.drop_last());
    if i < earlier.len() {
        lemma_rendered_has_stats(budget, steps.drop_last(), i);
        assert(start.renders(steps)[i] == earlier[i]);
    }
}

/// A completed frame has no violations if and only if it kept to its time, its cells and its depth;
/// it has the violation of each limit that it exceeded.
pub proof fn law_violations(m: ProfilerModel, now: nat)
    ensures
        ({
            let violations = m.end_frame(now).last_violations();
            let time = m.frame_time(now);
            let cells = profiler::total_cells(m.frame_widgets);
            &&& violations.len() == 0 <==> time <= m.budget.max_render_time && cells
                <= m.budget.max_diff_cells && m.deepest <= m.budget.max_widget_depth
            &&& violations.contains(
                ViolationModel::OverTime { actual: time, budget: m.budget.max_render_time },
            ) <==> time > m.budget.max_render_time
            &&& violations.contains(
                ViolationModel::DiffTooLarge { cells, limit: m.budget.max_diff_cells },
            ) <==> cells > m.budget.max_diff_cells
            &&& violations.contains(
                ViolationModel::DepthTooDeep { depth: m.deepest, limit: m.budget.max_widget_depth },
            ) <==> m.deepest > m.budget.max_widget_depth
        }),
{
    let record = m.frame_record(now);
    assert(m.end_frame(now).history.last() == record);
    let over = budget::listed(m.budget.over_time(m.frame_time(now)));
    let large = budget::listed(
        m.budget.diff_too_large(profiler::total_cells(m.frame_widgets)),
    );
    let deep = budget::listed(m.budget.depth_too_deep(m.deepest));
    assert forall|v: ViolationModel| #[trigger]
        record.violations.contains(v) <==> over.contains(v) || large.contains(v) || deep.contains(
            v,
        ) by {
        lemma_concat_contains(over, large, v);
        lemma_concat_contains(over + large, deep, v);
    }
    if m.frame_time(now) > m.budget.max_render_time {
        assert(over[0] == ViolationModel::OverTime {
            actual: m.frame_time(now),
            budget: m.budget.max_render_time,
        });
    }
    if profiler::total_cells(m.frame_widgets) > m.budget.max_diff_cells {
        assert(large[0] == ViolationModel::DiffTooLarge {
            cells: profiler::total_cells(m.frame_widgets),
            limit: m.budget.max_diff_cells,
        });
    }
    if m.deepest > m.budget.max_widget_depth {
        assert(deep[0] == ViolationModel::DepthTooDeep {
            depth: m.deepest,
            limit: m.budget.max_widget_depth,
        });
    }
}

/// How deep the widgets are nested just after the call at `i`, for calls made from `m`.
pub open spec fn depth_after(m: ProfilerModel, steps: Seq<Step>, i: int) -> nat {
    m.run(steps.take(i + 1)).open_widgets.len()
}

/// What a frame's depth is: no widget that began in the frame was nested deeper, and, unless no
/// widget began in it, one was nested as deep.
pub proof fn law_depth_of_frame(m: ProfilerModel, start: nat, steps: Seq<Step>)
    requires
        forall|i: int| 0 <= i < steps.len() ==> !(#[trigger] steps[i] is BeginFrame),
    ensures
        ({
            let frame = m.begin_frame(start);
            let deepest = frame.run(steps).deepest;
            &&& forall|i: int|
                0 <= i < steps.len() && #[trigger] steps[i] is BeginWidget ==> depth_after(
                    frame,
                    steps,
                    i,
                ) <= deepest
            &&& deepest > 0 ==> exists|i: int|
                0 <= i < steps.len() && #[trigger] steps[i] is BeginWidget && depth_after(
                    frame,
                    steps,
                    i,
                ) == deepest
        }),
    decreases steps.len(),
{
    let frame = m.begin_frame(start);
    if steps.len() > 0 {
        let init = steps.drop_last();
        assert forall|i: int| 0 <= i < init.len() implies !(#[trigger] init[i] is BeginFrame) by {
            assert(init[i] == steps[i]);
        }
        law_depth_of_frame(m, start, init);
        let n = steps.len() - 1;
        let deepest = frame.run(steps).deepest;
        let earlier = frame.run(init).deepest;
        assert(steps[n] == steps.last());
        assert(steps.take(n + 1) =~= steps);
        assert forall|i: int| 0 <= i < n implies #[trigger] init[i] == steps[i] && depth_after(
            frame,
            init,
            i,
        ) == depth_after(frame, steps, i) by {
            assert(init.take(i + 1) =~= steps.take(i + 1));
        }
        assert forall|i: int|
            0 <= i < steps.len() && #[trigger] steps[i] is BeginWidget implies depth_after(
            frame,
            steps,
            i,
        ) <= deepest by {
            if i < n {
                assert(init[i] == steps[i]);
            }
        }
        if deepest > 0 {
            if deepest == earlier {
                let i = choose|i: int|
                    0 <= i < init.len() && #[trigger] init[i] is BeginWidget && depth_after(
                        frame,
                        init,
                        i,
                    ) == earlier;
                assert(steps[i] is BeginWidget && depth_after(frame, steps, i) == deepest);
            } else {
                assert(steps[n] is BeginWidget && depth_after(frame, steps, n) == deepest);
            }
        }
    }
}

/// Nesting too deep is reported when the frame ends, if and only if a widget that began in the frame
/// was nested deeper than the limit.
pub proof fn law_deep_widgets_are_reported(
    m: ProfilerModel,
    start: nat,
    steps: Seq<Step>,
    now: nat,
)
    requires
        forall|i: int| 0 <= i < steps.len() ==> !(#[trigger] steps[i] is BeginFrame),
    ensures
        ({
            let frame = m.begin_frame(start);
            let violations = frame.run(steps).end_frame(now).last_violations();
            (exists|v: ViolationModel| #[trigger] violations.contains(v) && v is DepthTooDeep) <==> (
            exists|i: int|
                0 <= i < steps.len() && #[trigger] steps[i] is BeginWidget && depth_after(
                    frame,
                    steps,
                    i,
                ) > m.budget.max_widget_depth)
        }),
{
    let frame = m.begin_frame(start);
    let end = frame.run(steps);
    let violations = end.end_frame(now).last_violations();
    law_depth_of_frame(m, start, steps);
    law_violations(end, now);
    law_budget_stays(frame, steps);
    let deep = ViolationModel::DepthTooDeep {
        depth: end.deepest,
        limit: m.budget.max_widget_depth,
    };
    assert forall|v: ViolationModel| #[trigger]
        violations.contains(v) && v is DepthTooDeep implies v == deep by {
        let time = end.frame_time(now);
        let cells = profiler::total_cells(end.frame_widgets);
        let over = budget::listed(end.budget.over_time(time));
        let large = budget::listed(end.budget.diff_too_large(cells));
        assert(end.end_frame(now).history.last() == end.frame_record(now));
        lemma_concat_contains(over, large, v);
        lemma_concat_contains(
            over + large,
            budget::listed(end.budget.depth_too_deep(end.deepest)),
            v,
        );
    }
}

/// No call changes the budget.
pub proof fn law_budget_stays(m: ProfilerModel, steps: Seq<Step>)
    ensures
        m.run(steps).budget == m.budget,
    decreases steps.len(),
{
    if steps.len() > 0 {
        law_budget_stays(m, steps.drop_last());
    }
}

/// Nesting too deep is found when the frame ends: if a widget that began in the frame was nested
/// deeper than the limit, then a finding says how deep the deepest was.
pub proof fn law_deep_nesting_is_found(m: ProfilerModel, now: nat)
    requires
        m.deepest > m.budget.max_widget_depth,
    ensures
        m.end_frame(now).findings.contains(
            detector::nesting_finding(m.frame_number, m.deepest, m.budget.max_widget_depth),
        ),
{
    let limit = m.budget.max_widget_depth;
    let f = detector::nesting_finding(m.frame_number, m.deepest, limit);
    let depth = detector::rendered_depth(m.frame_number, m.frame_widgets, m.stats);
    let deep = detector::deep_nesting(m.frame_number, depth, m.frame_widgets.len(), limit);
    let many = detector::many_widgets(m.frame_number, m.frame_widgets.len(), limit);
    lemma_findings_of_frame(m, now, f);
    law_findings_are_complete(
        m.frame_number,
        m.frame_time(now),
        m.frame_widgets,
        m.stats,
        m.budget,
        f,
    );
    lemma_concat_contains(deep, many, f);
    if m.frame_widgets.len() > 2 * limit && m.frame_widgets.len() == m.deepest {
        assert(many[0] == f);
    } else if depth == m.deepest {
        assert(deep[0] == f);
    } else {
        assert(m.unfinished_nesting()[0] == f);
    }
}

/// No widget was nested deeper than the deepest, and, unless that is zero, one was as deep.
proof fn lemma_rendered_depth(
    frame: nat,
    widgets: Seq<SampleModel>,
    all_stats: Map<Seq<char>, StatsModel>,
)
    ensures
        ({
            let deepest = detector::rendered_depth(frame, widgets, all_stats);
            &&& forall|i: int|
                0 <= i < widgets.len() ==> detector::depth_in(
                    frame,
                    #[trigger] widgets[i],
                    all_stats,
                ) <= deepest
            &&& deepest > 0 ==> exists|i: int|
                0 <= i < widgets.len() && detector::depth_in(
                    frame,
                    #[trigger] widgets[i],
                    all_stats,
                ) == deepest
        }),
    decreases widgets.len(),
{
    if widgets.len() > 0 {
        let init = widgets.drop_last();
        lemma_rendered_depth(frame, init, all_stats);
        let deepest = detector::rendered_depth(frame, widgets, all_stats);
        let last = widgets.len() - 1;
        assert forall|i: int| 0 <= i < widgets.len() implies detector::depth_in(
            frame,
            #[trigger] widgets[i],
            all_stats,
        ) <= deepest by {
            if i < last {
                assert(init[i] == widgets[i]);
            }
        }
        if deepest > 0 {
            if deepest == detector::rendered_depth(frame, init, all_stats) {
                let i = choose|i: int|
                    0 <= i < init.len() && detector::depth_in(frame, #[trigger] init[i], all_stats)
                        == deepest;
                assert(init[i] == widgets[i]);
            } else {
                assert(detector::depth_in(frame, widgets[last], all_stats) == deepest);
            }
        }
    }
}

/// How the depths of a frame hang together, if no widget was being rendered when it began: the
/// widgets that ended in it tell its depth, as far as no widget still open is deeper.
spec fn depths_agree(m: ProfilerModel) -> bool {
    let ended = detector::rendered_depth(m.frame_number, m.frame_widgets, m.stats);
    &&& ended <= m.deepest
    &&& m.open_widgets.len() <= m.deepest
    &&& m.deepest <= ended || m.deepest <= m.open_widgets.len()
    &&& forall|name: Seq<char>| #[trigger]
        m.stats.contains_key(name) && m.stats[name].last_frame >= m.frame_number ==> {
            &&& m.stats[name].last_frame == m.frame_number
            &&& exists|i: int|
                0 <= i < m.frame_widgets.len() && (#[trigger] m.frame_widgets[i]).name == name
        }
    &&& forall|i: int|
        0 <= i < m.frame_widgets.len() ==> m.stats.contains_key(
            (#[trigger] m.frame_widgets[i]).name,
        ) && m.stats[m.frame_widgets[i].name].last_frame == m.frame_number
}

/// The depths of a frame still hang together when a widget ends.
proof fn lemma_depths_agree_after_end_widget(m: ProfilerModel, now: nat, cells: nat)
    requires
        depths_agree(m),
    ensures
        depths_agree(m.end_widget(now, cells)),
{
    if m.open_widgets.len() > 0 {
        let after = m.end_widget(now, cells);
        let frame = m.frame_number;
        let ended = m.open_widgets.last().name;
        let old_depth = detector::rendered_depth(frame, m.frame_widgets, m.stats);
        let new_depth = detector::rendered_depth(frame, after.frame_widgets, after.stats);
        let last = m.frame_widgets.len() as int;
        lemma_rendered_depth(frame, m.frame_widgets, m.stats);
        lemma_rendered_depth(frame, after.frame_widgets, after.stats);
        assert(after.frame_widgets[last].name == ended);
        assert(detector::depth_in(frame, after.frame_widgets[last], after.stats)
            >= m.open_widgets.len());
        assert forall|i: int| 0 <= i < last implies after.frame_widgets[i]
            == #[trigger] m.frame_widgets[i] && detector::depth_in(
            frame,
            m.frame_widgets[i],
            m.stats,
        ) <= detector::depth_in(frame, after.frame_widgets[i], after.stats) by {}
        if old_depth > 0 {
            let i = choose|i: int|
                0 <= i < last && detector::depth_in(frame, #[trigger] m.frame_widgets[i], m.stats)
                    == old_depth;
            assert(after.frame_widgets[i] == m.frame_widgets[i]);
        }
        assert(old_depth <= new_depth);
        if new_depth > 0 {
            let i = choose|i: int|
                0 <= i <= last && detector::depth_in(
                    frame,
                    #[trigger] after.frame_widgets[i],
                    after.stats,
                ) == new_depth;
            if after.frame_widgets[i].name == ended {
                if m.stats.contains_key(ended) && m.stats[ended].last_frame == frame {
                    let j = choose|j: int|
                        0 <= j < last && (#[trigger] m.frame_widgets[j]).name == ended;
                    assert(detector::depth_in(frame, m.frame_widgets[j], m.stats) <= old_depth);
                }
            } else {
                assert(after.frame_widgets[i] == m.frame_widgets[i]);
            }
        }
        assert(new_depth <= m.deepest);
        assert forall|name: Seq<char>| #[trigger]
            after.stats.contains_key(name) && after.stats[name].last_frame
                >= after.frame_number implies {
            &&& after.stats[name].last_frame == after.frame_number
            &&& exists|i: int|
                0 <= i < after.frame_widgets.len() && (#[trigger] after.frame_widgets[i]).name
                    == name
        } by {
            if name != ended {
                assert(m.stats.contains_key(name));
                let i = choose|i: int|
                    0 <= i < last && (#[trigger] m.frame_widgets[i]).name == name;
                assert(after.frame_widgets[i] == m.frame_widgets[i]);
            }
        }
    }
}

/// The depths of a frame hang together throughout it.
proof fn lemma_depths_agree(m: ProfilerModel, start: nat, steps: Seq<Step>)
    requires
        m.inv(),
        m.open_widgets.len() == 0,
        forall|i: int| 0 <= i < steps.len() ==> !(#[trigger] steps[i] is BeginFrame),
    ensures
        depths_agree(m.begin_frame(start).run(steps)),
    decreases steps.len(),
{
    let frame = m.begin_frame(start);
    if steps.len() == 0 {
        assert forall|name: Seq<char>| #[trigger]
            frame.stats.contains_key(name) implies frame.stats[name].last_frame
            < frame.frame_number by {
            assert(m.stats_inv(name));
        }
        assert(depths_agree(frame));
    } else {
        let init = steps.drop_last();
        assert forall|i: int| 0 <= i < init.len() implies !(#[trigger] init[i] is BeginFrame) by {
            assert(init[i] == steps[i]);
        }
        lemma_depths_agree(m, start, init);
        let before = frame.run(init);
        assert(!(steps[steps.len() - 1] is BeginFrame));
        match steps.last() {
            Step::EndWidget { now, cells } => {
                lemma_depths_agree_after_end_widget(before, now, cells);
            },
            Step::BeginWidget { name, now } => {
                let after = before.begin_widget(name, now);
                assert(after.stats == before.stats && after.frame_widgets == before.frame_widgets);
                assert(depths_agree(after));
            },
            Step::EndFrame { now } => {
                let after = before.end_frame(now);
                assert(after.stats == before.stats && after.frame_widgets == before.frame_widgets);
                assert(depths_agree(after));
            },
            Step::BeginFrame { .. } => {},
        }
    }
}

/// The findings about a frame are just what the detector finds, if no widget that began in it was
/// nested too deep, or if no widget was being rendered when the frame began and none is when it
/// ends. Findings about earlier frames are gone.
pub proof fn law_findings_are_those_of_the_detector(
    m: ProfilerModel,
    start: nat,
    steps: Seq<Step>,
    now: nat,
)
    requires
        m.inv(),
        forall|i: int| 0 <= i < steps.len() ==> !(#[trigger] steps[i] is BeginFrame),
        m.begin_frame(start).run(steps).deepest <= m.budget.max_widget_depth || (
        m.open_widgets.len() == 0 && m.begin_frame(start).run(steps).open_widgets.len() == 0),
    ensures
        ({
            let end = m.begin_frame(start).run(steps);
            end.end_frame(now).findings == detector::frame_findings(
                end.frame_number,
                end.frame_time(now),
                end.frame_widgets,
                end.stats,
                end.budget,
            )
        }),
{
    let end = m.begin_frame(start).run(steps);
    law_budget_stays(m.begin_frame(start), steps);
    if end.deepest > m.budget.max_widget_depth {
        lemma_depths_agree(m, start, steps);
    }
    assert(end.unfinished_nesting() =~= seq![]);
    assert(end.end_frame(now).findings =~= detector::frame_findings(
        end.frame_number,
        end.frame_time(now),
        end.frame_widgets,
        end.stats,
        end.budget,
    ));
}

/// Ending a frame does not reset it, only beginning one does: to end it again adds another record
/// with its number, its widgets and, unless the clock ran backwards, no less time.
pub proof fn law_end_frame_does_not_reset(m: ProfilerModel, first: nat, second: nat)
    requires
        first <= second,
    ensures
        ({
            let once = m.end_frame(first);
            let twice = once.end_frame(second);
            &&& m.frame_time(first) <= once.frame_time(second)
            &&& twice.frame_number == once.frame_number
            &&& twice.stats == once.stats
            &&& twice.last_frame_total_cells() == once.last_frame_total_cells()
            &&& twice.history == profiler::keep_last(
                once.history.push(once.frame_record(second)),
                MAX_HISTORY as nat,
            )
            &&& twice.history.last().frame_number == once.history.last().frame_number
            &&& twice.history.last().widgets == once.history.last().widgets
        }),
{
    let once = m.end_frame(first);
    assert(once.history.last() == m.frame_record(first));
    assert(once.end_frame(second).history.last() == once.frame_record(second));
}

/// Ending a widget undoes its beginning: the widgets around it are as before. What is left is its
/// render, which took as long as the clock says, and its statistics; those of other widgets are
/// unchanged.
pub proof fn law_end_widget_closes_begin_widget(
    m: ProfilerModel,
    name: Seq<char>,
    start: nat,
    now: nat,
    cells: nat,
)
    ensures
        ({
            let end = m.begin_widget(name, start).end_widget(now, cells);
            let time = if start <= now {
                (now - start) as nat
            } else {
                0
            };
            &&& end.open_widgets == m.open_widgets
            &&& end.frame_widgets == m.frame_widgets.push(SampleModel { name, time, cells })
            &&& end.stats == m.stats.insert(
                name,
                m.stats_of(name).record(
                    m.frame_number,
                    time,
                    cells,
                    m.open_widgets.len() + 1,
                ),
            )
            &&& end.frame_number == m.frame_number
            &&& end.history == m.history
            &&& end.findings == m.findings
        }),
{
    let opened = m.begin_widget(name, start);
    assert(opened.open_widgets.drop_last() =~= m.open_widgets);
    assert(opened.stats_of(name) == m.stats_of(name));
}

/// Widgets end innermost first: each of the next calls that end one ends the innermost that is left,
/// whatever their names are.
pub proof fn law_widgets_end_innermost_first(m: ProfilerModel, steps: Seq<Step>)
    requires
        steps.len() <= m.open_widgets.len(),
        forall|i: int| 0 <= i < steps.len() ==> #[trigger] steps[i] is EndWidget,
    ensures
        ({
            let end = m.run(steps);
            let open = m.open_widgets;
            let ended = m.frame_widgets;
            &&& end.open_widgets == open.take(open.len() - steps.len())
            &&& end.frame_widgets.len() == ended.len() + steps.len()
            &&& forall|i: int|
                0 <= i < ended.len() ==> end.frame_widgets[i] == #[trigger] ended[i]
            &&& forall|i: int|
                ended.len() <= i < ended.len() + steps.len() ==> (
                #[trigger] end.frame_widgets[i]).name == open[open.len() - 1 - (i
                    - ended.len())].name
        }),
    decreases steps.len(),
{
    let open = m.open_widgets;
    if steps.len() == 0 {
        assert(open.take(open.len() as int) =~= open);
    } else {
        let init = steps.drop_last();
        assert forall|i: int| 0 <= i < init.len() implies #[trigger] init[i] is EndWidget by {
            assert(init[i] == steps[i]);
        }
        law_widgets_end_innermost_first(m, init);
        let before = m.run(init);
        let end = m.run(steps);
        assert(steps[steps.len() - 1] is EndWidget);
        assert(end.open_widgets =~= open.take(open.len() - steps.len()));
        assert forall|i: int| 0 <= i < m.frame_widgets.len() implies end.frame_widgets[i]
            == #[trigger] m.frame_widgets[i] by {
            assert(before.frame_widgets[i] == m.frame_widgets[i]);
        }
    }
}

/// Ending a widget when none is being rendered changes nothing.
pub proof fn law_end_widget_alone_is_ignored(m: ProfilerModel, now: nat, cells: nat)
    requires
        m.open_widgets.len() == 0,
    ensures
        m.end_widget(now, cells) == m,
{
}

/// The first render of a widget is never a full redraw; nor is one that writes as many cells as the
/// render before it.
pub proof fn law_steady_widget_is_no_full_redraw(
    s: StatsModel,
    frame: nat,
    time: nat,
    cells: nat,
    depth: nat,
)
    requires
        s.render_count == 0 || cells == s.last_cells,
    ensures
        !s.record(frame, time, cells, depth).last_was_full_redraw,
{
}

/// The clock's reading at a call.
pub open spec fn reading(step: Step) -> nat {
    match step {
        Step::BeginFrame { now } => now,
        Step::BeginWidget { now, .. } => now,
        Step::EndWidget { now, .. } => now,
        Step::EndFrame { now } => now,
    }
}

/// No widget takes more than the frame: if the clock does not run backwards, no widget was being
/// rendered when the frame began and no other frame began since, then each render took at most the
/// frame's time, that is 100% of it.
pub proof fn law_widgets_fit_in_frame(m: ProfilerModel, start: nat, steps: Seq<Step>, now: nat)
    requires
        m.open_widgets.len() == 0,
        forall|i: int| 0 <= i < steps.len() ==> !(#[trigger] steps[i] is BeginFrame),
        forall|i: int|
            0 <= i < steps.len() ==> start <= reading(#[trigger] steps[i]) && reading(steps[i])
                <= now,
        start <= now,
    ensures
        ({
            let end = m.begin_frame(start).run(steps);
            &&& end.frame_time(now) == now - start
            &&& forall|i: int|
                0 <= i < end.frame_widgets.len() ==> {
                    &&& (#[trigger] end.frame_widgets[i]).time <= end.frame_time(now)
                    &&& detector::percent_of(end.frame_widgets[i].time, end.frame_time(now)) <= 100
                }
        }),
{
    lemma_frame_so_far(m, start, steps, now);
    let end = m.begin_frame(start).run(steps);
    assert forall|i: int| 0 <= i < end.frame_widgets.len() implies detector::percent_of(
        (#[trigger] end.frame_widgets[i]).time,
        end.frame_time(now),
    ) <= 100 by {
        let time = end.frame_widgets[i].time;
        let total = end.frame_time(now);
        if total > 0 {
            assert((200 * time + total) / (2 * total) <= 100) by (nonlinear_arith)
                requires
                    total > 0,
                    time <= total,
            ;
        }
    }
}

/// During a frame its start stays, and every widget began and ended between then and now.
proof fn lemma_frame_so_far(m: ProfilerModel, start: nat, steps: Seq<Step>, now: nat)
    requires
        m.open_widgets.len() == 0,
        forall|i: int| 0 <= i < steps.len() ==> !(#[trigger] steps[i] is BeginFrame),
        forall|i: int|
            0 <= i < steps.len() ==> start <= reading(#[trigger] steps[i]) && reading(steps[i])
                <= now,
        start <= now,
    ensures
        ({
            let end = m.begin_frame(start).run(steps);
            &&& end.frame_start == Some(start)
            &&& forall|i: int|
                0 <= i < end.open_widgets.len() ==> start <= (
                #[trigger] end.open_widgets[i]).start
            &&& forall|i: int|
                0 <= i < end.frame_widgets.len() ==> (#[trigger] end.frame_widgets[i]).time <= now
                    - start
        }),
    decreases steps.len(),
{
    if steps.len() > 0 {
        let init = steps.drop_last();
        assert forall|i: int| 0 <= i < init.len() implies !(#[trigger] init[i] is BeginFrame)
            && start <= reading(init[i]) && reading(init[i]) <= now by {
            assert(init[i] == steps[i]);
        }
        lemma_frame_so_far(m, start, init, now);
        let last = steps[steps.len() - 1];
        assert(start <= reading(last) && reading(last) <= now && !(last is BeginFrame));
    }
}

/// Every finding is of one of the three severities that a report counts.
pub proof fn law_report_counts_every_finding(findings: Seq<FindingModel>)
    ensures
        report::count(findings, Severity::Critical) + report::count(findings, Severity::Warning)
            + report::count(findings, Severity::Hint) == findings.len(),
    decreases findings.len(),
{
    reveal(Seq::filter);
    if findings.len() > 0 {
        law_report_counts_every_finding(findings.drop_last());
    }
}

} // verus!
