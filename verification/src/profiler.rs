//! Per-widget render profiling.
//!
//! Tracks how long each widget takes to render, how many cells it writes,
//! and whether it's doing full redraws or incremental updates.

use std::time::Instant;

use vstd::hash_map::StringHashMap;
use vstd::prelude::*;

use crate::budget;
use crate::budget::{BudgetModel, BudgetViolation, FrameBudget, ViolationModel};
use crate::clock::{nanos_since, Clock};
use crate::detector;
use crate::detector::{FindingModel, SampleModel, WasteDetector, WasteFinding};
use crate::duration;
use crate::duration::Duration;
use crate::report::ReportFormatter;
use crate::stats::{PerWidgetStats, StatsModel};

verus! {

/// The most frames that the history holds.
pub const MAX_HISTORY: usize = 120;

/// A single completed frame's data.
#[derive(Debug)]
pub(crate) struct FrameRecord {
    pub frame_number: u64,
    pub total_time: Duration,
    pub widget_times: Vec<(String, Duration, usize)>,
    pub violations: Vec<BudgetViolation>,
}

/// The main profiler. Owns the budget and collects per-frame / per-widget data.
pub struct RenderProfiler {
    budget: FrameBudget,
    clock: Clock,
    frame_number: u64,
    frame_start: Option<Duration>,
    widget_stack: Vec<(String, Duration)>,
    deepest: usize,
    current_frame_widgets: Vec<(String, Duration, usize)>,
    widget_stats: StringHashMap<PerWidgetStats>,
    widget_names: Vec<String>,
    history: Vec<FrameRecord>,
    detector: WasteDetector,
}

/// A completed frame: its number, its time in nanoseconds, its widgets and its violations.
pub struct FrameModel {
    pub frame_number: nat,
    pub total_time: nat,
    pub widgets: Seq<SampleModel>,
    pub violations: Seq<ViolationModel>,
}

/// A widget that is being rendered: its name, and the clock's reading when it began.
pub struct OpenModel {
    pub name: Seq<char>,
    pub start: nat,
}

/// The state of a [`RenderProfiler`], with every time in nanoseconds.
pub struct ProfilerModel {
    pub budget: BudgetModel,
    /// The last reading that was taken of the clock.
    pub clock: nat,
    /// How many frames were begun.
    pub frame_number: nat,
    /// The clock's reading when the last frame was begun.
    pub frame_start: Option<nat>,
    /// The widgets being rendered, the innermost last.
    pub open_widgets: Seq<OpenModel>,
    /// How deep the deepest of the widgets that were begun since the last frame was begun is nested.
    pub deepest: nat,
    /// The renders that ended since the last frame was begun.
    pub frame_widgets: Seq<SampleModel>,
    pub stats: Map<Seq<char>, StatsModel>,
    /// The names of the widgets that were rendered, in the order of their first renders.
    pub names: Seq<Seq<char>>,
    /// The completed frames, the most recent last.
    pub history: Seq<FrameModel>,
    /// The findings about the frame completed last.
    pub findings: Seq<FindingModel>,
}

/// The cells that the widgets wrote in all.
pub open spec fn total_cells(widgets: Seq<SampleModel>) -> nat
    decreases widgets.len(),
{
    if widgets.len() == 0 {
        0
    } else {
        total_cells(widgets.drop_last()) + widgets.last().cells
    }
}

/// The characters of each name.
pub open spec fn name_models(names: Seq<String>) -> Seq<Seq<char>> {
    names.map_values(|name: String| name@)
}

/// The last `n` items, or all of them if there are fewer.
pub open spec fn keep_last<A>(items: Seq<A>, n: nat) -> Seq<A> {
    if items.len() <= n {
        items
    } else {
        items.skip(items.len() - n)
    }
}

impl FrameRecord {
    pub open(crate) spec fn model(self) -> FrameModel {
        FrameModel {
            frame_number: self.frame_number as nat,
            total_time: self.total_time@,
            widgets: detector::sample_models(self.widget_times@),
            violations: budget::violation_models(self.violations@),
        }
    }
}

impl ProfilerModel {
    /// The state of a new profiler.
    pub open spec fn start(budget: BudgetModel) -> ProfilerModel {
        ProfilerModel {
            budget,
            clock: 0,
            frame_number: 0,
            frame_start: None,
            open_widgets: seq![],
            deepest: 0,
            frame_widgets: seq![],
            stats: Map::empty(),
            names: seq![],
            history: seq![],
            findings: seq![],
        }
    }

    /// The state after the clock read `now`.
    pub open spec fn tick(self, now: nat) -> ProfilerModel {
        ProfilerModel { clock: now, ..self }
    }

    /// The state after a frame began at `now`.
    pub open spec fn begin_frame(self, now: nat) -> ProfilerModel {
        ProfilerModel {
            frame_number: self.frame_number + 1,
            frame_start: Some(now),
            deepest: 0,
            frame_widgets: seq![],
            ..self
        }
    }

    /// The state after a widget began at `now`.
    pub open spec fn begin_widget(self, name: Seq<char>, now: nat) -> ProfilerModel {
        let depth = self.open_widgets.len() + 1;
        ProfilerModel {
            open_widgets: self.open_widgets.push(OpenModel { name, start: now }),
            deepest: if depth > self.deepest {
                depth
            } else {
                self.deepest
            },
            ..self
        }
    }

    /// The statistics of a widget so far.
    pub open spec fn stats_of(self, name: Seq<char>) -> StatsModel {
        if self.stats.contains_key(name) {
            self.stats[name]
        } else {
            StatsModel::fresh(name)
        }
    }

    /// The state after the innermost widget ended at `now`, having written `cells` cells; unchanged
    /// if no widget is being rendered.
    pub open spec fn end_widget(self, now: nat, cells: nat) -> ProfilerModel {
        if self.open_widgets.len() == 0 {
            self
        } else {
            let name = self.open_widgets.last().name;
            let time = duration::elapsed_between(self.open_widgets.last().start, now);
            ProfilerModel {
                open_widgets: self.open_widgets.drop_last(),
                frame_widgets: self.frame_widgets.push(SampleModel { name, time, cells }),
                stats: self.stats.insert(
                    name,
                    self.stats_of(name).record(
                        self.frame_number,
                        time,
                        cells,
                        self.open_widgets.len(),
                    ),
                ),
                names: if self.stats.contains_key(name) {
                    self.names
                } else {
                    self.names.push(name)
                },
                ..self
            }
        }
    }

    /// How long the frame has taken at `now`; zero if no frame was ever begun.
    pub open spec fn frame_time(self, now: nat) -> nat {
        match self.frame_start {
            Some(start) => duration::elapsed_between(start, now),
            None => 0,
        }
    }

    /// The record of the frame if it is completed at `now`.
    pub open spec fn frame_record(self, now: nat) -> FrameModel {
        FrameModel {
            frame_number: self.frame_number,
            total_time: self.frame_time(now),
            widgets: self.frame_widgets,
            violations: self.budget.violations(
                self.frame_time(now),
                total_cells(self.frame_widgets),
                self.deepest,
            ),
        }
    }

    /// The finding that a widget began in the frame deeper than the limit, unless the detector finds
    /// the frame nested just as deep.
    pub open spec fn unfinished_nesting(self) -> Seq<FindingModel> {
        let limit = self.budget.max_widget_depth;
        let widgets = self.frame_widgets.len();
        if self.deepest > limit && self.deepest != detector::rendered_depth(
            self.frame_number,
            self.frame_widgets,
            self.stats,
        ) && !(widgets > 2 * limit && widgets == self.deepest) {
            seq![detector::nesting_finding(self.frame_number, self.deepest, limit)]
        } else {
            seq![]
        }
    }

    /// The state after the frame was completed at `now`.
    pub open spec fn end_frame(self, now: nat) -> ProfilerModel {
        ProfilerModel {
            history: keep_last(self.history.push(self.frame_record(now)), MAX_HISTORY as nat),
            findings: detector::frame_findings(
                self.frame_number,
                self.frame_time(now),
                self.frame_widgets,
                self.stats,
                self.budget,
            ) + self.unfinished_nesting(),
            ..self
        }
    }

    /// What holds of the statistics kept under `name`.
    pub open spec fn stats_inv(self, name: Seq<char>) -> bool {
        &&& self.stats[name].name == name
        &&& self.stats[name].consistent()
        &&& self.stats[name].peak_time <= duration::MAX_NANOS
        &&& self.stats[name].last_frame <= self.frame_number
    }

    /// Whether the frames of the history are in the order of their numbers, and none has yet to
    /// begin.
    pub open spec fn history_in_order(self) -> bool {
        &&& forall|i: int, j: int|
            0 <= i <= j < self.history.len() ==> (#[trigger] self.history[i]).frame_number <= (
            #[trigger] self.history[j]).frame_number
        &&& forall|i: int|
            0 <= i < self.history.len() ==> (#[trigger] self.history[i]).frame_number
                <= self.frame_number
    }

    /// What holds of every profiler: the history is bounded and in order, the cells of each of its
    /// frames can be counted, each widget's statistics are its own and consistent, and the names are
    /// those of the statistics, each one once.
    pub open spec fn inv(self) -> bool {
        &&& self.history.len() <= MAX_HISTORY
        &&& self.history_in_order()
        &&& forall|i: int|
            0 <= i < self.history.len() ==> total_cells((#[trigger] self.history[i]).widgets)
                <= usize::MAX
        &&& forall|name: Seq<char>| #[trigger]
            self.stats.contains_key(name) ==> self.stats_inv(name)
        &&& self.names.no_duplicates()
        &&& forall|name: Seq<char>| #[trigger]
            self.names.contains(name) <==> self.stats.contains_key(name)
    }

    /// The violations of the frame completed last; none if there is no such frame.
    pub open spec fn last_violations(self) -> Seq<ViolationModel> {
        if self.history.len() == 0 {
            seq![]
        } else {
            self.history.last().violations
        }
    }

    /// The cells written in the frame completed last; zero if there is no such frame.
    pub open spec fn last_frame_total_cells(self) -> nat {
        if self.history.len() == 0 {
            0
        } else {
            total_cells(self.history.last().widgets)
        }
    }

    /// The invariant survives the end of a widget.
    pub proof fn lemma_end_widget_inv(self, now: nat, cells: nat)
        requires
            self.inv(),
            self.open_widgets.len() > 0 ==> duration::elapsed_between(
                self.open_widgets.last().start,
                now,
            ) <= duration::MAX_NANOS,
        ensures
            self.end_widget(now, cells).inv(),
    {
        if self.open_widgets.len() > 0 {
            let after = self.end_widget(now, cells);
            let ended = self.open_widgets.last().name;
            let time = duration::elapsed_between(self.open_widgets.last().start, now);
            assert forall|name: Seq<char>| #[trigger]
                after.stats.contains_key(name) implies after.stats_inv(name) by {
                if name == ended {
                    let old_stats = self.stats_of(name);
                    if self.stats.contains_key(name) {
                        assert(self.stats_inv(name));
                    }
                    old_stats.lemma_record_is_consistent(
                        self.frame_number,
                        time,
                        cells,
                        self.open_widgets.len(),
                    );
                } else {
                    assert(self.stats.contains_key(name));
                    assert(self.stats_inv(name));
                }
            }
            if !self.stats.contains_key(ended) {
                assert(!self.names.contains(ended));
                assert forall|name: Seq<char>| #[trigger]
                    after.names.contains(name) <==> after.stats.contains_key(name) by {
                    if name == ended {
                        assert(after.names[self.names.len() as int] == name);
                    } else if self.names.contains(name) {
                        let i = choose|i: int|
                            0 <= i < self.names.len() && self.names[i] == name;
                        assert(after.names[i] == name);
                    } else if after.names.contains(name) {
                        let i = choose|i: int|
                            0 <= i < after.names.len() && after.names[i] == name;
                        assert(self.names[i] == name);
                    }
                }
            }
        }
    }

    /// The invariant survives the beginning of a frame.
    pub proof fn lemma_begin_frame_inv(self, now: nat)
        requires
            self.inv(),
        ensures
            self.begin_frame(now).inv(),
    {
        let after = self.begin_frame(now);
        assert forall|name: Seq<char>| #[trigger]
            after.stats.contains_key(name) implies after.stats_inv(name) by {
            assert(self.stats_inv(name));
        }
        assert forall|i: int| 0 <= i < after.history.len() implies total_cells(
            (#[trigger] after.history[i]).widgets,
        ) <= usize::MAX by {
            assert(after.history[i] == self.history[i]);
        }
    }

    /// The invariant survives the end of a frame.
    pub proof fn lemma_end_frame_inv(self, now: nat)
        requires
            self.inv(),
            self.can_end_frame(),
        ensures
            self.end_frame(now).inv(),
    {
        let after = self.end_frame(now);
        let pushed = self.history.push(self.frame_record(now));
        assert forall|i: int| 0 <= i < after.history.len() implies total_cells(
            (#[trigger] after.history[i]).widgets,
        ) <= usize::MAX by {
            let j = pushed.len() - after.history.len() + i;
            assert(after.history[i] == pushed[j]);
            if j < self.history.len() {
                assert(self.history[j] == pushed[j]);
            }
        }
        assert forall|i: int, j: int| 0 <= i <= j < after.history.len() implies (
        #[trigger] after.history[i]).frame_number <= (#[trigger] after.history[j]).frame_number
            && after.history[j].frame_number <= after.frame_number by {
            let dropped = pushed.len() - after.history.len();
            assert(after.history[i] == pushed[dropped + i]);
            assert(after.history[j] == pushed[dropped + j]);
            if dropped + i < self.history.len() {
                assert(self.history[dropped + i] == pushed[dropped + i]);
            }
            if dropped + j < self.history.len() {
                assert(self.history[dropped + j] == pushed[dropped + j]);
            }
        }
        assert forall|i: int| 0 <= i < after.history.len() implies (
        #[trigger] after.history[i]).frame_number <= after.frame_number by {
            assert(after.history[i].frame_number <= after.history[i].frame_number);
        }
        assert forall|name: Seq<char>| #[trigger]
            after.stats.contains_key(name) implies after.stats_inv(name) by {
            assert(self.stats_inv(name));
        }
    }

    /// The invariant survives a reading of the clock.
    pub proof fn lemma_tick_inv(self, now: nat)
        requires
            self.inv(),
        ensures
            self.tick(now).inv(),
    {
        let after = self.tick(now);
        assert forall|name: Seq<char>| #[trigger]
            after.stats.contains_key(name) implies after.stats_inv(name) by {
            assert(self.stats_inv(name));
        }
    }

    /// The invariant survives the beginning of a widget.
    pub proof fn lemma_begin_widget_inv(self, name: Seq<char>, now: nat)
        requires
            self.inv(),
        ensures
            self.begin_widget(name, now).inv(),
    {
        let after = self.begin_widget(name, now);
        assert forall|other: Seq<char>| #[trigger]
            after.stats.contains_key(other) implies after.stats_inv(other) by {
            assert(self.stats_inv(other));
        }
    }

    /// Whether one more frame can be counted.
    pub open spec fn can_begin_frame(self) -> bool {
        self.frame_number < u64::MAX
    }

    /// Whether one more render of the innermost widget can be counted.
    pub open spec fn can_end_widget(self) -> bool {
        self.open_widgets.len() > 0 ==> self.stats_of(self.open_widgets.last().name).render_count
            < u64::MAX
    }

    /// Whether the frame's cells can be counted.
    pub open spec fn can_end_frame(self) -> bool {
        total_cells(self.frame_widgets) <= usize::MAX
    }
}

impl View for RenderProfiler {
    type V = ProfilerModel;

    closed spec fn view(&self) -> ProfilerModel {
        ProfilerModel {
            budget: self.budget@,
            clock: self.clock@,
            frame_number: self.frame_number as nat,
            frame_start: match self.frame_start {
                Some(start) => Some(start@),
                None => None,
            },
            open_widgets: self.widget_stack@.map_values(
                |w: (String, Duration)| OpenModel { name: w.0@, start: w.1@ },
            ),
            deepest: self.deepest as nat,
            frame_widgets: detector::sample_models(self.current_frame_widgets@),
            stats: detector::stats_models(self.widget_stats@),
            names: name_models(self.widget_names@),
            history: self.history@.map_values(|r: FrameRecord| r.model()),
            findings: self.detector@,
        }
    }
}

impl RenderProfiler {
    /// What every profiler keeps.
    pub open spec fn wf(&self) -> bool {
        self@.inv()
    }

    /// The point in time that the clock's readings count from.
    pub closed spec fn clock_origin(&self) -> Instant {
        self.clock.origin
    }

    /// Whether the clock can read `now`: it is the time that passed since its origin, as
    /// `Instant::elapsed` gives it, or the last reading if that was more.
    pub closed spec fn can_read(&self, now: nat) -> bool {
        self.clock.can_read(now)
    }

    /// What the clock can read is the time that passed since its origin, as `Instant::elapsed` gives
    /// it in nanoseconds, unless it read more before or the time is beyond the longest span.
    pub(crate) proof fn law_readings_are_elapsed_time(&self, now: nat)
        requires
            self.can_read(now),
        ensures
            exists|nanos: u128| #[trigger]
                call_ensures(nanos_since, (&self.clock_origin(),), nanos) && {
                    &&& now >= self@.clock
                    &&& nanos <= duration::MAX_NANOS ==> now >= nanos && (now == nanos || now
                        == self@.clock)
                    &&& nanos > duration::MAX_NANOS ==> now >= duration::MAX_NANOS && (now
                        == duration::MAX_NANOS || now == self@.clock)
                },
    {
        self.clock.law_readings_are_elapsed_time(now);
        let nanos = choose|nanos: u128| #[trigger]
            call_ensures(nanos_since, (&self.clock.origin,), nanos) && {
                &&& now >= self.clock@
                &&& nanos <= duration::MAX_NANOS ==> now >= nanos && (now == nanos || now
                    == self.clock@)
                &&& nanos > duration::MAX_NANOS ==> now >= duration::MAX_NANOS && (now
                    == duration::MAX_NANOS || now == self.clock@)
            };
        assert(call_ensures(nanos_since, (&self.clock_origin(),), nanos));
    }

    /// Create a new profiler with the given budget.
    pub fn new(budget: FrameBudget) -> (profiler: RenderProfiler)
        ensures
            profiler.wf(),
            profiler@ == ProfilerModel::start(budget@),
    {
        let profiler = RenderProfiler {
            budget,
            clock: Clock::start(),
            frame_number: 0,
            frame_start: None,
            widget_stack: Vec::new(),
            deepest: 0,
            current_frame_widgets: Vec::new(),
            widget_stats: StringHashMap::new(),
            widget_names: Vec::new(),
            history: Vec::new(),
            detector: WasteDetector::new(),
        };
        proof {
            let start = ProfilerModel::start(budget@);
            assert(profiler@.open_widgets =~= start.open_widgets);
            assert(profiler@.frame_widgets =~= start.frame_widgets);
            assert(profiler@.stats =~= start.stats);
            assert(profiler@.names =~= start.names);
            assert(profiler@.history =~= start.history);
        }
        profiler
    }

    /// The configured budget.
    pub fn budget(&self) -> (budget: &FrameBudget)
        ensures
            budget@ == self@.budget,
    {
        &self.budget
    }

    /// Takes a reading of the clock.
    fn read_clock(&mut self) -> (now: Duration)
        requires
            old(self).wf(),
        ensures
            final(self).wf(),
            final(self).clock_origin() == old(self).clock_origin(),
            old(self).can_read(now@),
            old(self)@.clock <= now@,
            final(self)@ == old(self)@.tick(now@),
    {
        let now = self.clock.read();
        proof {
            old(self)@.lemma_tick_inv(now@);
        }
        now
    }

    /// Begin a new frame.
    pub fn begin_frame(&mut self)
        requires
            old(self).wf(),
            old(self)@.can_begin_frame(),
        ensures
            final(self).wf(),
            final(self).clock_origin() == old(self).clock_origin(),
            exists|now: nat|
                old(self).can_read(now) && old(self)@.clock <= now && final(self)@ == (
                #[trigger] old(self)@.tick(now)).begin_frame(now),
    {
        let now = self.read_clock();
        self.begin_frame_at(now);
    }

    /// Begin a new frame when the clock reads `now`.
    pub fn begin_frame_at(&mut self, now: Duration)
        requires
            old(self).wf(),
            old(self)@.can_begin_frame(),
        ensures
            final(self).wf(),
            final(self).clock_origin() == old(self).clock_origin(),
            final(self)@ == old(self)@.begin_frame(now@),
    {
        self.frame_number = self.frame_number + 1;
        self.frame_start = Some(now);
        self.deepest = 0;
        self.current_frame_widgets.clear();
        assert(self@.frame_widgets =~= old(self)@.begin_frame(now@).frame_widgets);
        proof {
            old(self)@.lemma_begin_frame_inv(now@);
        }
    }

    /// Begin timing a widget. Nesting is tracked for depth checks.
    pub fn begin_widget(&mut self, name: &str)
        requires
            old(self).wf(),
        ensures
            final(self).wf(),
            final(self).clock_origin() == old(self).clock_origin(),
            exists|now: nat|
                old(self).can_read(now) && old(self)@.clock <= now && final(self)@ == (
                #[trigger] old(self)@.tick(now)).begin_widget(name@, now),
    {
        let now = self.read_clock();
        self.begin_widget_at(name, now);
    }

    /// Begin timing a widget when the clock reads `now`.
    pub fn begin_widget_at(&mut self, name: &str, now: Duration)
        requires
            old(self).wf(),
        ensures
            final(self).wf(),
            final(self).clock_origin() == old(self).clock_origin(),
            final(self)@ == old(self)@.begin_widget(name@, now@),
    {
        self.widget_stack.push((name.to_owned(), now));
        let depth: usize = self.widget_stack.len();
        if depth > self.deepest {
            self.deepest = depth;
        }
        assert(self@.open_widgets =~= old(self)@.begin_widget(name@, now@).open_widgets);
        proof {
            old(self)@.lemma_begin_widget_inv(name@, now@);
        }
    }

    /// End timing a widget. `cells_written` is the number of terminal cells this widget touched.
    pub fn end_widget(&mut self, cells_written: usize)
        requires
            old(self).wf(),
            old(self)@.can_end_widget(),
        ensures
            final(self).wf(),
            final(self).clock_origin() == old(self).clock_origin(),
            exists|now: nat|
                old(self).can_read(now) && old(self)@.clock <= now && final(self)@ == (
                #[trigger] old(self)@.tick(now)).end_widget(now, cells_written as nat),
    {
        let now = self.read_clock();
        self.end_widget_at(cells_written, now);
    }

    /// End timing a widget when the clock reads `now`.
    pub fn end_widget_at(&mut self, cells_written: usize, now: Duration)
        requires
            old(self).wf(),
            old(self)@.can_end_widget(),
        ensures
            final(self).wf(),
            final(self).clock_origin() == old(self).clock_origin(),
            final(self)@ == old(self)@.end_widget(now@, cells_written as nat),
    {
        let depth: usize = self.widget_stack.len();
        if let Some((name, start)) = self.widget_stack.pop() {
            let elapsed = now.saturating_sub(start);
            let mut stats = match self.widget_stats.get(name.as_str()) {
                Some(stats) => stats.clone(),
                None => {
                    self.widget_names.push(name.clone());
                    PerWidgetStats::fresh(name.clone())
                },
            };
            stats.record(self.frame_number, elapsed, cells_written, depth);
            self.current_frame_widgets.push((name.clone(), elapsed, cells_written));
            self.widget_stats.insert(name, stats);
            proof {
                let before = old(self)@;
                let after = before.end_widget(now@, cells_written as nat);
                assert(before.open_widgets.last() == OpenModel { name: name@, start: start@ });
                assert(self@.open_widgets =~= after.open_widgets);
                assert(self@.frame_widgets =~= after.frame_widgets);
                assert(self@.stats =~= after.stats);
                assert(self@.names =~= after.names);
                before.lemma_end_widget_inv(now@, cells_written as nat);
            }
        }
    }

    /// A copy of the widgets of the frame so far.
    fn copy_frame_widgets(&self) -> (copy: Vec<(String, Duration, usize)>)
        ensures
            copy@ == self.current_frame_widgets@,
    {
        let mut copy: Vec<(String, Duration, usize)> = Vec::new();
        let mut i: usize = 0;
        while i < self.current_frame_widgets.len()
            invariant
                i <= self.current_frame_widgets.len(),
                copy@ == self.current_frame_widgets@.take(i as int),
            decreases self.current_frame_widgets.len() - i,
        {
            let widget = &self.current_frame_widgets[i];
            copy.push((widget.0.clone(), widget.1, widget.2));
            assert(copy@ =~= self.current_frame_widgets@.take(i + 1));
            i = i + 1;
        }
        assert(copy@ =~= self.current_frame_widgets@);
        copy
    }

    /// End the current frame. Returns total frame time.
    pub fn end_frame(&mut self) -> (total: Duration)
        requires
            old(self).wf(),
            old(self)@.can_end_frame(),
        ensures
            final(self).wf(),
            final(self).clock_origin() == old(self).clock_origin(),
            exists|now: nat|
                old(self).can_read(now) && old(self)@.clock <= now && final(self)@ == (
                #[trigger] old(self)@.tick(now)).end_frame(now) && total@
                    == old(self)@.frame_time(now),
    {
        let now = self.read_clock();
        self.end_frame_at(now)
    }

    /// End the current frame when the clock reads `now`. Returns total frame time.
    pub fn end_frame_at(&mut self, now: Duration) -> (total: Duration)
        requires
            old(self).wf(),
            old(self)@.can_end_frame(),
        ensures
            final(self).wf(),
            final(self).clock_origin() == old(self).clock_origin(),
            final(self)@ == old(self)@.end_frame(now@),
            total@ == old(self)@.frame_time(now@),
    {
        let total = match self.frame_start {
            Some(start) => now.saturating_sub(start),
            None => Duration::zero(),
        };
        let cells: usize = sum_cells(&self.current_frame_widgets);
        let violations = self.budget.check_frame(total, cells, self.deepest);
        let mut findings = self.detector.detect(
            self.frame_number,
            total,
            self.current_frame_widgets.as_slice(),
            &self.widget_stats,
            &self.budget,
        );
        let ghost detected = detector::finding_models(findings@);
        let limit: usize = self.budget.max_widget_depth;
        let widgets: usize = self.current_frame_widgets.len();
        if self.deepest > limit && self.deepest != detector::deepest_render(
            self.frame_number,
            self.current_frame_widgets.as_slice(),
            &self.widget_stats,
        ) && !(detector::has_many_widgets(widgets, limit) && widgets == self.deepest) {
            findings.push(WasteFinding::nesting(self.frame_number, self.deepest, limit));
        }
        assert(detector::finding_models(findings@) =~= detected + self@.unfinished_nesting());
        let record = FrameRecord {
            frame_number: self.frame_number,
            total_time: total,
            widget_times: self.copy_frame_widgets(),
            violations,
        };
        if self.history.len() >= MAX_HISTORY {
            self.history.remove(0);
        }
        self.history.push(record);
        self.detector.stash_findings(self.frame_number, findings);
        proof {
            let before = old(self)@;
            assert(record.model() == before.frame_record(now@));
            assert(self@.history =~= before.end_frame(now@).history);
            before.lemma_end_frame_inv(now@);
        }
        total
    }

    /// Generate a human-readable report for the last frame.
    pub fn report(&self) -> (report: ReportFormatter<'_>)
        ensures
            report@ == self@,
    {
        ReportFormatter::new(self)
    }

    /// Per-widget stats.
    pub fn widget_stats(&self) -> (stats: &StringHashMap<PerWidgetStats>)
        ensures
            detector::stats_models(stats@) == self@.stats,
    {
        &self.widget_stats
    }

    /// The names of the widgets in [`Self::widget_stats`], in the order of their first renders.
    pub fn widget_names(&self) -> (names: &[String])
        requires
            self.wf(),
        ensures
            name_models(names@) == self@.names,
            name_models(names@).no_duplicates(),
            forall|name: Seq<char>| #[trigger]
                name_models(names@).contains(name) <==> self@.stats.contains_key(name),
    {
        self.widget_names.as_slice()
    }

    /// Last frame number.
    pub fn last_frame(&self) -> (frame: u64)
        ensures
            frame == self@.frame_number,
    {
        self.frame_number
    }

    /// Last frame total time.
    pub fn last_frame_time(&self) -> (time: Option<Duration>)
        ensures
            time is Some <==> self@.history.len() > 0,
            time matches Some(t) ==> t@ == self@.history.last().total_time,
    {
        let n: usize = self.history.len();
        if n == 0 {
            None
        } else {
            Some(self.history[n - 1].total_time)
        }
    }

    /// Violations from the last frame.
    pub fn last_violations(&self) -> (violations: &[BudgetViolation])
        ensures
            budget::violation_models(violations@) == self@.last_violations(),
    {
        let n: usize = self.history.len();
        if n == 0 {
            let none: &[BudgetViolation] = &[];
            assert(budget::violation_models(none@) =~= self@.last_violations());
            none
        } else {
            self.history[n - 1].violations.as_slice()
        }
    }

    /// Waste findings from the last frame.
    pub fn last_findings(&self) -> (findings: &[WasteFinding])
        ensures
            detector::finding_models(findings@) == self@.findings,
    {
        self.detector.last_findings()
    }

    /// Access the history (most recent last).
    pub(crate) fn history(&self) -> (history: &[FrameRecord])
        ensures
            history@.map_values(|r: FrameRecord| r.model()) == self@.history,
    {
        self.history.as_slice()
    }

    /// Get the total cells from the last frame's widgets.
    pub fn last_frame_total_cells(&self) -> (cells: usize)
        requires
            self.wf(),
        ensures
            cells == self@.last_frame_total_cells(),
    {
        let n: usize = self.history.len();
        if n == 0 {
            0
        } else {
            assert(self@.history[n - 1] == self.history@[n - 1].model());
            sum_cells(&self.history[n - 1].widget_times)
        }
    }
}

/// The cells that the widgets wrote in all.
fn sum_cells(widgets: &Vec<(String, Duration, usize)>) -> (cells: usize)
    requires
        total_cells(detector::sample_models(widgets@)) <= usize::MAX,
    ensures
        cells == total_cells(detector::sample_models(widgets@)),
{
    let ghost samples = detector::sample_models(widgets@);
    let mut cells: usize = 0;
    let mut i: usize = 0;
    while i < widgets.len()
        invariant
            i <= widgets.len(),
            samples == detector::sample_models(widgets@),
            total_cells(samples) <= usize::MAX,
            cells == total_cells(samples.take(i as int)),
        decreases widgets.len() - i,
    {
        proof {
            lemma_total_cells_monotonic(samples, i + 1);
            assert(samples.take(i + 1).drop_last() =~= samples.take(i as int));
        }
        cells = cells + widgets[i].2;
        i = i + 1;
    }
    assert(samples.take(i as int) =~= samples);
    cells
}

/// A prefix of the widgets writes no more cells than all of them.
proof fn lemma_total_cells_monotonic(widgets: Seq<SampleModel>, n: int)
    requires
        0 <= n <= widgets.len(),
    ensures
        total_cells(widgets.take(n)) <= total_cells(widgets),
    decreases widgets.len() - n,
{
    if n == widgets.len() {
        assert(widgets.take(n) =~= widgets);
    } else {
        lemma_total_cells_monotonic(widgets, n + 1);
        assert(widgets.take(n + 1).drop_last() =~= widgets.take(n));
    }
}

} // verus!
