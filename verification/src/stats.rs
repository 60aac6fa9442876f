//! Statistics of a single widget.

use vstd::prelude::*;

use crate::duration;
use crate::duration::Duration;

verus! {

/// Microseconds per cell from which on a render counts as slow.
pub const SLOW_MICROS_PER_CELL: u64 = 50;

/// Statistics collected for a single widget across its lifetime.
#[derive(Debug)]
pub struct PerWidgetStats {
    /// Widget name (the label passed to `begin_widget`).
    pub name: String,
    /// Total render time accumulated across all frames.
    pub total_time: Duration,
    /// Number of times this widget has been rendered.
    pub render_count: u64,
    /// Cells written in the most recent render.
    pub last_cells: usize,
    /// Peak render time for a single call.
    pub peak_time: Duration,
    /// Cells written on the previous render (for diff tracking).
    pub prev_cells: usize,
    /// Whether the last render was a "full redraw" (cells changed significantly).
    pub last_was_full_redraw: bool,
    /// Number of frames in a row, up to `last_slow_frame`, with a slow render of this widget.
    pub slow_frames: u64,
    /// The last frame with a slow render of this widget; 0 if there was none.
    pub last_slow_frame: u64,
    /// The frame of the most recent render.
    pub last_frame: u64,
    /// How deep this widget was nested at most in `last_frame`, where 1 is the outermost level.
    pub last_frame_depth: usize,
}

/// [`PerWidgetStats`] with its times in nanoseconds.
pub struct StatsModel {
    pub name: Seq<char>,
    pub total_time: nat,
    pub render_count: nat,
    pub last_cells: nat,
    pub peak_time: nat,
    pub prev_cells: nat,
    pub last_was_full_redraw: bool,
    pub slow_frames: nat,
    pub last_slow_frame: nat,
    pub last_frame: nat,
    pub last_frame_depth: nat,
}

impl View for PerWidgetStats {
    type V = StatsModel;

    open spec fn view(&self) -> StatsModel {
        StatsModel {
            name: self.name@,
            total_time: self.total_time@,
            render_count: self.render_count as nat,
            last_cells: self.last_cells as nat,
            peak_time: self.peak_time@,
            prev_cells: self.prev_cells as nat,
            last_was_full_redraw: self.last_was_full_redraw,
            slow_frames: self.slow_frames as nat,
            last_slow_frame: self.last_slow_frame as nat,
            last_frame: self.last_frame as nat,
            last_frame_depth: self.last_frame_depth as nat,
        }
    }
}

/// Whole microseconds per cell of a render that took `time` nanoseconds for `cells` cells.
pub open spec fn micros_per_cell(time: nat, cells: nat) -> nat
    recommends
        cells > 0,
{
    (time / 1000) / cells
}

/// Whether a render that took `time` nanoseconds for `cells` cells is slow: it wrote cells, and
/// took 50 microseconds or more for each.
pub open spec fn is_slow(time: nat, cells: nat) -> bool {
    cells > 0 && micros_per_cell(time, cells) >= SLOW_MICROS_PER_CELL
}

/// How far apart two cell counts are.
pub open spec fn cell_difference(a: nat, b: nat) -> nat {
    if a <= b {
        (b - a) as nat
    } else {
        (a - b) as nat
    }
}

impl StatsModel {
    /// The statistics of a widget that was never rendered.
    pub open spec fn fresh(name: Seq<char>) -> StatsModel {
        StatsModel {
            name,
            total_time: 0,
            render_count: 0,
            last_cells: 0,
            peak_time: 0,
            prev_cells: 0,
            last_was_full_redraw: false,
            slow_frames: 0,
            last_slow_frame: 0,
            last_frame: 0,
            last_frame_depth: 0,
        }
    }

    /// The mean time of a render, rounded down; zero if there was none.
    pub open spec fn avg_time(self) -> nat {
        if self.render_count == 0 {
            0
        } else {
            self.total_time / self.render_count
        }
    }

    /// Whether a render of `cells` cells is a full redraw: it is not the first one, and the cells
    /// changed by more than half of what the render before wrote.
    pub open spec fn is_full_redraw(self, cells: nat) -> bool {
        self.render_count > 0 && 2 * cell_difference(cells, self.last_cells) > self.last_cells
    }

    /// The length of the run of frames with a slow render, after a slow render in `frame`.
    pub open spec fn slow_run(self, frame: nat) -> nat {
        if self.slow_frames > 0 && frame == self.last_slow_frame {
            self.slow_frames
        } else if self.slow_frames > 0 && frame == self.last_slow_frame + 1 {
            if self.slow_frames < u64::MAX {
                self.slow_frames + 1
            } else {
                u64::MAX as nat
            }
        } else {
            1
        }
    }

    /// How deep the widget is nested at most in `frame`, after a render `depth` deep.
    pub open spec fn depth_in_frame(self, frame: nat, depth: nat) -> nat {
        if frame == self.last_frame && depth < self.last_frame_depth {
            self.last_frame_depth
        } else {
            depth
        }
    }

    /// The statistics after one more render, in `frame`, nested `depth` deep.
    pub open spec fn record(self, frame: nat, elapsed: nat, cells: nat, depth: nat) -> StatsModel {
        StatsModel {
            name: self.name,
            total_time: duration::capped(self.total_time + elapsed),
            render_count: self.render_count + 1,
            last_cells: cells,
            peak_time: if elapsed > self.peak_time {
                elapsed
            } else {
                self.peak_time
            },
            prev_cells: self.last_cells,
            last_was_full_redraw: self.is_full_redraw(cells),
            slow_frames: if is_slow(elapsed, cells) {
                self.slow_run(frame)
            } else {
                self.slow_frames
            },
            last_slow_frame: if is_slow(elapsed, cells) {
                frame
            } else {
                self.last_slow_frame
            },
            last_frame: frame,
            last_frame_depth: self.depth_in_frame(frame, depth),
        }
    }

    /// What holds of the statistics of a widget that was rendered: the longest render is among those
    /// in the total, and none took longer; after the first render there is nothing before it.
    pub open spec fn consistent(self) -> bool {
        &&& self.render_count > 0
        &&& self.peak_time <= self.total_time
        &&& self.total_time <= self.peak_time * self.render_count
        &&& self.render_count == 1 ==> self.prev_cells == 0 && !self.last_was_full_redraw
    }

    /// Statistics are consistent after a render, if they were, or if it is the first.
    pub proof fn lemma_record_is_consistent(
        self,
        frame: nat,
        elapsed: nat,
        cells: nat,
        depth: nat,
    )
        requires
            self.consistent() || self == StatsModel::fresh(self.name),
            self.peak_time <= duration::MAX_NANOS,
            elapsed <= duration::MAX_NANOS,
        ensures
            self.record(frame, elapsed, cells, depth).consistent(),
    {
        let after = self.record(frame, elapsed, cells, depth);
        assert(self.peak_time * self.render_count + elapsed <= after.peak_time * after.render_count)
            by (nonlinear_arith)
            requires
                self.peak_time <= after.peak_time,
                elapsed <= after.peak_time,
                after.render_count == self.render_count + 1,
        ;
    }
}

/// Whether a render that took `time` for `cells` cells is slow.
pub fn check_slow(time: Duration, cells: usize) -> (slow: bool)
    ensures
        slow == is_slow(time@, cells as nat),
{
    cells > 0 && time.as_micros() / cells as u128 >= SLOW_MICROS_PER_CELL as u128
}

impl Clone for PerWidgetStats {
    fn clone(&self) -> (stats: PerWidgetStats)
        ensures
            stats == *self,
    {
        PerWidgetStats {
            name: self.name.clone(),
            total_time: self.total_time,
            render_count: self.render_count,
            last_cells: self.last_cells,
            peak_time: self.peak_time,
            prev_cells: self.prev_cells,
            last_was_full_redraw: self.last_was_full_redraw,
            slow_frames: self.slow_frames,
            last_slow_frame: self.last_slow_frame,
            last_frame: self.last_frame,
            last_frame_depth: self.last_frame_depth,
        }
    }
}

impl PerWidgetStats {
    /// The statistics of a widget that was never rendered.
    pub fn fresh(name: String) -> (stats: PerWidgetStats)
        ensures
            stats@ == StatsModel::fresh(name@),
    {
        PerWidgetStats {
            name,
            total_time: Duration::zero(),
            render_count: 0,
            last_cells: 0,
            peak_time: Duration::zero(),
            prev_cells: 0,
            last_was_full_redraw: false,
            slow_frames: 0,
            last_slow_frame: 0,
            last_frame: 0,
            last_frame_depth: 0,
        }
    }

    /// Average render time per call.
    pub fn avg_time(&self) -> (avg: Duration)
        ensures
            avg@ == self@.avg_time(),
    {
        if self.render_count == 0 {
            Duration::zero()
        } else {
            let total: u128 = self.total_time.as_nanos();
            let avg: u128 = total / self.render_count as u128;
            assert(avg <= total) by (nonlinear_arith)
                requires
                    avg == total / (self.render_count as u128),
                    self.render_count > 0,
            ;
            Duration::from_nanos(avg)
        }
    }

    /// Adds one more render, in `frame`, nested `depth` deep.
    pub fn record(&mut self, frame: u64, elapsed: Duration, cells: usize, depth: usize)
        requires
            old(self).render_count < u64::MAX,
        ensures
            final(self)@ == old(self)@.record(
                frame as nat,
                elapsed@,
                cells as nat,
                depth as nat,
            ),
    {
        let changed: usize = if cells <= self.last_cells {
            self.last_cells - cells
        } else {
            cells - self.last_cells
        };
        self.last_was_full_redraw = self.render_count > 0 && changed > self.last_cells / 2;
        self.prev_cells = self.last_cells;
        self.last_cells = cells;
        if check_slow(elapsed, cells) {
            if self.slow_frames == 0 || self.last_slow_frame > frame || frame
                - self.last_slow_frame > 1 {
                self.slow_frames = 1;
            } else if self.last_slow_frame < frame && self.slow_frames < u64::MAX {
                self.slow_frames = self.slow_frames + 1;
            }
            self.last_slow_frame = frame;
        }
        if self.last_frame != frame || self.last_frame_depth < depth {
            self.last_frame_depth = depth;
        }
        self.last_frame = frame;
        self.total_time = self.total_time.saturating_add(elapsed);
        self.render_count = self.render_count + 1;
        if elapsed.as_nanos() > self.peak_time.as_nanos() {
            self.peak_time = elapsed;
        }
    }
}

} // verus!
