//! Frame budgets and the ways a frame can exceed them.

use vstd::prelude::*;

use crate::duration::Duration;

verus! {

/// The limits that a frame is held to.
#[derive(Clone, Copy, Debug)]
pub struct FrameBudget {
    /// The longest time that rendering a frame may take.
    pub max_render_time: Duration,
    /// The most cells that the widgets of a frame may write in all.
    pub max_diff_cells: usize,
    /// The deepest that widgets may be nested.
    pub max_widget_depth: usize,
}

/// A limit that a frame exceeded.
#[derive(Clone, Copy, Debug, PartialEq, Eq)]
pub enum BudgetViolation {
    /// The frame took longer than its time budget.
    OverTime { actual: Duration, budget: Duration },
    /// The widgets wrote more cells in all than the diff budget.
    DiffTooLarge { cells: usize, limit: usize },
    /// The widgets were nested deeper than the depth limit.
    DepthTooDeep { depth: usize, limit: usize },
}

/// A [`FrameBudget`] with its time limit in nanoseconds.
pub struct BudgetModel {
    pub max_render_time: nat,
    pub max_diff_cells: nat,
    pub max_widget_depth: nat,
}

/// A [`BudgetViolation`] with its times in nanoseconds.
pub enum ViolationModel {
    OverTime { actual: nat, budget: nat },
    DiffTooLarge { cells: nat, limit: nat },
    DepthTooDeep { depth: nat, limit: nat },
}

impl View for FrameBudget {
    type V = BudgetModel;

    open spec fn view(&self) -> BudgetModel {
        BudgetModel {
            max_render_time: self.max_render_time@,
            max_diff_cells: self.max_diff_cells as nat,
            max_widget_depth: self.max_widget_depth as nat,
        }
    }
}

impl View for BudgetViolation {
    type V = ViolationModel;

    open spec fn view(&self) -> ViolationModel {
        match *self {
            BudgetViolation::OverTime { actual, budget } => ViolationModel::OverTime {
                actual: actual@,
                budget: budget@,
            },
            BudgetViolation::DiffTooLarge { cells, limit } => ViolationModel::DiffTooLarge {
                cells: cells as nat,
                limit: limit as nat,
            },
            BudgetViolation::DepthTooDeep { depth, limit } => ViolationModel::DepthTooDeep {
                depth: depth as nat,
                limit: limit as nat,
            },
        }
    }
}

impl BudgetModel {
    /// The violation of a frame that took `actual` nanoseconds, if that is over the time budget.
    pub open spec fn over_time(self, actual: nat) -> Option<ViolationModel> {
        if actual > self.max_render_time {
            Some(ViolationModel::OverTime { actual, budget: self.max_render_time })
        } else {
            None
        }
    }

    /// The violation of a frame that wrote `cells` cells, if those are over the diff budget.
    pub open spec fn diff_too_large(self, cells: nat) -> Option<ViolationModel> {
        if cells > self.max_diff_cells {
            Some(ViolationModel::DiffTooLarge { cells, limit: self.max_diff_cells })
        } else {
            None
        }
    }

    /// The violation of a frame nested `depth` deep, if that is over the depth limit.
    pub open spec fn depth_too_deep(self, depth: nat) -> Option<ViolationModel> {
        if depth > self.max_widget_depth {
            Some(ViolationModel::DepthTooDeep { depth, limit: self.max_widget_depth })
        } else {
            None
        }
    }

    /// Every violation of a frame: of its time, then of its cells, then of its depth.
    pub open spec fn violations(self, actual: nat, cells: nat, depth: nat) -> Seq<ViolationModel> {
        listed(self.over_time(actual)) + listed(self.diff_too_large(cells)) + listed(
            self.depth_too_deep(depth),
        )
    }
}

/// The sequence of the violation that is there, if any.
pub open spec fn listed(violation: Option<ViolationModel>) -> Seq<ViolationModel> {
    match violation {
        Some(v) => seq![v],
        None => seq![],
    }
}

/// The sequence of what each violation stands for.
pub open spec fn violation_models(violations: Seq<BudgetViolation>) -> Seq<ViolationModel> {
    violations.map_values(|v: BudgetViolation| v@)
}

impl FrameBudget {
    /// A budget with the given limits.
    pub fn new(
        max_render_time: Duration,
        max_diff_cells: usize,
        max_widget_depth: usize,
    ) -> (budget: FrameBudget)
        ensures
            budget.max_render_time == max_render_time,
            budget.max_diff_cells == max_diff_cells,
            budget.max_widget_depth == max_widget_depth,
    {
        FrameBudget { max_render_time, max_diff_cells, max_widget_depth }
    }

    /// The budget for 60 frames a second: 16 milliseconds, 10,000 cells, 5 levels.
    pub fn for_60fps() -> (budget: FrameBudget)
        ensures
            budget@ == (BudgetModel {
                max_render_time: 16_000_000,
                max_diff_cells: 10_000,
                max_widget_depth: 5,
            }),
    {
        FrameBudget::new(Duration::from_millis(16), 10_000, 5)
    }

    /// The budget for 30 frames a second: 33 milliseconds, 10,000 cells, 5 levels.
    pub fn for_30fps() -> (budget: FrameBudget)
        ensures
            budget@ == (BudgetModel {
                max_render_time: 33_000_000,
                max_diff_cells: 10_000,
                max_widget_depth: 5,
            }),
    {
        FrameBudget::new(Duration::from_millis(33), 10_000, 5)
    }

    /// Holds the time that a frame took against the time budget.
    pub fn check_time(&self, actual: Duration) -> (violation: Option<BudgetViolation>)
        ensures
            violation is Some <==> self@.over_time(actual@) is Some,
            violation matches Some(v) ==> Some(v@) == self@.over_time(actual@),
    {
        if actual.as_nanos() > self.max_render_time.as_nanos() {
            Some(BudgetViolation::OverTime { actual, budget: self.max_render_time })
        } else {
            None
        }
    }

    /// Holds the cells that a frame wrote against the diff budget.
    pub fn check_diff(&self, cells: usize) -> (violation: Option<BudgetViolation>)
        ensures
            violation is Some <==> self@.diff_too_large(cells as nat) is Some,
            violation matches Some(v) ==> Some(v@) == self@.diff_too_large(cells as nat),
    {
        if cells > self.max_diff_cells {
            Some(BudgetViolation::DiffTooLarge { cells, limit: self.max_diff_cells })
        } else {
            None
        }
    }

    /// Holds a nesting depth against the depth limit.
    pub fn check_depth(&self, depth: usize) -> (violation: Option<BudgetViolation>)
        ensures
            violation is Some <==> self@.depth_too_deep(depth as nat) is Some,
            violation matches Some(v) ==> Some(v@) == self@.depth_too_deep(depth as nat),
    {
        if depth > self.max_widget_depth {
            Some(BudgetViolation::DepthTooDeep { depth, limit: self.max_widget_depth })
        } else {
            None
        }
    }

    /// Holds a whole frame against every limit, and lists the violations.
    pub fn check_frame(&self, actual: Duration, cells: usize, depth: usize) -> (violations: Vec<
        BudgetViolation,
    >)
        ensures
            violation_models(violations@) == self@.violations(actual@, cells as nat, depth as nat),
    {
        let mut violations: Vec<BudgetViolation> = Vec::new();
        if let Some(v) = self.check_time(actual) {
            violations.push(v);
        }
        if let Some(v) = self.check_diff(cells) {
            violations.push(v);
        }
        if let Some(v) = self.check_depth(depth) {
            violations.push(v);
        }
        assert(violation_models(violations@) =~= self@.violations(
            actual@,
            cells as nat,
            depth as nat,
        ));
        violations
    }
}

} // verus!
