//! Render profiling and frame budgets for terminal user interfaces.
//!
//! A [`RenderProfiler`] times frames and the widgets rendered in them, holds each frame against a
//! [`FrameBudget`], and has a [`WasteDetector`] look for rendering anti-patterns. It needs widget
//! names, timing and cell counts, and nothing else of the user interface.
//!
//! The contracts speak of models: every time is a number of nanoseconds, every name a sequence of
//! characters. A profiler stands for a [`profiler::ProfilerModel`], and each of its calls for a
//! step of that model; [`laws`] says what holds over many of them, and [`meaning`] what the words of
//! the contracts mean.

pub mod budget;
mod clock;
pub mod detector;
pub mod duration;
pub mod laws;
pub mod meaning;
pub mod profiler;
pub mod report;
pub mod stats;
pub mod text;

pub use crate::budget::{BudgetViolation, FrameBudget};
pub use crate::detector::{Severity, WasteCategory, WasteDetector, WasteFinding};
pub use crate::duration::Duration;
pub use crate::profiler::RenderProfiler;
pub use crate::report::ReportFormatter;
pub use crate::stats::PerWidgetStats;
pub use vstd::hash_map::StringHashMap;
