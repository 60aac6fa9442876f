# Render Budget Guardian

A profiler for terminal user interfaces that holds every frame to a budget. It doesn't depend on any
widget library: it needs widget names, timing and cell counts.

```rust
use ratatui_guardian::{FrameBudget, RenderProfiler};

let budget = FrameBudget::for_60fps();
let mut profiler = RenderProfiler::new(budget);

loop {
    profiler.begin_frame();

    profiler.begin_widget("StatusBar");
    // draw the status bar
    profiler.end_widget(80);

    let total = profiler.end_frame();
    if total > budget.max_render_time {
        println!("{}", profiler.report().render());
    }
}
```

The library is written in Verus. Every public function has a contract, and the verifier proves it.

| Module     | Contents |
|------------|----------|
| `duration` | Spans of time |
| `budget`   | `FrameBudget`: limits on render time, cells written and nesting depth, and their violations |
| `stats`    | `PerWidgetStats`: what is known of a widget across its lifetime |
| `detector` | `WasteDetector`: hogs, full redraws, per-frame allocation, deep nesting |
| `profiler` | `RenderProfiler`: collects timing per frame and per widget, with a 120-frame rolling history |
| `report`   | `ReportFormatter`: the last frame as text |
| `laws`     | What holds over any sequence of calls |

The only thing taken on trust, besides the verifier and its library, is the reading of
`std::time::Instant`, of which nothing is assumed. Each call that reads the clock has a twin, named
`.._at`, that takes the reading as an argument and says exactly what it does with it.

`app/` holds what needs floating point or the standard formatting traits.
