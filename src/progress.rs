use crate::builder::MapBuilder;
use crate::runner::GeneraotrRunner;
use vstd::prelude::*;

verus! {

/// What a progress indicator shows while the map is generated.
pub struct ProgressBar {
    pub total: i32,
    pub current: i32,
    pub label: Option<&'static str>,
    pub y: i32,
}

impl ProgressBar {
    pub const HEIGHT: i32 = 7;

    pub const WIDTH: i32 = 70;

    /// An empty bar on row `y`.
    pub fn new(y: i32) -> (r: ProgressBar)
        ensures
            r.total == 1,
            r.current == 0,
            r.label is None,
            r.y == y,
    {
        ProgressBar { total: 1, current: 0, label: None, y }
    }
}

/// Copies the runner's progress into the bar, when there is one.
pub fn world_gen_progress(bar: &mut Option<ProgressBar>, runner: &GeneraotrRunner, builder: &MapBuilder)
    requires
        runner.wf(),
    ensures
        (*old(bar)) is None ==> (*final(bar)) is None,
        *old(bar) matches Some(b) ==> (*final(bar) matches Some(nb) && nb.y == b.y && nb.total
            == runner.total() && nb.current == runner.progress(builder@) && (runner.finished()
            ==> nb.label is None) && (!runner.finished() ==> (nb.label matches Some(s) && s@
            == runner.commands@[runner.run_index as int].label()))),
{
    if let Some(progress) = bar {
        progress.total = runner.total_steps();
        progress.current = runner.current_step(builder);
        progress.label = runner.get_render_text();
    }
}

} // verus!
