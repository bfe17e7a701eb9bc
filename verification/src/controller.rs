//! The reconciler: for one observed record, the effects that bring the
//! cluster a step nearer to what the record declares. It keeps no memory of
//! earlier passes; what it decides depends on the record as observed and on
//! the shared state cell alone.

use crate::benchmark::{Benchmark, BenchmarkState, BenchmarkStatus, BenchmarkView};
use crate::error::{ApiError, ApiErrorView};
use crate::launcher::{uninstall_pipeline, Launch, LaunchView, Pipeline, PipelineView};
use crate::queue::{StatusPatch, StatusPatchView};
use crate::state::{StateData, StateDataView};
use vstd::prelude::*;

verus! {

/// One effect of a reconcile pass. `Plan::progress` says in which order the
/// effects of a plan are performed and where the plan ends.
#[derive(Clone, Debug, PartialEq, Eq)]
pub enum Effect {
    /// Admit the record of this name: list the records of its scope, take
    /// `Benchmark::admission_status` of the listing and write that status.
    Admit { name: String },
    /// Write this record into the shared state cell as the selected one and
    /// take both flags down.
    Select { name: String, namespace: String },
    /// Clear the shared state cell.
    ClearSelection,
    /// Set the running flag of the shared state cell.
    SetRunning(bool),
    /// Set the done flag of the shared state cell.
    SetDone(bool),
    /// Create a pod or install a chart. How the install of a chart ended is
    /// said by `install_outcome`.
    Launch(Launch),
    /// Delete every pod of the namespace.
    DeletePods { namespace: String },
    /// Remove every chart of a namespace by running this pipeline. How the
    /// removal ended is said by `uninstall_outcome`.
    UninstallCharts(Pipeline),
    /// Read the status of the record, pass it through
    /// `Benchmark::set_benchmark_state` and write the result.
    SetState { name: String, namespace: String, state: BenchmarkState },
    /// List the records of the scope and write the patches of
    /// `Benchmark::reorder_pending_benchmarks` for this position, in their
    /// order.
    Reorder { exiting: u32 },
}

pub enum EffectView {
    Admit { name: Seq<char> },
    Select { name: Seq<char>, namespace: Seq<char> },
    ClearSelection,
    SetRunning(bool),
    SetDone(bool),
    Launch(LaunchView),
    DeletePods { namespace: Seq<char> },
    UninstallCharts(PipelineView),
    SetState { name: Seq<char>, namespace: Seq<char>, state: BenchmarkState },
    Reorder { exiting: u32 },
}

impl View for Effect {
    type V = EffectView;

    open spec fn view(&self) -> EffectView {
        match self {
            Effect::Admit { name } => EffectView::Admit { name: name@ },
            Effect::Select { name, namespace } => EffectView::Select {
                name: name@,
                namespace: namespace@,
            },
            Effect::ClearSelection => EffectView::ClearSelection,
            Effect::SetRunning(flag) => EffectView::SetRunning(*flag),
            Effect::SetDone(flag) => EffectView::SetDone(*flag),
            Effect::Launch(step) => EffectView::Launch(step@),
            Effect::DeletePods { namespace } => EffectView::DeletePods { namespace: namespace@ },
            Effect::UninstallCharts(pipeline) => EffectView::UninstallCharts(pipeline@),
            Effect::SetState { name, namespace, state } => EffectView::SetState {
                name: name@,
                namespace: namespace@,
                state: *state,
            },
            Effect::Reorder { exiting } => EffectView::Reorder { exiting: *exiting },
        }
    }
}

impl DeepView for Effect {
    type V = EffectView;

    open spec fn deep_view(&self) -> EffectView {
        self@
    }
}

/// What the controller framework does with a record after a pass.
#[derive(Clone, Copy, Debug, PartialEq, Eq, Structural)]
pub enum Action {
    /// Wait until a change of the record is observed.
    AwaitChange,
    /// Reconcile the record again after this many seconds.
    Requeue { seconds: u64 },
}

/// The outcome of a pass: the effects to perform, and what to do with the
/// record once all of them have succeeded.
#[derive(Clone, Debug, PartialEq, Eq)]
pub struct Plan {
    pub effects: Vec<Effect>,
    pub next: Action,
}

/// What comes next while a plan is performed.
#[derive(Clone, Copy, Debug, PartialEq, Eq, Structural)]
pub enum Progress {
    /// Perform the effect at this index.
    Perform(usize),
    /// Every effect has succeeded: the pass ends with this action.
    Finished(Action),
    /// An effect has failed: the pass ends with its error, no further effect
    /// is performed, and the record is taken up again as this action says.
    Failed(Action),
}

/// What comes next in a plan of `effects` effects of which `performed` have
/// been performed, the last of them with failure if `failed`.
pub open spec fn plan_progress(
    effects: nat,
    next: Action,
    performed: nat,
    failed: bool,
) -> Progress {
    if failed {
        Progress::Failed(Action::Requeue { seconds: 60 })
    } else if performed < effects {
        Progress::Perform(performed as usize)
    } else {
        Progress::Finished(next)
    }
}

/// What the finalizer of the framework asks for: to apply a record that is
/// there to stay, or to clean up after one that is marked for deletion.
#[derive(Clone, Debug, PartialEq, Eq)]
pub enum Event {
    Apply(Benchmark),
    Cleanup(Benchmark),
}

impl BenchmarkView {
    /// The record is due for launch: it is `Pending` at the head of the queue
    /// and the cell reports no running benchmark.
    pub open spec fn is_due(self, cell: StateDataView) -> bool {
        self.status matches Some(status) && status.state == BenchmarkState::Pending
            && status.queue_position == 0 && !cell.is_benchmark_running
    }

    /// The effects of a pass over this record while it is there to stay.
    pub open spec fn reconcile_effects(self, cell: StateDataView) -> Seq<EffectView> {
        match self.status {
            None => seq![EffectView::Admit { name: self.name_any() }],
            Some(status) => match status.state {
                BenchmarkState::Pending => if self.is_due(cell) {
                    seq![
                        EffectView::Select {
                            name: self.name_any(),
                            namespace: self.namespace_or_default(),
                        },
                    ] + self.launch().map_values(|step: LaunchView| EffectView::Launch(step))
                } else {
                    Seq::empty()
                },
                BenchmarkState::Running => seq![EffectView::SetRunning(true)],
                BenchmarkState::Done => seq![
                    EffectView::DeletePods { namespace: self.namespace_or_default() },
                    EffectView::UninstallCharts(uninstall_pipeline(self.namespace_or_default())),
                    EffectView::SetState {
                        name: self.name_any(),
                        namespace: self.namespace_or_default(),
                        state: BenchmarkState::Completed,
                    },
                    EffectView::SetRunning(false),
                    EffectView::SetDone(true),
                    EffectView::Reorder { exiting: status.queue_position },
                ],
                BenchmarkState::Completed => Seq::empty(),
            },
        }
    }

    /// The effects of the finalizer for this record: the charts of its
    /// namespace go, the cell is cleared where the record was running, and
    /// the queue closes up behind it.
    pub open spec fn cleanup_effects(self) -> Seq<EffectView> {
        let uninstall = seq![
            EffectView::UninstallCharts(uninstall_pipeline(self.namespace_or_default())),
        ];
        match self.status {
            None => uninstall,
            Some(status) => if status.state == BenchmarkState::Running {
                uninstall + seq![
                    EffectView::ClearSelection,
                    EffectView::Reorder { exiting: status.queue_position },
                ]
            } else {
                uninstall + seq![EffectView::Reorder { exiting: status.queue_position }]
            },
        }
    }
}

/// What setting `state` on a record of the given current status comes to.
pub open spec fn state_patch(
    name: Seq<char>,
    current: Option<BenchmarkStatus>,
    state: BenchmarkState,
) -> Result<StatusPatchView, ApiErrorView> {
    match current {
        Some(status) => Ok(
            StatusPatchView {
                name: name,
                status: BenchmarkStatus { state: state, queue_position: status.queue_position },
            },
        ),
        None => Err(ApiErrorView::status_missing()),
    }
}

impl Benchmark {
    /// Whether the record is due for launch: `Pending` at the head of the
    /// queue while the cell reports no running benchmark.
    pub fn is_due(&self, cell: &StateData) -> (due: bool)
        ensures
            due == self@.is_due(cell@),
    {
        match &self.status {
            Some(status) => status.state == BenchmarkState::Pending && status.queue_position == 0
                && !cell.is_benchmark_running,
            None => false,
        }
    }

    /// One pass over a record that is there to stay.
    ///
    /// - Without a status the record is admitted.
    /// - `Pending`: a record that is due is selected in the cell and its
    ///   workloads are launched; its state stays `Pending` until a workload
    ///   reports itself. For one that is not due nothing happens.
    /// - `Running`: the running flag of the cell is raised.
    /// - `Done`: pods and charts of the namespace go, the record becomes
    ///   `Completed`, the cell is marked done and the queue closes up.
    /// - `Completed`: nothing happens.
    ///
    /// A record that is due must be launchable.
    pub fn reconcile(&self, cell: &StateData) -> (plan: Plan)
        requires
            self@.is_due(cell@) ==> self@.is_launchable(),
        ensures
            plan.effects.deep_view() == self@.reconcile_effects(cell@),
            plan.next == Action::AwaitChange,
    {
        let mut effects: Vec<Effect> = Vec::new();
        match &self.status {
            None => {
                effects.push(Effect::Admit { name: self.name_any() });
                assert(effects.deep_view() =~= self@.reconcile_effects(cell@));
            },
            Some(status) => match status.state {
                BenchmarkState::Pending => {
                    if !cell.is_benchmark_running && status.queue_position == 0 {
                        effects.push(
                            Effect::Select {
                                name: self.name_any(),
                                namespace: self.namespace_or_default(),
                            },
                        );
                        let steps = self.launch();
                        let mut i: usize = 0;
                        while i < steps.len()
                            invariant
                                i <= steps.len(),
                                effects.deep_view() == seq![
                                    EffectView::Select {
                                        name: self@.name_any(),
                                        namespace: self@.namespace_or_default(),
                                    },
                                ] + steps.deep_view().take(i as int).map_values(
                                    |step: LaunchView| EffectView::Launch(step),
                                ),
                            decreases steps.len() - i,
                        {
                            let ghost before = effects.deep_view();
                            effects.push(Effect::Launch(steps[i].clone_step()));
                            i += 1;
                            assert(effects.deep_view() =~= before.push(
                                EffectView::Launch(steps[i - 1]@),
                            ));
                            assert(steps.deep_view().take(i as int) =~= steps.deep_view().take(
                                i - 1,
                            ).push(steps[i - 1]@));
                        }
                        assert(steps.deep_view().take(steps.len() as int) =~= steps.deep_view());
                    } else {
                        assert(effects.deep_view() =~= self@.reconcile_effects(cell@));
                    }
                },
                BenchmarkState::Running => {
                    effects.push(Effect::SetRunning(true));
                    assert(effects.deep_view() =~= self@.reconcile_effects(cell@));
                },
                BenchmarkState::Done => {
                    let namespace = self.namespace_or_default();
                    effects.push(Effect::DeletePods { namespace: namespace.clone() });
                    effects.push(
                        Effect::UninstallCharts(
                            Benchmark::uninstall_helm_charts(namespace.as_str()),
                        ),
                    );
                    effects.push(
                        Effect::SetState {
                            name: self.name_any(),
                            namespace,
                            state: BenchmarkState::Completed,
                        },
                    );
                    effects.push(Effect::SetRunning(false));
                    effects.push(Effect::SetDone(true));
                    effects.push(Effect::Reorder { exiting: status.queue_position });
                    assert(effects.deep_view() =~= self@.reconcile_effects(cell@));
                },
                BenchmarkState::Completed => {
                    assert(effects.deep_view() =~= self@.reconcile_effects(cell@));
                },
            },
        }
        Plan { effects, next: Action::AwaitChange }
    }

    /// The finalizer: one pass over a record that is marked for deletion.
    /// Pods go with their owner and need no effect here.
    pub fn cleanup(&self) -> (plan: Plan)
        ensures
            plan.effects.deep_view() == self@.cleanup_effects(),
            plan.next == Action::AwaitChange,
    {
        let namespace = self.namespace_or_default();
        let mut effects: Vec<Effect> = Vec::new();
        effects.push(Effect::UninstallCharts(Benchmark::uninstall_helm_charts(namespace.as_str())));
        if let Some(status) = &self.status {
            if status.state == BenchmarkState::Running {
                effects.push(Effect::ClearSelection);
            }
            effects.push(Effect::Reorder { exiting: status.queue_position });
        }
        assert(effects.deep_view() =~= self@.cleanup_effects());
        Plan { effects, next: Action::AwaitChange }
    }

    /// The patch that sets `state` on the record of the given name, whose
    /// status was read as `current`. The queue position stays as it was. A
    /// record without status cannot take a state: that is an error.
    pub fn set_benchmark_state(
        benchmark_name: &str,
        current: Option<BenchmarkStatus>,
        state: BenchmarkState,
    ) -> (outcome: Result<StatusPatch, ApiError>)
        ensures
            match outcome {
                Ok(patch) => state_patch(benchmark_name@, current, state) == Ok::<
                    StatusPatchView,
                    ApiErrorView,
                >(patch@),
                Err(error) => state_patch(benchmark_name@, current, state) == Err::<
                    StatusPatchView,
                    ApiErrorView,
                >(error@),
            },
    {
        match current {
            Some(status) => Ok(
                StatusPatch {
                    name: benchmark_name.to_owned(),
                    status: BenchmarkStatus { state, queue_position: status.queue_position },
                },
            ),
            None => Err(ApiError::status_missing()),
        }
    }
}

impl Plan {
    /// What comes next, after `performed` effects of the plan have been
    /// performed, the last of them with failure if `failed`. The effects
    /// are performed in their order; the plan ends at the first that
    /// fails.
    pub fn progress(&self, performed: usize, failed: bool) -> (step: Progress)
        ensures
            step == plan_progress(self.effects.len() as nat, self.next, performed as nat, failed),
    {
        if failed {
            Progress::Failed(error_policy())
        } else if performed < self.effects.len() {
            Progress::Perform(performed)
        } else {
            Progress::Finished(self.next)
        }
    }
}

/// The pass that the finalizer of the framework asks for.
pub fn reconcile(event: &Event, cell: &StateData) -> (plan: Plan)
    requires
        event matches Event::Apply(record) ==> (record@.is_due(cell@)
            ==> record@.is_launchable()),
    ensures
        plan.next == Action::AwaitChange,
        plan.effects.deep_view() == match event {
            Event::Apply(record) => record@.reconcile_effects(cell@),
            Event::Cleanup(record) => record@.cleanup_effects(),
        },
{
    match event {
        Event::Apply(record) => record.reconcile(cell),
        Event::Cleanup(record) => record.cleanup(),
    }
}

/// What follows a pass that failed, whatever the record and the error: the
/// record is reconciled again after sixty seconds.
pub fn error_policy() -> (action: Action)
    ensures
        action == (Action::Requeue { seconds: 60 }),
{
    Action::Requeue { seconds: 60 }
}

} // verus!
