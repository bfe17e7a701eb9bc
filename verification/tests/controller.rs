use benchmark_operator::benchmark::{
    Benchmark, BenchmarkSpec, BenchmarkState, BenchmarkStatus, BenchmarkType, BenchmarkWorkload,
    HelmSpec, Metadata, PodTemplate,
};
use benchmark_operator::controller::{
    error_policy, reconcile, Action, Effect, Event, Plan, Progress,
};
use benchmark_operator::error::{ApiError, HelmStep};
use benchmark_operator::launcher::{helm_install, install_outcome, uninstall_outcome, Launch};
use benchmark_operator::queue::StatusPatch;
use benchmark_operator::state::{EventTime, StateData};

fn idle() -> StateData {
    StateData::new(EventTime { seconds: 1, nanoseconds: 0 })
}

fn busy() -> StateData {
    let mut cell = idle();
    cell.set_is_benchmark_running(true, EventTime { seconds: 2, nanoseconds: 0 });
    cell
}

fn chart() -> HelmSpec {
    HelmSpec {
        repository_url: "https://charts.example.com".to_string(),
        chart_reference: "demo".to_string(),
    }
}

fn record(status: Option<(BenchmarkState, u32)>) -> Benchmark {
    Benchmark {
        metadata: Metadata {
            name: Some("cpu".to_string()),
            generate_name: None,
            namespace: Some("benchmarking".to_string()),
            uid: Some("1234-abcd".to_string()),
        },
        spec: BenchmarkSpec {
            title: "processor".to_string(),
            benchmark_type: BenchmarkType::System,
            workloads: vec![
                BenchmarkWorkload {
                    pod_template: Some(PodTemplate { manifest: "{}".to_string() }),
                    helm_chart: None,
                },
                BenchmarkWorkload { pod_template: None, helm_chart: Some(chart()) },
            ],
        },
        status: status.map(|(state, queue_position)| BenchmarkStatus { state, queue_position }),
    }
}

#[test]
fn a_record_without_status_is_admitted() {
    let plan = record(None).reconcile(&idle());
    assert_eq!(
        plan,
        Plan { effects: vec![Effect::Admit { name: "cpu".to_string() }], next: Action::AwaitChange }
    );
    let plan = record(None).reconcile(&busy());
    assert_eq!(plan.effects, vec![Effect::Admit { name: "cpu".to_string() }]);
}

#[test]
fn a_record_with_status_is_not_admitted_again() {
    for state in [
        BenchmarkState::Pending,
        BenchmarkState::Running,
        BenchmarkState::Done,
        BenchmarkState::Completed,
    ] {
        for position in [0, 1] {
            for cell in [idle(), busy()] {
                let plan = record(Some((state, position))).reconcile(&cell);
                assert!(plan.effects.iter().all(|effect| !matches!(effect, Effect::Admit { .. })));
            }
        }
    }
}

#[test]
fn a_pending_record_at_the_head_is_selected_and_launched() {
    let pending = record(Some((BenchmarkState::Pending, 0)));
    let plan = pending.reconcile(&idle());
    let steps = pending.launch();
    assert_eq!(steps.len(), 2);
    assert_eq!(steps[1], Launch::InstallChart(helm_install("benchmarking", &chart())));
    assert_eq!(
        plan,
        Plan {
            effects: vec![
                Effect::Select { name: "cpu".to_string(), namespace: "benchmarking".to_string() },
                Effect::Launch(steps[0].clone()),
                Effect::Launch(steps[1].clone()),
            ],
            next: Action::AwaitChange,
        }
    );
}

#[test]
fn a_pending_record_waits_behind_the_head_and_while_another_runs() {
    let nothing = Plan { effects: Vec::new(), next: Action::AwaitChange };
    assert_eq!(record(Some((BenchmarkState::Pending, 1))).reconcile(&idle()), nothing);
    assert_eq!(record(Some((BenchmarkState::Pending, 0))).reconcile(&busy()), nothing);
    assert_eq!(record(Some((BenchmarkState::Pending, 3))).reconcile(&busy()), nothing);
    assert!(record(Some((BenchmarkState::Pending, 0))).is_due(&idle()));
    assert!(!record(Some((BenchmarkState::Pending, 1))).is_due(&idle()));
    assert!(!record(Some((BenchmarkState::Pending, 0))).is_due(&busy()));
    assert!(!record(Some((BenchmarkState::Running, 0))).is_due(&idle()));
    assert!(!record(None).is_due(&idle()));
}

#[test]
fn the_done_flag_does_not_hold_the_next_record_back() {
    let mut cell = idle();
    cell.set_is_benchmark_done(true, EventTime { seconds: 3, nanoseconds: 0 });
    assert!(record(Some((BenchmarkState::Pending, 0))).is_due(&cell));
}

#[test]
fn a_running_record_raises_the_running_flag() {
    let plan = record(Some((BenchmarkState::Running, 0))).reconcile(&idle());
    assert_eq!(plan, Plan { effects: vec![Effect::SetRunning(true)], next: Action::AwaitChange });
}

#[test]
fn a_done_record_is_torn_down_completed_and_the_queue_closed_up() {
    let plan = record(Some((BenchmarkState::Done, 4))).reconcile(&busy());
    assert_eq!(
        plan,
        Plan {
            effects: vec![
                Effect::DeletePods { namespace: "benchmarking".to_string() },
                Effect::UninstallCharts(Benchmark::uninstall_helm_charts("benchmarking")),
                Effect::SetState {
                    name: "cpu".to_string(),
                    namespace: "benchmarking".to_string(),
                    state: BenchmarkState::Completed,
                },
                Effect::SetRunning(false),
                Effect::SetDone(true),
                Effect::Reorder { exiting: 4 },
            ],
            next: Action::AwaitChange,
        }
    );
}

#[test]
fn a_completed_record_is_left_alone() {
    let plan = record(Some((BenchmarkState::Completed, 0))).reconcile(&idle());
    assert_eq!(plan, Plan { effects: Vec::new(), next: Action::AwaitChange });
}

#[test]
fn the_finalizer_removes_the_charts_and_closes_the_queue_up() {
    let plan = record(Some((BenchmarkState::Pending, 2))).cleanup();
    assert_eq!(
        plan,
        Plan {
            effects: vec![
                Effect::UninstallCharts(Benchmark::uninstall_helm_charts("benchmarking")),
                Effect::Reorder { exiting: 2 },
            ],
            next: Action::AwaitChange,
        }
    );
    for state in [BenchmarkState::Done, BenchmarkState::Completed] {
        let plan = record(Some((state, 1))).cleanup();
        assert_eq!(
            plan.effects,
            vec![
                Effect::UninstallCharts(Benchmark::uninstall_helm_charts("benchmarking")),
                Effect::Reorder { exiting: 1 },
            ]
        );
    }
}

#[test]
fn the_finalizer_clears_the_cell_for_a_running_record() {
    let plan = record(Some((BenchmarkState::Running, 0))).cleanup();
    assert_eq!(
        plan.effects,
        vec![
            Effect::UninstallCharts(Benchmark::uninstall_helm_charts("benchmarking")),
            Effect::ClearSelection,
            Effect::Reorder { exiting: 0 },
        ]
    );
}

#[test]
fn the_finalizer_of_a_record_without_status_only_removes_the_charts() {
    let plan = record(None).cleanup();
    assert_eq!(
        plan.effects,
        vec![Effect::UninstallCharts(Benchmark::uninstall_helm_charts("benchmarking"))]
    );
}

#[test]
fn the_finalizer_entered_twice_plans_the_same() {
    let running = record(Some((BenchmarkState::Running, 0)));
    assert_eq!(running.cleanup(), running.cleanup());
}

#[test]
fn an_event_is_passed_to_the_pass_it_asks_for() {
    let pending = record(Some((BenchmarkState::Pending, 0)));
    assert_eq!(reconcile(&Event::Apply(pending.clone()), &idle()), pending.reconcile(&idle()));
    assert_eq!(reconcile(&Event::Cleanup(pending.clone()), &idle()), pending.cleanup());
}

#[test]
fn a_state_is_set_and_the_position_kept() {
    let current = Some(BenchmarkStatus { state: BenchmarkState::Pending, queue_position: 3 });
    assert_eq!(
        Benchmark::set_benchmark_state("cpu", current, BenchmarkState::Running),
        Ok(StatusPatch {
            name: "cpu".to_string(),
            status: BenchmarkStatus { state: BenchmarkState::Running, queue_position: 3 },
        })
    );
    let current = Some(BenchmarkStatus { state: BenchmarkState::Done, queue_position: 0 });
    assert_eq!(
        Benchmark::set_benchmark_state("cpu", current, BenchmarkState::Completed),
        Ok(StatusPatch {
            name: "cpu".to_string(),
            status: BenchmarkStatus { state: BenchmarkState::Completed, queue_position: 0 },
        })
    );
}

#[test]
fn a_state_cannot_be_set_on_a_record_without_status() {
    assert_eq!(
        Benchmark::set_benchmark_state("cpu", None, BenchmarkState::Running),
        Err(ApiError {
            status: "Error".to_string(),
            message: "Could not set Benchmark state".to_string(),
            reason: "Current status is None".to_string(),
            code: 404,
        })
    );
    assert_eq!(
        Benchmark::set_benchmark_state("cpu", None, BenchmarkState::Running),
        Err(ApiError::status_missing())
    );
}

#[test]
fn a_failed_pass_is_tried_again_after_a_minute() {
    assert_eq!(error_policy(), Action::Requeue { seconds: 60 });
}

#[test]
fn each_failed_chart_step_has_its_error() {
    let error = |message: &str, reason: &str| ApiError {
        status: "Error".to_string(),
        message: message.to_string(),
        reason: reason.to_string(),
        code: 500,
    };
    assert_eq!(
        ApiError::helm_failure(HelmStep::Install),
        error("Helm install failed.", "Helm install command failed.")
    );
    assert_eq!(
        ApiError::helm_failure(HelmStep::List),
        error("Helm list failed.", "Helm list command failed.")
    );
    assert_eq!(
        ApiError::helm_failure(HelmStep::ListOutput),
        error("Failed to open Helm list stdout.", "Failed to open Helm list stdout.")
    );
    assert_eq!(
        ApiError::helm_failure(HelmStep::Delete),
        error("Helm delete failed.", "Helm delete command failed.")
    );
}

#[test]
fn the_defaults_of_the_data_model() {
    assert_eq!(BenchmarkState::default(), BenchmarkState::Pending);
    assert_eq!(BenchmarkType::default(), BenchmarkType::System);
    assert_eq!(
        BenchmarkStatus::default(),
        BenchmarkStatus { state: BenchmarkState::Pending, queue_position: 0 }
    );
    assert_eq!(
        HelmSpec::default(),
        HelmSpec { repository_url: String::new(), chart_reference: String::new() }
    );
    assert_eq!(
        BenchmarkWorkload::default(),
        BenchmarkWorkload { pod_template: None, helm_chart: None }
    );
    assert_eq!(
        BenchmarkSpec::default(),
        BenchmarkSpec {
            title: String::new(),
            benchmark_type: BenchmarkType::System,
            workloads: Vec::new(),
        }
    );
    assert_eq!(
        Metadata::default(),
        Metadata { name: None, generate_name: None, namespace: None, uid: None }
    );
}

#[test]
fn a_plan_is_performed_in_order_and_ends_at_the_first_failure() {
    let plan = record(Some((BenchmarkState::Done, 0))).reconcile(&busy());
    assert_eq!(plan.effects.len(), 6);
    for performed in 0..6 {
        assert_eq!(plan.progress(performed, false), Progress::Perform(performed));
        assert_eq!(
            plan.progress(performed + 1, true),
            Progress::Failed(Action::Requeue { seconds: 60 })
        );
    }
    assert_eq!(plan.progress(6, false), Progress::Finished(Action::AwaitChange));
    assert_eq!(plan.progress(7, false), Progress::Finished(Action::AwaitChange));

    let nothing = record(Some((BenchmarkState::Completed, 0))).reconcile(&idle());
    assert_eq!(nothing.progress(0, false), Progress::Finished(Action::AwaitChange));
    assert_eq!(nothing.progress(0, true), Progress::Failed(error_policy()));
}

#[test]
fn an_install_that_did_not_succeed_is_a_failed_install() {
    assert_eq!(install_outcome(true), Ok(()));
    assert_eq!(install_outcome(false), Err(ApiError::helm_failure(HelmStep::Install)));
}

#[test]
fn the_first_step_of_an_uninstall_that_went_wrong_names_the_error() {
    assert_eq!(uninstall_outcome(true, true, true, true), Ok(()));
    for rest in [(false, false, false), (true, true, true), (true, false, true)] {
        assert_eq!(
            uninstall_outcome(false, rest.0, rest.1, rest.2),
            Err(ApiError::helm_failure(HelmStep::List))
        );
    }
    for rest in [(false, false), (true, true), (false, true)] {
        assert_eq!(
            uninstall_outcome(true, false, rest.0, rest.1),
            Err(ApiError::helm_failure(HelmStep::ListOutput))
        );
    }
    assert_eq!(
        uninstall_outcome(true, true, false, true),
        Err(ApiError::helm_failure(HelmStep::List))
    );
    assert_eq!(
        uninstall_outcome(true, true, false, false),
        Err(ApiError::helm_failure(HelmStep::List))
    );
    assert_eq!(
        uninstall_outcome(true, true, true, false),
        Err(ApiError::helm_failure(HelmStep::Delete))
    );
}
