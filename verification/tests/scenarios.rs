use benchmark_operator::benchmark::{
    Benchmark, BenchmarkSpec, BenchmarkState, BenchmarkStatus, BenchmarkType, BenchmarkWorkload,
    HelmSpec, Metadata, PodTemplate,
};
use benchmark_operator::controller::{reconcile, Action, Effect, Event, Plan, Progress};
use benchmark_operator::coordination::{benchmark_done, benchmark_started, StateWrite};
use benchmark_operator::error::ApiError;
use benchmark_operator::launcher::{Command, Launch, Pipeline, PodRequest};
use benchmark_operator::state::{EventTime, StateData};

/// A cluster in memory: the records of one namespace, the cell, and what
/// was asked of the platform and of the chart tool.
struct Cluster {
    records: Vec<Benchmark>,
    cell: StateData,
    clock: i64,
    pods: Vec<PodRequest>,
    installs: Vec<Command>,
    uninstalls: Vec<Pipeline>,
    pod_deletions: Vec<String>,
}

impl Cluster {
    fn new() -> Cluster {
        Cluster {
            records: Vec::new(),
            cell: StateData::new(EventTime { seconds: 0, nanoseconds: 0 }),
            clock: 0,
            pods: Vec::new(),
            installs: Vec::new(),
            uninstalls: Vec::new(),
            pod_deletions: Vec::new(),
        }
    }

    fn now(&mut self) -> EventTime {
        self.clock += 1;
        EventTime { seconds: self.clock, nanoseconds: 0 }
    }

    fn apply(&mut self, name: &str, workloads: Vec<BenchmarkWorkload>) {
        self.records.push(Benchmark {
            metadata: Metadata {
                name: Some(name.to_string()),
                generate_name: None,
                namespace: Some("benchmarking".to_string()),
                uid: Some(format!("uid-{}", name)),
            },
            spec: BenchmarkSpec {
                title: name.to_string(),
                benchmark_type: BenchmarkType::System,
                workloads,
            },
            status: None,
        });
    }

    fn find(&self, name: &str) -> Benchmark {
        self.records.iter().find(|record| record.name_any() == name).unwrap().clone()
    }

    fn status(&self, name: &str) -> Option<(BenchmarkState, u32)> {
        self.find(name).status.map(|status| (status.state, status.queue_position))
    }

    fn write_status(&mut self, name: &str, status: BenchmarkStatus) {
        for record in self.records.iter_mut() {
            if record.name_any() == name {
                record.status = Some(status);
            }
        }
    }

    fn set_state(&mut self, name: &str, state: BenchmarkState) -> Result<(), ApiError> {
        let current = self.records.iter().find(|record| record.name_any() == name);
        let current = current.and_then(|record| record.status);
        let patch = Benchmark::set_benchmark_state(name, current, state)?;
        self.write_status(&patch.name, patch.status);
        Ok(())
    }

    fn perform(&mut self, effect: Effect) -> Result<(), ApiError> {
        match effect {
            Effect::Admit { name } => {
                assert!(Benchmark::has_room(&self.records));
                let status = Benchmark::admission_status(&self.records);
                self.write_status(&name, status);
            }
            Effect::Select { name, namespace } => {
                let now = self.now();
                self.cell.new_benchmark(name, namespace, now);
            }
            Effect::ClearSelection => {
                let now = self.now();
                self.cell.clear_state(now);
            }
            Effect::SetRunning(flag) => {
                let now = self.now();
                self.cell.set_is_benchmark_running(flag, now);
            }
            Effect::SetDone(flag) => {
                let now = self.now();
                self.cell.set_is_benchmark_done(flag, now);
            }
            Effect::Launch(Launch::CreatePod(pod)) => self.pods.push(pod),
            Effect::Launch(Launch::InstallChart(command)) => self.installs.push(command),
            Effect::DeletePods { namespace } => {
                self.pods.retain(|pod| pod.namespace != namespace);
                self.pod_deletions.push(namespace);
            }
            Effect::UninstallCharts(pipeline) => self.uninstalls.push(pipeline),
            Effect::SetState { name, namespace: _, state } => self.set_state(&name, state)?,
            Effect::Reorder { exiting } => {
                for patch in Benchmark::reorder_pending_benchmarks(&self.records, exiting) {
                    self.write_status(&patch.name, patch.status);
                }
            }
        }
        Ok(())
    }

    fn run(&mut self, plan: Plan) -> Result<Action, ApiError> {
        let mut performed = 0;
        let mut failure = None;
        loop {
            match plan.progress(performed, failure.is_some()) {
                Progress::Perform(index) => {
                    failure = self.perform(plan.effects[index].clone()).err();
                    performed += 1;
                }
                Progress::Finished(action) => return Ok(action),
                Progress::Failed(_) => return Err(failure.unwrap()),
            }
        }
    }

    fn reconcile(&mut self, name: &str) {
        let record = self.find(name);
        assert!(!record.is_due(&self.cell) || record.is_launchable());
        let plan = reconcile(&Event::Apply(record), &self.cell);
        assert_eq!(self.run(plan), Ok(Action::AwaitChange));
    }

    fn delete(&mut self, name: &str) {
        let plan = reconcile(&Event::Cleanup(self.find(name)), &self.cell);
        assert_eq!(self.run(plan), Ok(Action::AwaitChange));
        self.records.retain(|record| record.name_any() != name);
        self.pods.retain(|pod| pod.owner_reference.name != name);
    }

    fn reconcile_all(&mut self) {
        let names: Vec<String> = self.records.iter().map(|record| record.name_any()).collect();
        for name in names {
            self.reconcile(&name);
        }
    }

    fn write(&mut self, write: StateWrite) -> Result<(), ApiError> {
        self.set_state(&write.name, write.state)
    }

    fn started(&mut self) -> Result<(), ApiError> {
        let now = self.now();
        let write = benchmark_started(&mut self.cell, now);
        self.write(write)
    }

    fn done(&mut self) -> Result<(), ApiError> {
        let now = self.now();
        let write = benchmark_done(&mut self.cell, now);
        self.write(write)
    }

    fn running(&self) -> usize {
        self.records
            .iter()
            .filter(|record| {
                record.status.map(|status| status.state) == Some(BenchmarkState::Running)
            })
            .count()
    }

    fn queue(&self) -> Vec<u32> {
        let mut positions: Vec<u32> = self
            .records
            .iter()
            .filter_map(|record| record.status)
            .filter(|status| status.state.in_queue())
            .map(|status| status.queue_position)
            .collect();
        positions.sort();
        positions
    }
}

fn pod() -> Vec<BenchmarkWorkload> {
    vec![BenchmarkWorkload {
        pod_template: Some(PodTemplate { manifest: "{}".to_string() }),
        helm_chart: None,
    }]
}

fn chart() -> Vec<BenchmarkWorkload> {
    vec![BenchmarkWorkload {
        pod_template: None,
        helm_chart: Some(HelmSpec {
            repository_url: "https://charts.example.com".to_string(),
            chart_reference: "demo".to_string(),
        }),
    }]
}

fn words(items: &[&str]) -> Vec<String> {
    items.iter().map(|item| item.to_string()).collect()
}

#[test]
fn a_single_benchmark_runs_from_admission_to_completion() {
    let mut cluster = Cluster::new();
    cluster.apply("a", pod());
    cluster.reconcile("a");
    assert_eq!(cluster.status("a"), Some((BenchmarkState::Pending, 0)));
    assert!(cluster.pods.is_empty());

    cluster.reconcile("a");
    assert_eq!(cluster.status("a"), Some((BenchmarkState::Pending, 0)));
    assert_eq!(cluster.pods.len(), 1);
    assert_eq!(cluster.pods[0].generate_name, "a-");
    assert_eq!(cluster.pods[0].namespace, "benchmarking");
    assert_eq!(cluster.pods[0].owner_reference.name, "a");
    assert_eq!(cluster.pods[0].owner_reference.uid, "uid-a");
    assert!(cluster.pods[0].owner_reference.controller);
    assert_eq!(cluster.cell.benchmark_name, "a");
    assert_eq!(cluster.cell.namespace, "benchmarking");

    cluster.started().unwrap();
    assert_eq!(cluster.status("a"), Some((BenchmarkState::Running, 0)));
    cluster.reconcile("a");
    assert!(cluster.cell.is_benchmark_running);

    cluster.done().unwrap();
    assert_eq!(cluster.status("a"), Some((BenchmarkState::Done, 0)));
    cluster.reconcile("a");
    assert_eq!(cluster.status("a"), Some((BenchmarkState::Completed, 0)));
    assert!(cluster.pods.is_empty());
    assert_eq!(cluster.pod_deletions, vec!["benchmarking".to_string()]);
    assert!(!cluster.cell.is_benchmark_running);
    assert!(cluster.cell.is_benchmark_done);

    cluster.reconcile("a");
    assert_eq!(cluster.status("a"), Some((BenchmarkState::Completed, 0)));
    assert_eq!(cluster.pod_deletions.len(), 1);
}

#[test]
fn a_queue_of_three_runs_one_after_the_other() {
    let mut cluster = Cluster::new();
    cluster.apply("a", pod());
    cluster.apply("b", pod());
    cluster.apply("c", pod());
    cluster.reconcile_all();
    assert_eq!(cluster.status("a"), Some((BenchmarkState::Pending, 0)));
    assert_eq!(cluster.status("b"), Some((BenchmarkState::Pending, 1)));
    assert_eq!(cluster.status("c"), Some((BenchmarkState::Pending, 2)));

    cluster.reconcile_all();
    assert_eq!(cluster.pods.len(), 1);
    assert_eq!(cluster.pods[0].owner_reference.name, "a");

    cluster.started().unwrap();
    cluster.reconcile_all();
    assert_eq!(cluster.running(), 1);
    assert_eq!(cluster.pods.len(), 1);

    cluster.done().unwrap();
    cluster.reconcile("a");
    assert_eq!(cluster.status("a"), Some((BenchmarkState::Completed, 0)));
    assert_eq!(cluster.status("b"), Some((BenchmarkState::Pending, 0)));
    assert_eq!(cluster.status("c"), Some((BenchmarkState::Pending, 1)));
    assert!(cluster.pods.is_empty());

    cluster.reconcile_all();
    assert_eq!(cluster.pods.len(), 1);
    assert_eq!(cluster.pods[0].owner_reference.name, "b");
    assert_eq!(cluster.cell.benchmark_name, "b");
    assert_eq!(cluster.queue(), vec![0, 1]);
}

#[test]
fn a_deletion_in_the_middle_of_the_queue_closes_it_up() {
    let mut cluster = Cluster::new();
    for name in ["a", "b", "c", "d"] {
        cluster.apply(name, pod());
    }
    cluster.reconcile_all();
    cluster.reconcile_all();
    cluster.started().unwrap();
    assert_eq!(cluster.status("a"), Some((BenchmarkState::Running, 0)));
    assert_eq!(cluster.status("c"), Some((BenchmarkState::Pending, 2)));

    cluster.delete("c");
    assert_eq!(cluster.status("a"), Some((BenchmarkState::Running, 0)));
    assert_eq!(cluster.status("b"), Some((BenchmarkState::Pending, 1)));
    assert_eq!(cluster.status("d"), Some((BenchmarkState::Pending, 2)));
    assert_eq!(cluster.queue(), vec![0, 1, 2]);
    assert_eq!(cluster.cell.benchmark_name, "a");
}

#[test]
fn a_deletion_of_the_running_benchmark_lets_the_next_one_run() {
    let mut cluster = Cluster::new();
    cluster.apply("a", pod());
    cluster.apply("b", pod());
    cluster.reconcile_all();
    cluster.reconcile_all();
    cluster.started().unwrap();
    cluster.reconcile_all();
    assert_eq!(cluster.status("a"), Some((BenchmarkState::Running, 0)));
    assert!(cluster.cell.is_benchmark_running);
    assert_eq!(cluster.pods.len(), 1);

    cluster.delete("a");
    assert_eq!(cluster.cell.benchmark_name, "");
    assert_eq!(cluster.cell.namespace, "");
    assert!(!cluster.cell.is_benchmark_running);
    assert!(!cluster.cell.is_benchmark_done);
    assert_eq!(cluster.status("b"), Some((BenchmarkState::Pending, 0)));
    assert!(cluster.pods.is_empty());

    cluster.reconcile("b");
    assert_eq!(cluster.pods.len(), 1);
    assert_eq!(cluster.pods[0].owner_reference.name, "b");
    assert_eq!(cluster.cell.benchmark_name, "b");
}

#[test]
fn a_chart_workload_is_installed_and_removed_by_the_chart_tool() {
    let mut cluster = Cluster::new();
    cluster.apply("a", chart());
    cluster.reconcile("a");
    cluster.reconcile("a");
    assert_eq!(
        cluster.installs,
        vec![Command {
            program: "helm".to_string(),
            arguments: words(&[
                "install",
                "-n",
                "benchmarking",
                "--repo",
                "https://charts.example.com",
                "demo",
                "--generate-name",
            ]),
        }]
    );
    assert!(cluster.uninstalls.is_empty());

    cluster.started().unwrap();
    cluster.done().unwrap();
    cluster.reconcile("a");
    assert_eq!(
        cluster.uninstalls,
        vec![Pipeline {
            producer: Command {
                program: "helm".to_string(),
                arguments: words(&["ls", "-n", "benchmarking", "--all", "--short"]),
            },
            consumer: Command {
                program: "xargs".to_string(),
                arguments: words(&["-r", "helm", "delete", "-n", "benchmarking"]),
            },
        }]
    );
    assert_eq!(cluster.status("a"), Some((BenchmarkState::Completed, 0)));
}

#[test]
fn done_before_started_leads_to_teardown_without_running() {
    let mut cluster = Cluster::new();
    cluster.apply("a", pod());
    cluster.reconcile("a");
    cluster.reconcile("a");
    assert_eq!(cluster.status("a"), Some((BenchmarkState::Pending, 0)));

    cluster.done().unwrap();
    assert_eq!(cluster.status("a"), Some((BenchmarkState::Done, 0)));
    assert_eq!(cluster.running(), 0);
    cluster.reconcile("a");
    assert_eq!(cluster.status("a"), Some((BenchmarkState::Completed, 0)));
    assert!(cluster.pods.is_empty());
    assert!(cluster.cell.is_benchmark_done);
    assert!(!cluster.cell.is_benchmark_running);
}

#[test]
fn of_two_admitted_records_one_is_launched() {
    let mut cluster = Cluster::new();
    cluster.apply("a", pod());
    cluster.apply("b", pod());
    cluster.reconcile_all();
    assert_eq!(cluster.status("a"), Some((BenchmarkState::Pending, 0)));
    assert_eq!(cluster.status("b"), Some((BenchmarkState::Pending, 1)));
    let due: Vec<String> = cluster
        .records
        .iter()
        .filter(|record| record.is_due(&cluster.cell))
        .map(|record| record.name_any())
        .collect();
    assert_eq!(due, vec!["a".to_string()]);
    cluster.reconcile_all();
    assert_eq!(cluster.pods.len(), 1);
    assert_eq!(cluster.pods[0].owner_reference.name, "a");
}

#[test]
fn a_second_pass_after_admission_writes_no_status() {
    let mut cluster = Cluster::new();
    cluster.apply("a", pod());
    cluster.apply("b", pod());
    cluster.reconcile("b");
    cluster.reconcile("a");
    let before: Vec<Option<BenchmarkStatus>> =
        cluster.records.iter().map(|record| record.status).collect();
    cluster.reconcile("a");
    cluster.reconcile("b");
    let after: Vec<Option<BenchmarkStatus>> =
        cluster.records.iter().map(|record| record.status).collect();
    assert_eq!(before, after);
    assert_eq!(cluster.status("b"), Some((BenchmarkState::Pending, 0)));
    assert_eq!(cluster.status("a"), Some((BenchmarkState::Pending, 1)));
}

#[test]
fn one_record_at_most_runs_and_the_queue_stays_dense() {
    let mut cluster = Cluster::new();
    for name in ["a", "b", "c", "d", "e"] {
        cluster.apply(name, pod());
    }
    cluster.reconcile_all();
    assert_eq!(cluster.queue(), vec![0, 1, 2, 3, 4]);
    for round in 0..5 {
        cluster.reconcile_all();
        assert!(cluster.running() <= 1);
        cluster.started().unwrap();
        cluster.reconcile_all();
        assert_eq!(cluster.running(), 1);
        assert_eq!(cluster.queue(), (0..5 - round).collect::<Vec<u32>>());
        if round == 1 {
            cluster.delete("e");
            assert_eq!(cluster.queue(), vec![0, 1, 2]);
            cluster.apply("e", pod());
            cluster.reconcile("e");
            assert_eq!(cluster.status("e"), Some((BenchmarkState::Pending, 3)));
        }
        cluster.done().unwrap();
        cluster.reconcile_all();
        assert_eq!(cluster.running(), 0);
        assert_eq!(cluster.queue(), (0..4 - round).collect::<Vec<u32>>());
    }
    for record in cluster.records.iter() {
        assert_eq!(record.status.unwrap().state, BenchmarkState::Completed);
    }
}

#[test]
fn a_call_without_a_selected_record_fails() {
    let mut cluster = Cluster::new();
    assert_eq!(cluster.started(), Err(ApiError::status_missing()));
    cluster.apply("a", pod());
    cluster.cell.new_benchmark(
        "a".to_string(),
        "benchmarking".to_string(),
        EventTime { seconds: 1, nanoseconds: 0 },
    );
    assert_eq!(cluster.done(), Err(ApiError::status_missing()));
    assert_eq!(cluster.status("a"), None);
}

#[test]
fn the_finalizer_entered_twice_moves_a_record_twice() {
    let mut cluster = Cluster::new();
    for name in ["a", "b", "c"] {
        cluster.apply(name, pod());
    }
    cluster.reconcile_all();
    let plan = reconcile(&Event::Cleanup(cluster.find("a")), &cluster.cell);
    for effect in plan.effects.clone() {
        cluster.perform(effect).unwrap();
    }
    assert_eq!(cluster.status("b"), Some((BenchmarkState::Pending, 0)));
    assert_eq!(cluster.status("c"), Some((BenchmarkState::Pending, 1)));
    for effect in plan.effects {
        cluster.perform(effect).unwrap();
    }
    assert_eq!(cluster.status("b"), Some((BenchmarkState::Pending, 0)));
    assert_eq!(cluster.status("c"), Some((BenchmarkState::Pending, 0)));
}

#[test]
fn the_finalizer_entered_twice_at_the_end_of_the_queue_changes_nothing_more() {
    let mut cluster = Cluster::new();
    for name in ["a", "b", "c"] {
        cluster.apply(name, pod());
    }
    cluster.reconcile_all();
    let plan = reconcile(&Event::Cleanup(cluster.find("b")), &cluster.cell);
    for effect in plan.effects.clone() {
        cluster.perform(effect).unwrap();
    }
    let once: Vec<Option<BenchmarkStatus>> =
        cluster.records.iter().map(|record| record.status).collect();
    for effect in plan.effects {
        cluster.perform(effect).unwrap();
    }
    let twice: Vec<Option<BenchmarkStatus>> =
        cluster.records.iter().map(|record| record.status).collect();
    assert_eq!(once, twice);
    assert_eq!(cluster.status("c"), Some((BenchmarkState::Pending, 1)));
}

fn rank(state: BenchmarkState) -> u8 {
    match state {
        BenchmarkState::Pending => 0,
        BenchmarkState::Running => 1,
        BenchmarkState::Done => 2,
        BenchmarkState::Completed => 3,
    }
}

fn states(cluster: &Cluster) -> Vec<(String, Option<u8>)> {
    cluster
        .records
        .iter()
        .map(|record| (record.name_any(), record.status.map(|status| rank(status.state))))
        .collect()
}

fn never_back(before: &[(String, Option<u8>)], cluster: &Cluster) {
    for (name, earlier) in before {
        for (other, later) in states(cluster) {
            if *name == other && earlier.is_some() {
                assert!(later >= *earlier, "{} went back", name);
            }
        }
    }
}

#[test]
fn no_state_goes_back() {
    let mut cluster = Cluster::new();
    for name in ["a", "b", "c"] {
        cluster.apply(name, pod());
    }
    for round in 0..2 {
        let before = states(&cluster);
        cluster.reconcile_all();
        never_back(&before, &cluster);

        let before = states(&cluster);
        cluster.reconcile_all();
        never_back(&before, &cluster);

        let before = states(&cluster);
        cluster.started().unwrap();
        never_back(&before, &cluster);

        let before = states(&cluster);
        cluster.reconcile_all();
        never_back(&before, &cluster);

        let before = states(&cluster);
        cluster.done().unwrap();
        never_back(&before, &cluster);

        if round == 0 {
            let before = states(&cluster);
            cluster.delete("c");
            never_back(&before, &cluster);
        }
    }
    let before = states(&cluster);
    cluster.reconcile_all();
    never_back(&before, &cluster);
    assert_eq!(cluster.status("a"), Some((BenchmarkState::Completed, 0)));
    assert_eq!(cluster.status("b"), Some((BenchmarkState::Completed, 0)));
}

#[test]
fn a_call_of_a_workload_that_is_long_gone_sets_the_state_all_the_same() {
    let mut cluster = Cluster::new();
    cluster.apply("a", pod());
    cluster.reconcile("a");
    cluster.reconcile("a");
    cluster.started().unwrap();
    cluster.done().unwrap();
    cluster.reconcile("a");
    assert_eq!(cluster.status("a"), Some((BenchmarkState::Completed, 0)));
    assert_eq!(cluster.cell.benchmark_name, "a");

    cluster.started().unwrap();
    assert_eq!(cluster.status("a"), Some((BenchmarkState::Running, 0)));
}

#[test]
fn a_plan_that_fails_stops_where_it_failed() {
    let mut cluster = Cluster::new();
    cluster.apply("a", pod());
    cluster.reconcile("a");
    cluster.reconcile("a");
    cluster.done().unwrap();
    let mut done = cluster.find("a");
    cluster.records.clear();
    done.metadata.name = Some("b".to_string());
    let plan = reconcile(&Event::Apply(done), &cluster.cell);
    assert_eq!(cluster.run(plan), Err(ApiError::status_missing()));
    assert_eq!(cluster.pod_deletions.len(), 1);
    assert_eq!(cluster.uninstalls.len(), 1);
    assert!(!cluster.cell.is_benchmark_done);
}
