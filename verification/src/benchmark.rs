//! The data model: the declared record, its workloads and its observed status.

use vstd::prelude::*;

verus! {

/// What a benchmark measures.
#[derive(Clone, Copy, Debug, PartialEq, Eq, Structural)]
pub enum BenchmarkType {
    /// System resources: processor, memory, disk.
    System,
    /// Network performance: load, latency.
    Network,
}

impl Default for BenchmarkType {
    fn default() -> (kind: Self)
        ensures
            kind == BenchmarkType::System,
    {
        BenchmarkType::System
    }
}

/// Where a record stands in its life. The progression is one-way:
/// `Pending`, `Running`, `Done`, `Completed`.
#[derive(Clone, Copy, Debug, PartialEq, Eq, Structural)]
pub enum BenchmarkState {
    /// Admitted into the queue, not running yet.
    Pending,
    /// A workload has reported that it is up.
    Running,
    /// The workload has stored its results.
    Done,
    /// The workloads are torn down; terminal.
    Completed,
}

impl BenchmarkState {
    /// The place of a state in the progression, counted from `Pending`.
    pub open spec fn rank(self) -> nat {
        match self {
            BenchmarkState::Pending => 0,
            BenchmarkState::Running => 1,
            BenchmarkState::Done => 2,
            BenchmarkState::Completed => 3,
        }
    }

    /// A record in one of these states holds a place in the queue.
    pub open spec fn is_queued(self) -> bool {
        self == BenchmarkState::Pending || self == BenchmarkState::Running
    }

    /// Whether a record in this state holds a place in the queue.
    pub fn in_queue(self) -> (queued: bool)
        ensures
            queued == self.is_queued(),
    {
        match self {
            BenchmarkState::Pending => true,
            BenchmarkState::Running => true,
            BenchmarkState::Done => false,
            BenchmarkState::Completed => false,
        }
    }
}

impl Default for BenchmarkState {
    fn default() -> (state: Self)
        ensures
            state == BenchmarkState::Pending,
    {
        BenchmarkState::Pending
    }
}

/// The status that the orchestrator writes on a record.
#[derive(Clone, Copy, Debug, PartialEq, Eq, Structural)]
pub struct BenchmarkStatus {
    pub state: BenchmarkState,
    pub queue_position: u32,
}

impl Default for BenchmarkStatus {
    fn default() -> (status: Self)
        ensures
            status == (BenchmarkStatus { state: BenchmarkState::Pending, queue_position: 0 }),
    {
        BenchmarkStatus { state: BenchmarkState::Pending, queue_position: 0 }
    }
}

/// A chart to install: the repository that holds it and its reference there.
#[derive(Clone, Debug, PartialEq, Eq)]
pub struct HelmSpec {
    pub repository_url: String,
    pub chart_reference: String,
}

pub struct HelmSpecView {
    pub repository_url: Seq<char>,
    pub chart_reference: Seq<char>,
}

impl View for HelmSpec {
    type V = HelmSpecView;

    open spec fn view(&self) -> HelmSpecView {
        HelmSpecView {
            repository_url: self.repository_url@,
            chart_reference: self.chart_reference@,
        }
    }
}

impl DeepView for HelmSpec {
    type V = HelmSpecView;

    open spec fn deep_view(&self) -> HelmSpecView {
        self@
    }
}

impl Default for HelmSpec {
    fn default() -> (chart: Self)
        ensures
            chart@.repository_url.len() == 0,
            chart@.chart_reference.len() == 0,
    {
        HelmSpec { repository_url: String::new(), chart_reference: String::new() }
    }
}

/// A pod template, metadata and spec, held as its serialised manifest. The
/// orchestrator stamps and forwards a template; it never looks inside.
#[derive(Clone, Debug, PartialEq, Eq)]
pub struct PodTemplate {
    pub manifest: String,
}

pub struct PodTemplateView {
    pub manifest: Seq<char>,
}

impl View for PodTemplate {
    type V = PodTemplateView;

    open spec fn view(&self) -> PodTemplateView {
        PodTemplateView { manifest: self.manifest@ }
    }
}

impl DeepView for PodTemplate {
    type V = PodTemplateView;

    open spec fn deep_view(&self) -> PodTemplateView {
        self@
    }
}

/// One workload of a record: a pod template or a chart. Where both are given
/// the pod template is the one that counts.
#[derive(Clone, Debug, PartialEq, Eq)]
pub struct BenchmarkWorkload {
    pub pod_template: Option<PodTemplate>,
    pub helm_chart: Option<HelmSpec>,
}

pub struct BenchmarkWorkloadView {
    pub pod_template: Option<PodTemplateView>,
    pub helm_chart: Option<HelmSpecView>,
}

impl View for BenchmarkWorkload {
    type V = BenchmarkWorkloadView;

    open spec fn view(&self) -> BenchmarkWorkloadView {
        BenchmarkWorkloadView {
            pod_template: self.pod_template.deep_view(),
            helm_chart: self.helm_chart.deep_view(),
        }
    }
}

impl DeepView for BenchmarkWorkload {
    type V = BenchmarkWorkloadView;

    open spec fn deep_view(&self) -> BenchmarkWorkloadView {
        self@
    }
}

impl Default for BenchmarkWorkload {
    fn default() -> (workload: Self)
        ensures
            workload@.pod_template is None,
            workload@.helm_chart is None,
    {
        BenchmarkWorkload { pod_template: None, helm_chart: None }
    }
}

/// What the user declares: a title, the kind of benchmark and its workloads
/// in the order in which they are launched.
#[derive(Clone, Debug, PartialEq, Eq)]
pub struct BenchmarkSpec {
    pub title: String,
    pub benchmark_type: BenchmarkType,
    pub workloads: Vec<BenchmarkWorkload>,
}

pub struct BenchmarkSpecView {
    pub title: Seq<char>,
    pub benchmark_type: BenchmarkType,
    pub workloads: Seq<BenchmarkWorkloadView>,
}

impl View for BenchmarkSpec {
    type V = BenchmarkSpecView;

    open spec fn view(&self) -> BenchmarkSpecView {
        BenchmarkSpecView {
            title: self.title@,
            benchmark_type: self.benchmark_type,
            workloads: self.workloads.deep_view(),
        }
    }
}

impl DeepView for BenchmarkSpec {
    type V = BenchmarkSpecView;

    open spec fn deep_view(&self) -> BenchmarkSpecView {
        self@
    }
}

impl Default for BenchmarkSpec {
    fn default() -> (spec: Self)
        ensures
            spec@.title.len() == 0,
            spec@.benchmark_type == BenchmarkType::System,
            spec@.workloads.len() == 0,
    {
        BenchmarkSpec {
            title: String::new(),
            benchmark_type: BenchmarkType::System,
            workloads: Vec::new(),
        }
    }
}

/// The part of a record's metadata that the orchestrator reads.
#[derive(Clone, Debug, PartialEq, Eq)]
pub struct Metadata {
    pub name: Option<String>,
    pub generate_name: Option<String>,
    pub namespace: Option<String>,
    pub uid: Option<String>,
}

pub struct MetadataView {
    pub name: Option<Seq<char>>,
    pub generate_name: Option<Seq<char>>,
    pub namespace: Option<Seq<char>>,
    pub uid: Option<Seq<char>>,
}

impl View for Metadata {
    type V = MetadataView;

    open spec fn view(&self) -> MetadataView {
        MetadataView {
            name: self.name.deep_view(),
            generate_name: self.generate_name.deep_view(),
            namespace: self.namespace.deep_view(),
            uid: self.uid.deep_view(),
        }
    }
}

impl DeepView for Metadata {
    type V = MetadataView;

    open spec fn deep_view(&self) -> MetadataView {
        self@
    }
}

impl Default for Metadata {
    fn default() -> (metadata: Self)
        ensures
            metadata@ == (MetadataView {
                name: None,
                generate_name: None,
                namespace: None,
                uid: None,
            }),
    {
        Metadata { name: None, generate_name: None, namespace: None, uid: None }
    }
}

/// A benchmark record as the declarative store holds it.
#[derive(Clone, Debug, PartialEq, Eq)]
pub struct Benchmark {
    pub metadata: Metadata,
    pub spec: BenchmarkSpec,
    /// Absent until the record has been admitted.
    pub status: Option<BenchmarkStatus>,
}

pub struct BenchmarkView {
    pub metadata: MetadataView,
    pub spec: BenchmarkSpecView,
    pub status: Option<BenchmarkStatus>,
}

impl View for Benchmark {
    type V = BenchmarkView;

    open spec fn view(&self) -> BenchmarkView {
        BenchmarkView { metadata: self.metadata@, spec: self.spec@, status: self.status }
    }
}

impl DeepView for Benchmark {
    type V = BenchmarkView;

    open spec fn deep_view(&self) -> BenchmarkView {
        self@
    }
}

impl BenchmarkView {
    /// The name by which the record is addressed: its name, else the prefix
    /// from which a name is generated, else the empty string.
    pub open spec fn name_any(self) -> Seq<char> {
        match self.metadata.name {
            Some(name) => name,
            None => match self.metadata.generate_name {
                Some(prefix) => prefix,
                None => Seq::empty(),
            },
        }
    }

    /// The namespace of the record; a record without one lives in `default`.
    pub open spec fn namespace_or_default(self) -> Seq<char> {
        match self.metadata.namespace {
            Some(namespace) => namespace,
            None => "default"@,
        }
    }

    /// The record holds a place in the queue.
    pub open spec fn is_queued(self) -> bool {
        self.status matches Some(status) && status.state.is_queued()
    }
}

impl Benchmark {
    /// The name by which the record is addressed.
    pub fn name_any(&self) -> (name: String)
        ensures
            name@ == self@.name_any(),
    {
        match &self.metadata.name {
            Some(name) => name.clone(),
            None => match &self.metadata.generate_name {
                Some(prefix) => prefix.clone(),
                None => String::new(),
            },
        }
    }

    /// The namespace of the record, `default` where it has none.
    pub fn namespace_or_default(&self) -> (namespace: String)
        ensures
            namespace@ == self@.namespace_or_default(),
    {
        match &self.metadata.namespace {
            Some(namespace) => namespace.clone(),
            None => "default".to_owned(),
        }
    }
}

} // verus!
