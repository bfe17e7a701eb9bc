//! The workload launcher: what has to be created for a record, and what has
//! to be run to remove the charts of a namespace again.

use crate::benchmark::{
    Benchmark, BenchmarkView, BenchmarkWorkloadView, HelmSpec, HelmSpecView, PodTemplate,
    PodTemplateView,
};
use crate::error::{ApiError, ApiErrorView, HelmStep};
use vstd::prelude::*;

verus! {

/// A reference from a dependent to the record that owns it.
#[derive(Clone, Debug, PartialEq, Eq)]
pub struct OwnerReference {
    pub api_version: String,
    pub kind: String,
    pub name: String,
    pub uid: String,
    /// The owner is the controller of the dependent.
    pub controller: bool,
}

pub struct OwnerReferenceView {
    pub api_version: Seq<char>,
    pub kind: Seq<char>,
    pub name: Seq<char>,
    pub uid: Seq<char>,
    pub controller: bool,
}

impl View for OwnerReference {
    type V = OwnerReferenceView;

    open spec fn view(&self) -> OwnerReferenceView {
        OwnerReferenceView {
            api_version: self.api_version@,
            kind: self.kind@,
            name: self.name@,
            uid: self.uid@,
            controller: self.controller,
        }
    }
}

impl DeepView for OwnerReference {
    type V = OwnerReferenceView;

    open spec fn deep_view(&self) -> OwnerReferenceView {
        self@
    }
}

/// A pod to create: the template of a workload, stamped with the namespace of
/// its record, the prefix of its generated name and a reference to its owner.
#[derive(Clone, Debug, PartialEq, Eq)]
pub struct PodRequest {
    pub namespace: String,
    pub generate_name: String,
    pub owner_reference: OwnerReference,
    pub template: PodTemplate,
}

pub struct PodRequestView {
    pub namespace: Seq<char>,
    pub generate_name: Seq<char>,
    pub owner_reference: OwnerReferenceView,
    pub template: PodTemplateView,
}

impl View for PodRequest {
    type V = PodRequestView;

    open spec fn view(&self) -> PodRequestView {
        PodRequestView {
            namespace: self.namespace@,
            generate_name: self.generate_name@,
            owner_reference: self.owner_reference@,
            template: self.template@,
        }
    }
}

impl DeepView for PodRequest {
    type V = PodRequestView;

    open spec fn deep_view(&self) -> PodRequestView {
        self@
    }
}

/// A program to run with its arguments.
#[derive(Clone, Debug, PartialEq, Eq)]
pub struct Command {
    pub program: String,
    pub arguments: Vec<String>,
}

pub struct CommandView {
    pub program: Seq<char>,
    pub arguments: Seq<Seq<char>>,
}

impl View for Command {
    type V = CommandView;

    open spec fn view(&self) -> CommandView {
        CommandView { program: self.program@, arguments: self.arguments.deep_view() }
    }
}

impl DeepView for Command {
    type V = CommandView;

    open spec fn deep_view(&self) -> CommandView {
        self@
    }
}

/// Two programs, the output of the first piped into the second.
#[derive(Clone, Debug, PartialEq, Eq)]
pub struct Pipeline {
    pub producer: Command,
    pub consumer: Command,
}

pub struct PipelineView {
    pub producer: CommandView,
    pub consumer: CommandView,
}

impl View for Pipeline {
    type V = PipelineView;

    open spec fn view(&self) -> PipelineView {
        PipelineView { producer: self.producer@, consumer: self.consumer@ }
    }
}

impl DeepView for Pipeline {
    type V = PipelineView;

    open spec fn deep_view(&self) -> PipelineView {
        self@
    }
}

/// One step of a launch.
#[derive(Clone, Debug, PartialEq, Eq)]
pub enum Launch {
    /// Create this pod through the pod interface of the platform.
    CreatePod(PodRequest),
    /// Install a chart by running this command.
    InstallChart(Command),
}

pub enum LaunchView {
    CreatePod(PodRequestView),
    InstallChart(CommandView),
}

impl View for Launch {
    type V = LaunchView;

    open spec fn view(&self) -> LaunchView {
        match self {
            Launch::CreatePod(pod) => LaunchView::CreatePod(pod@),
            Launch::InstallChart(command) => LaunchView::InstallChart(command@),
        }
    }
}

impl DeepView for Launch {
    type V = LaunchView;

    open spec fn deep_view(&self) -> LaunchView {
        self@
    }
}

impl Command {
    /// A copy of the command.
    pub fn clone_command(&self) -> (copy: Command)
        ensures
            copy@ == self@,
    {
        let mut arguments: Vec<String> = Vec::new();
        let mut i: usize = 0;
        while i < self.arguments.len()
            invariant
                i <= self.arguments.len(),
                arguments.deep_view() == self.arguments.deep_view().take(i as int),
            decreases self.arguments.len() - i,
        {
            let ghost before = arguments.deep_view();
            arguments.push(self.arguments[i].clone());
            i += 1;
            assert(arguments.deep_view() =~= before.push(self.arguments[i - 1]@));
            assert(self.arguments.deep_view().take(i as int) =~= before.push(
                self.arguments[i - 1]@,
            ));
        }
        assert(self.arguments.deep_view().take(self.arguments.len() as int)
            =~= self.arguments.deep_view());
        Command { program: self.program.clone(), arguments }
    }
}

impl Launch {
    /// A copy of the step.
    pub fn clone_step(&self) -> (copy: Launch)
        ensures
            copy@ == self@,
    {
        match self {
            Launch::CreatePod(pod) => Launch::CreatePod(
                PodRequest {
                    namespace: pod.namespace.clone(),
                    generate_name: pod.generate_name.clone(),
                    owner_reference: OwnerReference {
                        api_version: pod.owner_reference.api_version.clone(),
                        kind: pod.owner_reference.kind.clone(),
                        name: pod.owner_reference.name.clone(),
                        uid: pod.owner_reference.uid.clone(),
                        controller: pod.owner_reference.controller,
                    },
                    template: PodTemplate { manifest: pod.template.manifest.clone() },
                },
            ),
            Launch::InstallChart(command) => Launch::InstallChart(command.clone_command()),
        }
    }
}

/// `helm install -n <namespace> --repo <repository> <chart> --generate-name`.
pub open spec fn install_command(namespace: Seq<char>, chart: HelmSpecView) -> CommandView {
    CommandView {
        program: "helm"@,
        arguments: seq![
            "install"@,
            "-n"@,
            namespace,
            "--repo"@,
            chart.repository_url,
            chart.chart_reference,
            "--generate-name"@,
        ],
    }
}

/// `helm ls -n <namespace> --all --short`, piped into
/// `xargs -r helm delete -n <namespace>`.
pub open spec fn uninstall_pipeline(namespace: Seq<char>) -> PipelineView {
    PipelineView {
        producer: CommandView {
            program: "helm"@,
            arguments: seq!["ls"@, "-n"@, namespace, "--all"@, "--short"@],
        },
        consumer: CommandView {
            program: "xargs"@,
            arguments: seq!["-r"@, "helm"@, "delete"@, "-n"@, namespace],
        },
    }
}

impl BenchmarkView {
    /// A pod of this record can carry a reference to it: the record has a
    /// name and an identifier.
    pub open spec fn has_owner_identity(self) -> bool {
        self.metadata.name is Some && self.metadata.uid is Some
    }

    /// The reference by which a pod names this record as its controller.
    pub open spec fn controller_owner_ref(self) -> OwnerReferenceView {
        OwnerReferenceView {
            api_version: "michiel.van.kenhove.ugent.be/v1"@,
            kind: "Benchmark"@,
            name: self.metadata.name->0,
            uid: self.metadata.uid->0,
            controller: true,
        }
    }

    /// One of the workloads is a pod template.
    pub open spec fn has_pod_workload(self) -> bool {
        exists|i: int|
            0 <= i < self.spec.workloads.len() && (#[trigger] self.spec.workloads[i]).pod_template
                is Some
    }

    /// The record can be launched: where a workload needs an owner, the
    /// record can be named as one.
    pub open spec fn is_launchable(self) -> bool {
        self.has_pod_workload() ==> self.has_owner_identity()
    }

    /// The pod for a template of this record: in the record's namespace,
    /// named after the record with a generated suffix, owned by the record.
    pub open spec fn pod_request(self, template: PodTemplateView) -> PodRequestView {
        PodRequestView {
            namespace: self.namespace_or_default(),
            generate_name: self.name_any() + "-"@,
            owner_reference: self.controller_owner_ref(),
            template: template,
        }
    }

    /// The step of the launch that one workload asks for, if any: a pod for
    /// a pod template, else an install for a chart.
    pub open spec fn launch_of(self, workload: BenchmarkWorkloadView) -> Option<LaunchView> {
        match workload.pod_template {
            Some(template) => Some(LaunchView::CreatePod(self.pod_request(template))),
            None => match workload.helm_chart {
                Some(chart) => Some(
                    LaunchView::InstallChart(install_command(self.namespace_or_default(), chart)),
                ),
                None => None,
            },
        }
    }

    /// The steps of the launch for the first `count` workloads, in their
    /// order.
    pub open spec fn launch_upto(self, count: nat) -> Seq<LaunchView>
        decreases count,
    {
        if count == 0 {
            Seq::empty()
        } else {
            let before = self.launch_upto((count - 1) as nat);
            match self.launch_of(self.spec.workloads[count - 1]) {
                Some(step) => before.push(step),
                None => before,
            }
        }
    }

    /// The steps of the launch of this record, one for each workload that
    /// declares something, in the order of the workloads.
    pub open spec fn launch(self) -> Seq<LaunchView> {
        self.launch_upto(self.spec.workloads.len())
    }
}

/// How the removal of the charts of a namespace ended, given how far its
/// pipeline came: the step that went wrong first, or none.
pub open spec fn uninstall_failure(
    list_started: bool,
    output_open: bool,
    list_succeeded: bool,
    delete_succeeded: bool,
) -> Option<HelmStep> {
    if !list_started {
        Some(HelmStep::List)
    } else if !output_open {
        Some(HelmStep::ListOutput)
    } else if !list_succeeded {
        Some(HelmStep::List)
    } else if !delete_succeeded {
        Some(HelmStep::Delete)
    } else {
        None
    }
}

/// The outcome of the install of a chart: a command that could not be
/// started or that ended with another exit status than zero is a failed
/// install.
pub fn install_outcome(succeeded: bool) -> (outcome: Result<(), ApiError>)
    ensures
        succeeded <==> outcome is Ok,
        outcome matches Err(error) ==> error@ == ApiErrorView::helm_failure(HelmStep::Install),
{
    if succeeded {
        Ok(())
    } else {
        Err(ApiError::helm_failure(HelmStep::Install))
    }
}

/// The outcome of the removal of the charts of a namespace, given whether
/// the listing could be started, whether its output could be had, whether it
/// ended with exit status zero, and whether the removal did. The first step
/// that went wrong names the error.
pub fn uninstall_outcome(
    list_started: bool,
    output_open: bool,
    list_succeeded: bool,
    delete_succeeded: bool,
) -> (outcome: Result<(), ApiError>)
    ensures
        outcome is Ok <==> list_started && output_open && list_succeeded && delete_succeeded,
        !list_started ==> outcome is Err && outcome->Err_0@ == ApiErrorView::helm_failure(
            HelmStep::List,
        ),
        list_started && !output_open ==> outcome is Err && outcome->Err_0@
            == ApiErrorView::helm_failure(HelmStep::ListOutput),
        list_started && output_open && !list_succeeded ==> outcome is Err && outcome->Err_0@
            == ApiErrorView::helm_failure(HelmStep::List),
        list_started && output_open && list_succeeded && !delete_succeeded ==> outcome is Err
            && outcome->Err_0@ == ApiErrorView::helm_failure(HelmStep::Delete),
        outcome is Ok <==> uninstall_failure(
            list_started,
            output_open,
            list_succeeded,
            delete_succeeded,
        ) is None,
        outcome matches Err(error) ==> uninstall_failure(
            list_started,
            output_open,
            list_succeeded,
            delete_succeeded,
        ) matches Some(step) && error@ == ApiErrorView::helm_failure(step),
{
    if !list_started {
        Err(ApiError::helm_failure(HelmStep::List))
    } else if !output_open {
        Err(ApiError::helm_failure(HelmStep::ListOutput))
    } else if !list_succeeded {
        Err(ApiError::helm_failure(HelmStep::List))
    } else if !delete_succeeded {
        Err(ApiError::helm_failure(HelmStep::Delete))
    } else {
        Ok(())
    }
}

/// The command that installs a chart into a namespace.
pub fn helm_install(namespace: &str, chart: &HelmSpec) -> (command: Command)
    ensures
        command@ == install_command(namespace@, chart@),
{
    let mut arguments: Vec<String> = Vec::new();
    arguments.push("install".to_owned());
    arguments.push("-n".to_owned());
    arguments.push(namespace.to_owned());
    arguments.push("--repo".to_owned());
    arguments.push(chart.repository_url.clone());
    arguments.push(chart.chart_reference.clone());
    arguments.push("--generate-name".to_owned());
    let command = Command { program: "helm".to_owned(), arguments };
    assert(command@.arguments =~= install_command(namespace@, chart@).arguments);
    command
}

impl Benchmark {
    /// The reference by which a pod names this record as its controller;
    /// `None` where the record lacks a name or an identifier.
    pub fn controller_owner_ref(&self) -> (reference: Option<OwnerReference>)
        ensures
            reference is Some <==> self@.has_owner_identity(),
            reference matches Some(owner) ==> owner@ == self@.controller_owner_ref(),
    {
        match (&self.metadata.name, &self.metadata.uid) {
            (Some(name), Some(uid)) => Some(
                OwnerReference {
                    api_version: "michiel.van.kenhove.ugent.be/v1".to_owned(),
                    kind: "Benchmark".to_owned(),
                    name: name.clone(),
                    uid: uid.clone(),
                    controller: true,
                },
            ),
            _ => None,
        }
    }

    /// The commands that remove every chart of a namespace: the listing of
    /// its installs, piped into their removal.
    pub fn uninstall_helm_charts(namespace: &str) -> (pipeline: Pipeline)
        ensures
            pipeline@ == uninstall_pipeline(namespace@),
    {
        let mut list: Vec<String> = Vec::new();
        list.push("ls".to_owned());
        list.push("-n".to_owned());
        list.push(namespace.to_owned());
        list.push("--all".to_owned());
        list.push("--short".to_owned());
        let mut delete: Vec<String> = Vec::new();
        delete.push("-r".to_owned());
        delete.push("helm".to_owned());
        delete.push("delete".to_owned());
        delete.push("-n".to_owned());
        delete.push(namespace.to_owned());
        let pipeline = Pipeline {
            producer: Command { program: "helm".to_owned(), arguments: list },
            consumer: Command { program: "xargs".to_owned(), arguments: delete },
        };
        assert(pipeline@.producer.arguments =~= uninstall_pipeline(namespace@).producer.arguments);
        assert(pipeline@.consumer.arguments =~= uninstall_pipeline(namespace@).consumer.arguments);
        pipeline
    }

    /// Whether the record can be launched: it has a name and an identifier,
    /// or none of its workloads is a pod template.
    pub fn is_launchable(&self) -> (launchable: bool)
        ensures
            launchable == self@.is_launchable(),
    {
        if self.metadata.name.is_some() && self.metadata.uid.is_some() {
            return true;
        }
        let mut i: usize = 0;
        while i < self.spec.workloads.len()
            invariant
                i <= self.spec.workloads.len(),
                !self@.has_owner_identity(),
                forall|k: int| 0 <= k < i ==> self@.spec.workloads[k].pod_template is None,
            decreases self.spec.workloads.len() - i,
        {
            assert(self@.spec.workloads[i as int] == self.spec.workloads[i as int]@);
            if self.spec.workloads[i].pod_template.is_some() {
                assert(self@.spec.workloads[i as int].pod_template is Some);
                return false;
            }
            i += 1;
        }
        true
    }

    /// The launch of this record: for each workload in turn the pod to
    /// create, or else the chart to install. Launching twice creates
    /// everything twice, so the caller launches only what the reconciler
    /// finds due.
    pub fn launch(&self) -> (steps: Vec<Launch>)
        requires
            self@.is_launchable(),
        ensures
            steps.deep_view() == self@.launch(),
    {
        let namespace = self.namespace_or_default();
        let name = self.name_any();
        let mut steps: Vec<Launch> = Vec::new();
        let mut i: usize = 0;
        while i < self.spec.workloads.len()
            invariant
                i <= self.spec.workloads.len(),
                self@.is_launchable(),
                namespace@ == self@.namespace_or_default(),
                name@ == self@.name_any(),
                steps.deep_view() == self@.launch_upto(i as nat),
            decreases self.spec.workloads.len() - i,
        {
            let workload = &self.spec.workloads[i];
            assert(self@.spec.workloads[i as int] == workload@);
            let ghost before = steps.deep_view();
            if let Some(template) = &workload.pod_template {
                let owner = self.controller_owner_ref();
                match owner {
                    Some(owner_reference) => {
                        let mut generate_name = name.clone();
                        generate_name.append("-");
                        let pod = PodRequest {
                            namespace: namespace.clone(),
                            generate_name,
                            owner_reference,
                            template: PodTemplate { manifest: template.manifest.clone() },
                        };
                        steps.push(Launch::CreatePod(pod));
                        assert(steps.deep_view() =~= before.push(
                            LaunchView::CreatePod(self@.pod_request(template@)),
                        ));
                    },
                    None => {
                        assert(false);
                    },
                }
            } else if let Some(chart) = &workload.helm_chart {
                let command = helm_install(namespace.as_str(), chart);
                steps.push(Launch::InstallChart(command));
                assert(steps.deep_view() =~= before.push(
                    LaunchView::InstallChart(install_command(namespace@, chart@)),
                ));
            }
            i += 1;
        }
        steps
    }
}

} // verus!
