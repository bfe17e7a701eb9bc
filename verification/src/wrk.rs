//! The load test: how the load generator is run, and what its output says.

use crate::launcher::{Command, CommandView};
use crate::pattern::{captured, compiles, pattern_compiles, search};
use crate::results::{DataEntry, DataEntryView, ResultResponse, ResultResponseView};
use vstd::prelude::*;

verus! {

/// How the load generator is to be run, and under which name the results
/// are stored.
#[derive(Clone, Debug, PartialEq, Eq)]
pub struct WrkSettings {
    pub iterations: String,
    pub connections: String,
    pub threads: String,
    pub duration: String,
    pub timeout: String,
    pub endpoint: String,
    pub test_name: String,
    pub test_description: String,
}

pub struct WrkSettingsView {
    pub iterations: Seq<char>,
    pub connections: Seq<char>,
    pub threads: Seq<char>,
    pub duration: Seq<char>,
    pub timeout: Seq<char>,
    pub endpoint: Seq<char>,
    pub test_name: Seq<char>,
    pub test_description: Seq<char>,
}

impl View for WrkSettings {
    type V = WrkSettingsView;

    open spec fn view(&self) -> WrkSettingsView {
        WrkSettingsView {
            iterations: self.iterations@,
            connections: self.connections@,
            threads: self.threads@,
            duration: self.duration@,
            timeout: self.timeout@,
            endpoint: self.endpoint@,
            test_name: self.test_name@,
            test_description: self.test_description@,
        }
    }
}

impl DeepView for WrkSettings {
    type V = WrkSettingsView;

    open spec fn deep_view(&self) -> WrkSettingsView {
        self@
    }
}

/// The two series of a load test and the output of its runs so far.
#[derive(Clone, Debug, PartialEq, Eq)]
pub struct WrkReport {
    pub requests: DataEntry,
    pub transfer: DataEntry,
    pub raw_data: String,
}

pub struct WrkReportView {
    pub requests: DataEntryView,
    pub transfer: DataEntryView,
    pub raw_data: Seq<char>,
}

impl View for WrkReport {
    type V = WrkReportView;

    open spec fn view(&self) -> WrkReportView {
        WrkReportView {
            requests: self.requests@,
            transfer: self.transfer@,
            raw_data: self.raw_data@,
        }
    }
}

impl DeepView for WrkReport {
    type V = WrkReportView;

    open spec fn deep_view(&self) -> WrkReportView {
        self@
    }
}

/// The value, or the default where there is none.
pub open spec fn value_or(value: Option<Seq<char>>, default: Seq<char>) -> Seq<char> {
    match value {
        Some(given) => given,
        None => default,
    }
}

/// The pattern of the line that reports the requests per second.
pub const REQUESTS_PATTERN: &'static str = r"Requests/sec:\s*(\d+\.?\d*)";

/// The pattern of the line that reports the transfer per second and its
/// unit.
pub const TRANSFER_PATTERN: &'static str = r"Transfer/sec:\s*(\d+\.?\d*)(\w*)";

/// The pattern for the requests per second, as a sequence of characters.
pub open spec fn requests_pattern() -> Seq<char> {
    REQUESTS_PATTERN@
}

/// The pattern for the transfer per second, as a sequence of characters.
pub open spec fn transfer_pattern() -> Seq<char> {
    TRANSFER_PATTERN@
}

/// The groups hold the requests per second.
pub open spec fn has_requests(groups: Seq<Option<Seq<char>>>) -> bool {
    groups.len() > 1 && groups[1] is Some
}

/// The groups hold the transfer per second and its unit.
pub open spec fn has_transfer(groups: Seq<Option<Seq<char>>>) -> bool {
    groups.len() > 2 && groups[1] is Some && groups[2] is Some
}

impl WrkSettingsView {
    /// `wrk -c <connections> -t <threads> -d <duration> --timeout <timeout>
    /// <endpoint>`.
    pub open spec fn command(self) -> CommandView {
        CommandView {
            program: "wrk"@,
            arguments: seq![
                "-c"@,
                self.connections,
                "-t"@,
                self.threads,
                "-d"@,
                self.duration,
                "--timeout"@,
                self.timeout,
                self.endpoint,
            ],
        }
    }

    /// What was run, as the results say it.
    pub open spec fn parameter(self) -> Seq<char> {
        self.iterations + " time(s): 'wrk -c "@ + self.connections + " -t "@ + self.threads
            + " -d "@ + self.duration + " --timeout "@ + self.timeout + " "@ + self.endpoint
            + "'"@
    }

    /// The report before any run.
    pub open spec fn empty_report(self) -> WrkReportView {
        WrkReportView {
            requests: DataEntryView {
                parameter: self.parameter(),
                measurements: Seq::empty(),
                data_unit: "req/s"@,
                measurement_name: "Requests per second (req/s)"@,
            },
            transfer: DataEntryView {
                parameter: self.parameter(),
                measurements: Seq::empty(),
                data_unit: Seq::empty(),
                measurement_name: Seq::empty(),
            },
            raw_data: Seq::empty(),
        }
    }
}

impl WrkReportView {
    /// The report after one more run, given its output and the groups that
    /// the two patterns captured in it. The first transfer that is read sets
    /// unit and label of its series.
    pub open spec fn after_run(
        self,
        output: Seq<char>,
        requests: Option<Seq<Option<Seq<char>>>>,
        transfer: Option<Seq<Option<Seq<char>>>>,
    ) -> WrkReportView {
        let requests_series = match requests {
            Some(groups) => DataEntryView {
                measurements: self.requests.measurements.push(groups[1]->0),
                ..self.requests
            },
            None => self.requests,
        };
        let transfer_series = match transfer {
            Some(groups) => if self.transfer.measurement_name.len() == 0 {
                DataEntryView {
                    measurements: self.transfer.measurements.push(groups[1]->0),
                    data_unit: groups[2]->0 + "/s"@,
                    measurement_name: "Transfer per second ("@ + (groups[2]->0 + "/s"@) + "/s)"@,
                    ..self.transfer
                }
            } else {
                DataEntryView {
                    measurements: self.transfer.measurements.push(groups[1]->0),
                    ..self.transfer
                }
            },
            None => self.transfer,
        };
        WrkReportView {
            requests: requests_series,
            transfer: transfer_series,
            raw_data: self.raw_data + output,
        }
    }

    /// The report after a run as the patterns read it. Groups that lack what
    /// a series needs count as no match.
    pub open spec fn after_output(self, output: Seq<char>) -> WrkReportView {
        self.after_run(
            output,
            match captured(requests_pattern(), output) {
                Some(groups) if has_requests(groups) => Some(groups),
                _ => None,
            },
            match captured(transfer_pattern(), output) {
                Some(groups) if has_transfer(groups) => Some(groups),
                _ => None,
            },
        )
    }

    /// The report after the first `count` runs.
    pub open spec fn after_outputs(self, outputs: Seq<Seq<char>>, count: nat) -> WrkReportView
        decreases count,
    {
        if count == 0 {
            self
        } else {
            self.after_outputs(outputs, (count - 1) as nat).after_output(outputs[count - 1])
        }
    }

    /// The results that the report comes to.
    pub open spec fn results(self, settings: WrkSettingsView) -> ResultResponseView {
        ResultResponseView {
            name: settings.test_name,
            description: settings.test_description,
            data: seq![self.requests, self.transfer],
            raw_data: self.raw_data,
            generated_jupyter: None,
        }
    }
}

/// The value, or the default where there is none.
pub fn or_default(value: Option<String>, default: &str) -> (chosen: String)
    ensures
        chosen@ == value_or(value.deep_view(), default@),
{
    match value {
        Some(given) => given,
        None => default.to_owned(),
    }
}

impl WrkSettings {
    /// The settings as the environment gives them. What is not set has a
    /// default: 5 iterations, 400 connections, 8 threads, one minute, a
    /// timeout of ten seconds, and `wrk load test.` for name and description.
    pub fn new(
        iterations: Option<String>,
        connections: Option<String>,
        threads: Option<String>,
        duration: Option<String>,
        timeout: Option<String>,
        endpoint: String,
        test_name: Option<String>,
        test_description: Option<String>,
    ) -> (settings: WrkSettings)
        ensures
            settings@ == (WrkSettingsView {
                iterations: value_or(iterations.deep_view(), "5"@),
                connections: value_or(connections.deep_view(), "400"@),
                threads: value_or(threads.deep_view(), "8"@),
                duration: value_or(duration.deep_view(), "1m"@),
                timeout: value_or(timeout.deep_view(), "10s"@),
                endpoint: endpoint@,
                test_name: value_or(test_name.deep_view(), "wrk load test."@),
                test_description: value_or(test_description.deep_view(), "wrk load test."@),
            }),
    {
        WrkSettings {
            iterations: or_default(iterations, "5"),
            connections: or_default(connections, "400"),
            threads: or_default(threads, "8"),
            duration: or_default(duration, "1m"),
            timeout: or_default(timeout, "10s"),
            endpoint,
            test_name: or_default(test_name, "wrk load test."),
            test_description: or_default(test_description, "wrk load test."),
        }
    }

    /// The command of one run.
    pub fn command(&self) -> (command: Command)
        ensures
            command@ == self@.command(),
    {
        let mut arguments: Vec<String> = Vec::new();
        arguments.push("-c".to_owned());
        arguments.push(self.connections.clone());
        arguments.push("-t".to_owned());
        arguments.push(self.threads.clone());
        arguments.push("-d".to_owned());
        arguments.push(self.duration.clone());
        arguments.push("--timeout".to_owned());
        arguments.push(self.timeout.clone());
        arguments.push(self.endpoint.clone());
        let command = Command { program: "wrk".to_owned(), arguments };
        assert(command@.arguments =~= self@.command().arguments);
        command
    }

    /// What was run, as the results say it.
    pub fn parameter(&self) -> (parameter: String)
        ensures
            parameter@ == self@.parameter(),
    {
        let mut parameter = self.iterations.clone();
        parameter.append(" time(s): 'wrk -c ");
        parameter.append(self.connections.as_str());
        parameter.append(" -t ");
        parameter.append(self.threads.as_str());
        parameter.append(" -d ");
        parameter.append(self.duration.as_str());
        parameter.append(" --timeout ");
        parameter.append(self.timeout.as_str());
        parameter.append(" ");
        parameter.append(self.endpoint.as_str());
        parameter.append("'");
        parameter
    }

    /// The report before any run.
    pub fn report(&self) -> (report: WrkReport)
        ensures
            report@ == self@.empty_report(),
    {
        let report = WrkReport {
            requests: DataEntry {
                parameter: self.parameter(),
                measurements: Vec::new(),
                data_unit: "req/s".to_owned(),
                measurement_name: "Requests per second (req/s)".to_owned(),
            },
            transfer: DataEntry {
                parameter: self.parameter(),
                measurements: Vec::new(),
                data_unit: String::new(),
                measurement_name: String::new(),
            },
            raw_data: String::new(),
        };
        assert(report@.requests.measurements =~= Seq::<Seq<char>>::empty());
        assert(report@.transfer.measurements =~= Seq::<Seq<char>>::empty());
        assert(report@.transfer.data_unit =~= Seq::<char>::empty());
        assert(report@.transfer.measurement_name =~= Seq::<char>::empty());
        assert(report@.raw_data =~= Seq::<char>::empty());
        report
    }
}

impl WrkReport {
    /// Takes one more run into the report, given its output and the groups
    /// that the two patterns captured in it.
    pub fn note_run(
        &mut self,
        output: &str,
        requests: &Option<Vec<Option<String>>>,
        transfer: &Option<Vec<Option<String>>>,
    )
        requires
            requests matches Some(groups) ==> has_requests(groups.deep_view()),
            transfer matches Some(groups) ==> has_transfer(groups.deep_view()),
        ensures
            final(self)@ == old(self)@.after_run(
                output@,
                requests.deep_view(),
                transfer.deep_view(),
            ),
    {
        let ghost before = self@;
        if let Some(groups) = requests {
            proof {
                assert(groups.deep_view()[1] == groups[1].deep_view());
            }
            match &groups[1] {
                Some(rate) => {
                    self.requests.measurements.push(rate.clone());
                    assert(self@.requests.measurements =~= before.requests.measurements.push(
                        rate@,
                    ));
                },
                None => {
                    assert(false);
                },
            }
        }
        if let Some(groups) = transfer {
            proof {
                assert(groups.deep_view()[1] == groups[1].deep_view());
                assert(groups.deep_view()[2] == groups[2].deep_view());
            }
            match (&groups[1], &groups[2]) {
                (Some(rate), Some(unit)) => {
                    if self.transfer.measurement_name.as_str().is_empty() {
                        let mut data_unit = unit.clone();
                        data_unit.append("/s");
                        let mut label = "Transfer per second (".to_owned();
                        label.append(data_unit.as_str());
                        label.append("/s)");
                        self.transfer.data_unit = data_unit;
                        self.transfer.measurement_name = label;
                    }
                    self.transfer.measurements.push(rate.clone());
                    assert(self@.transfer.measurements =~= before.transfer.measurements.push(
                        rate@,
                    ));
                },
                _ => {
                    assert(false);
                },
            }
        }
        self.raw_data.append(output);
    }

    /// Reads one more run into the report from its output. Returns `false`
    /// and leaves the report as it is where one of the two patterns does not
    /// compile.
    pub fn read_run(&mut self, output: &str) -> (read: bool)
        ensures
            read <==> pattern_compiles(requests_pattern()) && pattern_compiles(transfer_pattern()),
            read ==> final(self)@ == old(self)@.after_output(output@),
            !read ==> final(self)@ == old(self)@,
    {
        let requests = search(REQUESTS_PATTERN, output);
        let transfer = search(TRANSFER_PATTERN, output);
        match (requests, transfer) {
            (Some(requests), Some(transfer)) => {
                let requests = match requests {
                    Some(groups) => if requests_found(&groups) {
                        Some(groups)
                    } else {
                        None
                    },
                    None => None,
                };
                let transfer = match transfer {
                    Some(groups) => if transfer_found(&groups) {
                        Some(groups)
                    } else {
                        None
                    },
                    None => None,
                };
                self.note_run(output, &requests, &transfer);
                true
            },
            _ => false,
        }
    }

    /// The results that the report comes to.
    pub fn results(self, settings: &WrkSettings) -> (results: ResultResponse)
        ensures
            results@ == self@.results(settings@),
    {
        let ghost report = self@;
        let mut data: Vec<DataEntry> = Vec::new();
        data.push(self.requests);
        data.push(self.transfer);
        let results = ResultResponse {
            name: settings.test_name.clone(),
            description: settings.test_description.clone(),
            data,
            raw_data: self.raw_data,
            generated_jupyter: None,
        };
        assert(results@.data =~= seq![report.requests, report.transfer]);
        results
    }
}

/// Whether the groups hold the requests per second.
pub fn requests_found(groups: &Vec<Option<String>>) -> (found: bool)
    ensures
        found == has_requests(groups.deep_view()),
{
    if groups.len() > 1 {
        proof {
            assert(groups.deep_view()[1] == groups[1].deep_view());
        }
        groups[1].is_some()
    } else {
        false
    }
}

/// Whether the groups hold the transfer per second and its unit.
pub fn transfer_found(groups: &Vec<Option<String>>) -> (found: bool)
    ensures
        found == has_transfer(groups.deep_view()),
{
    if groups.len() > 2 {
        proof {
            assert(groups.deep_view()[1] == groups[1].deep_view());
            assert(groups.deep_view()[2] == groups[2].deep_view());
        }
        groups[1].is_some() && groups[2].is_some()
    } else {
        false
    }
}

/// The results of a load test, given the output of each of its runs in
/// their order. There are no results where one of the two patterns does not
/// compile.
pub fn wrk_load_test(settings: &WrkSettings, outputs: &Vec<String>) -> (results: Option<
    ResultResponse,
>)
    ensures
        results is Some <==> pattern_compiles(requests_pattern()) && pattern_compiles(
            transfer_pattern(),
        ),
        results matches Some(found) ==> found@ == settings@.empty_report().after_outputs(
            outputs.deep_view(),
            outputs.len() as nat,
        ).results(settings@),
{
    if !compiles(REQUESTS_PATTERN) || !compiles(TRANSFER_PATTERN) {
        return None;
    }
    let mut report = settings.report();
    let mut i: usize = 0;
    while i < outputs.len()
        invariant
            i <= outputs.len(),
            pattern_compiles(requests_pattern()),
            pattern_compiles(transfer_pattern()),
            report@ == settings@.empty_report().after_outputs(outputs.deep_view(), i as nat),
        decreases outputs.len() - i,
    {
        assert(outputs.deep_view()[i as int] == outputs[i as int]@);
        let read = report.read_run(outputs[i].as_str());
        i += 1;
    }
    Some(report.results(settings))
}

} // verus!
