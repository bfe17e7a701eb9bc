//! The kernel compile benchmark: what its output says.

use crate::pattern::{captured, compiles, lines_of, pattern_compiles, search, split_lines};
use crate::results::{DataEntry, DataEntryView, ResultResponse, ResultResponseView};
use vstd::prelude::*;

verus! {

/// The pattern of a line that reports one run: the number of the run, the
/// number of jobs, the time taken and its unit.
pub const RUN_PATTERN: &'static str = r"Run\s+(\d+)\s+\(-j\s+(\d+)\):\s+(\d+\.?\d*)\s+(\w+).*";

/// The pattern of a line that reports one run, as a sequence of characters.
pub open spec fn run_pattern() -> Seq<char> {
    RUN_PATTERN@
}

/// The groups are those of a line that reports a run: the number of the
/// run, the time and the unit are there.
pub open spec fn is_run(groups: Seq<Option<Seq<char>>>) -> bool {
    groups.len() > 4 && groups[1] is Some && groups[3] is Some && groups[4] is Some
}

/// The series before any line was read.
pub open spec fn empty_series() -> DataEntryView {
    DataEntryView {
        parameter: "kcbench -s 6.2 -i 10 -j 4"@,
        measurements: Seq::empty(),
        data_unit: Seq::empty(),
        measurement_name: Seq::empty(),
    }
}

/// The series after the line of a run was read: the time is added, and the
/// first run sets the unit for all.
pub open spec fn series_after_run(
    series: DataEntryView,
    groups: Seq<Option<Seq<char>>>,
) -> DataEntryView {
    let time = groups[3]->0;
    let unit = groups[4]->0;
    if groups[1]->0 == "1"@ {
        DataEntryView {
            measurements: series.measurements.push(time),
            data_unit: unit,
            measurement_name: "Compilation time ("@ + unit + ")"@,
            ..series
        }
    } else {
        DataEntryView { measurements: series.measurements.push(time), ..series }
    }
}

/// The series after the first `count` lines were read. A line that reports
/// no run leaves the series as it is.
pub open spec fn series_after_lines(lines: Seq<Seq<char>>, count: nat) -> DataEntryView
    decreases count,
{
    if count == 0 {
        empty_series()
    } else {
        let series = series_after_lines(lines, (count - 1) as nat);
        match captured(run_pattern(), lines[count - 1]) {
            Some(groups) => if is_run(groups) {
                series_after_run(series, groups)
            } else {
                series
            },
            None => series,
        }
    }
}

/// The results for a series and the output that it was read from.
pub open spec fn results_of(series: DataEntryView, output: Seq<char>) -> ResultResponseView {
    ResultResponseView {
        name: "kcbench CPU Benchmark."@,
        description: "This benchmark will compile the Linux kernel a couple of times, testing CPU performance."@,
        data: seq![series],
        raw_data: output,
        generated_jupyter: None,
    }
}

/// The series before any line was read.
pub fn new_series() -> (series: DataEntry)
    ensures
        series@ == empty_series(),
{
    let series = DataEntry {
        parameter: "kcbench -s 6.2 -i 10 -j 4".to_owned(),
        measurements: Vec::new(),
        data_unit: String::new(),
        measurement_name: String::new(),
    };
    assert(series@.measurements =~= Seq::<Seq<char>>::empty());
    assert(series@.data_unit =~= Seq::<char>::empty());
    assert(series@.measurement_name =~= Seq::<char>::empty());
    series
}

/// Reads the line of a run into the series, given the groups that the
/// pattern captured in the line.
pub fn read_run(series: &mut DataEntry, groups: &Vec<Option<String>>)
    requires
        is_run(groups.deep_view()),
    ensures
        final(series)@ == series_after_run(old(series)@, groups.deep_view()),
{
    proof {
        assert(groups.deep_view()[1] == groups[1].deep_view());
        assert(groups.deep_view()[3] == groups[3].deep_view());
        assert(groups.deep_view()[4] == groups[4].deep_view());
    }
    let ghost before = series@;
    match (&groups[1], &groups[3], &groups[4]) {
        (Some(run), Some(time), Some(unit)) => {
            let first = "1".to_owned();
            if *run == first {
                series.data_unit = unit.clone();
                let mut label = "Compilation time (".to_owned();
                label.append(unit.as_str());
                label.append(")");
                series.measurement_name = label;
            }
            series.measurements.push(time.clone());
            assert(series@.measurements =~= before.measurements.push(time@));
        },
        _ => {
            assert(false);
        },
    }
}

/// The results that the output of the benchmark holds: one series with the
/// times of the runs, in the order of the lines. There are no results where
/// the pattern of a run does not compile.
pub fn benchmark_linux_kernel(output: &str) -> (results: Option<ResultResponse>)
    ensures
        results is Some <==> pattern_compiles(run_pattern()),
        results matches Some(found) ==> found@ == results_of(
            series_after_lines(lines_of(output@), lines_of(output@).len()),
            output@,
        ),
{
    let pattern = RUN_PATTERN;
    if !compiles(pattern) {
        return None;
    }
    let lines = split_lines(output);
    let mut series = new_series();
    let mut i: usize = 0;
    while i < lines.len()
        invariant
            i <= lines.len(),
            pattern@ == run_pattern(),
            pattern_compiles(run_pattern()),
            lines.deep_view() == lines_of(output@),
            series@ == series_after_lines(lines_of(output@), i as nat),
        decreases lines.len() - i,
    {
        assert(lines.deep_view()[i as int] == lines[i as int]@);
        if let Some(Some(groups)) = search(pattern, lines[i].as_str()) {
            if is_run_line(&groups) {
                read_run(&mut series, &groups);
            }
        }
        i += 1;
    }
    let mut data: Vec<DataEntry> = Vec::new();
    data.push(series);
    let results = ResultResponse {
        name: "kcbench CPU Benchmark.".to_owned(),
        description: "This benchmark will compile the Linux kernel a couple of times, testing CPU performance.".to_owned(),
        data,
        raw_data: output.to_owned(),
        generated_jupyter: None,
    };
    assert(results@.data =~= seq![series_after_lines(lines_of(output@), lines_of(output@).len())]);
    Some(results)
}

/// Whether the groups are those of a line that reports a run.
pub fn is_run_line(groups: &Vec<Option<String>>) -> (run: bool)
    ensures
        run == is_run(groups.deep_view()),
{
    if groups.len() > 4 {
        proof {
            assert(groups.deep_view()[1] == groups[1].deep_view());
            assert(groups.deep_view()[3] == groups[3].deep_view());
            assert(groups.deep_view()[4] == groups[4].deep_view());
        }
        groups[1].is_some() && groups[3].is_some() && groups[4].is_some()
    } else {
        false
    }
}

} // verus!
