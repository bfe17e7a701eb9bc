use benchmark_operator::kcbench::{
    benchmark_linux_kernel, is_run_line, new_series, read_run, RUN_PATTERN,
};
use benchmark_operator::launcher::Command;
use benchmark_operator::results::{DataEntry, ResultResponse};
use benchmark_operator::wrk::{
    or_default, requests_found, transfer_found, wrk_load_test, WrkReport, WrkSettings,
    REQUESTS_PATTERN, TRANSFER_PATTERN,
};

fn texts(items: &[&str]) -> Vec<String> {
    items.iter().map(|item| item.to_string()).collect()
}

fn groups(items: &[Option<&str>]) -> Vec<Option<String>> {
    items.iter().map(|item| item.map(|text| text.to_string())).collect()
}

fn settings() -> WrkSettings {
    WrkSettings::new(
        None,
        None,
        None,
        None,
        None,
        "http://web:8080/".to_string(),
        None,
        None,
    )
}

const KCBENCH: &str = "Processor:           Some CPU [8 CPUs]\n\
Linux compiled:      6.2.0 [/root/.cache/kcbench/linux-6.2]\n\
Run 1 (-j 4):        412.17 seconds / 8.73 kernels/hour [P:391%]\r\n\
Run 2 (-j 4):        409 seconds / 8.80 kernels/hour [P:392%]\n\
Running something else\n\
Run 10 (-j 4):       405.5 seconds / 8.88 kernels/hour [P:392%]\n";

const WRK: &str = "Running 1m test @ http://web:8080/\n\
  8 threads and 400 connections\n\
  Thread Stats   Avg      Stdev     Max   +/- Stdev\n\
    Latency    10.25ms    5.11ms 120.00ms   85.00%\n\
  1200000 requests in 1.00m, 150.00MB read\n\
Requests/sec:  20000.15\n\
Transfer/sec:      2.50MB\n";

#[test]
fn the_times_of_the_runs_are_read_in_their_order() {
    let results = benchmark_linux_kernel(KCBENCH).unwrap();
    assert_eq!(
        results,
        ResultResponse {
            name: "kcbench CPU Benchmark.".to_string(),
            description: "This benchmark will compile the Linux kernel a couple of times, testing CPU performance.".to_string(),
            data: vec![DataEntry {
                parameter: "kcbench -s 6.2 -i 10 -j 4".to_string(),
                measurements: texts(&["412.17", "409", "405.5"]),
                data_unit: "seconds".to_string(),
                measurement_name: "Compilation time (seconds)".to_string(),
            }],
            raw_data: KCBENCH.to_string(),
            generated_jupyter: None,
        }
    );
}

#[test]
fn an_output_without_runs_gives_an_empty_series() {
    let results = benchmark_linux_kernel("nothing to see\nhere\n").unwrap();
    assert_eq!(results.data, vec![new_series()]);
    assert_eq!(results.raw_data, "nothing to see\nhere\n");
    let results = benchmark_linux_kernel("").unwrap();
    assert_eq!(results.data, vec![new_series()]);
    assert_eq!(
        new_series(),
        DataEntry {
            parameter: "kcbench -s 6.2 -i 10 -j 4".to_string(),
            measurements: Vec::new(),
            data_unit: String::new(),
            measurement_name: String::new(),
        }
    );
}

#[test]
fn the_unit_is_that_of_the_first_run() {
    let output = "Run 2 (-j 4): 5.0 minutes\nRun 1 (-j 4): 300 seconds\nRun 3 (-j 4): 1 hours\n";
    let results = benchmark_linux_kernel(output).unwrap();
    assert_eq!(results.data[0].measurements, texts(&["5.0", "300", "1"]));
    assert_eq!(results.data[0].data_unit, "seconds");
    assert_eq!(results.data[0].measurement_name, "Compilation time (seconds)");
}

#[test]
fn a_run_is_read_from_its_groups() {
    let mut series = new_series();
    let second = groups(&[Some("Run 2 (-j 4): 7.5 s"), Some("2"), Some("4"), Some("7.5"), Some("s")]);
    assert!(is_run_line(&second));
    read_run(&mut series, &second);
    assert_eq!(series.measurements, texts(&["7.5"]));
    assert_eq!(series.data_unit, "");
    assert_eq!(series.measurement_name, "");
    let first = groups(&[Some("Run 1 (-j 4): 8 s"), Some("1"), Some("4"), Some("8"), Some("s")]);
    read_run(&mut series, &first);
    assert_eq!(series.measurements, texts(&["7.5", "8"]));
    assert_eq!(series.data_unit, "s");
    assert_eq!(series.measurement_name, "Compilation time (s)");
}

#[test]
fn groups_that_lack_a_part_are_no_run() {
    assert!(!is_run_line(&groups(&[Some("x"), Some("1"), Some("4"), Some("8")])));
    assert!(!is_run_line(&groups(&[Some("x"), None, Some("4"), Some("8"), Some("s")])));
    assert!(!is_run_line(&groups(&[Some("x"), Some("1"), Some("4"), None, Some("s")])));
    assert!(!is_run_line(&groups(&[Some("x"), Some("1"), Some("4"), Some("8"), None])));
    assert!(is_run_line(&groups(&[Some("x"), Some("1"), None, Some("8"), Some("s")])));
    assert!(!is_run_line(&Vec::new()));
}

#[test]
fn the_settings_have_their_defaults() {
    assert_eq!(
        settings(),
        WrkSettings {
            iterations: "5".to_string(),
            connections: "400".to_string(),
            threads: "8".to_string(),
            duration: "1m".to_string(),
            timeout: "10s".to_string(),
            endpoint: "http://web:8080/".to_string(),
            test_name: "wrk load test.".to_string(),
            test_description: "wrk load test.".to_string(),
        }
    );
    let given = WrkSettings::new(
        Some("2".to_string()),
        Some("10".to_string()),
        Some("1".to_string()),
        Some("30s".to_string()),
        Some("2s".to_string()),
        "http://web/".to_string(),
        Some("name".to_string()),
        Some("description".to_string()),
    );
    assert_eq!(
        given,
        WrkSettings {
            iterations: "2".to_string(),
            connections: "10".to_string(),
            threads: "1".to_string(),
            duration: "30s".to_string(),
            timeout: "2s".to_string(),
            endpoint: "http://web/".to_string(),
            test_name: "name".to_string(),
            test_description: "description".to_string(),
        }
    );
    assert_eq!(or_default(None, "x"), "x");
    assert_eq!(or_default(Some("y".to_string()), "x"), "y");
}

#[test]
fn the_load_generator_is_run_with_the_settings() {
    assert_eq!(
        settings().command(),
        Command {
            program: "wrk".to_string(),
            arguments: texts(&[
                "-c",
                "400",
                "-t",
                "8",
                "-d",
                "1m",
                "--timeout",
                "10s",
                "http://web:8080/",
            ]),
        }
    );
    assert_eq!(
        settings().parameter(),
        "5 time(s): 'wrk -c 400 -t 8 -d 1m --timeout 10s http://web:8080/'"
    );
}

#[test]
fn the_report_starts_with_two_empty_series() {
    let parameter = "5 time(s): 'wrk -c 400 -t 8 -d 1m --timeout 10s http://web:8080/'";
    assert_eq!(
        settings().report(),
        WrkReport {
            requests: DataEntry {
                parameter: parameter.to_string(),
                measurements: Vec::new(),
                data_unit: "req/s".to_string(),
                measurement_name: "Requests per second (req/s)".to_string(),
            },
            transfer: DataEntry {
                parameter: parameter.to_string(),
                measurements: Vec::new(),
                data_unit: String::new(),
                measurement_name: String::new(),
            },
            raw_data: String::new(),
        }
    );
}

#[test]
fn the_rates_of_each_run_are_read() {
    let second = WRK.replace("20000.15", "19000").replace("2.50MB", "2GB");
    let outputs = vec![WRK.to_string(), "no rates here\n".to_string(), second.clone()];
    let results = wrk_load_test(&settings(), &outputs).unwrap();
    let parameter = "5 time(s): 'wrk -c 400 -t 8 -d 1m --timeout 10s http://web:8080/'";
    assert_eq!(
        results,
        ResultResponse {
            name: "wrk load test.".to_string(),
            description: "wrk load test.".to_string(),
            data: vec![
                DataEntry {
                    parameter: parameter.to_string(),
                    measurements: texts(&["20000.15", "19000"]),
                    data_unit: "req/s".to_string(),
                    measurement_name: "Requests per second (req/s)".to_string(),
                },
                DataEntry {
                    parameter: parameter.to_string(),
                    measurements: texts(&["2.50", "2"]),
                    data_unit: "MB/s".to_string(),
                    measurement_name: "Transfer per second (MB/s/s)".to_string(),
                },
            ],
            raw_data: format!("{}no rates here\n{}", WRK, second),
            generated_jupyter: None,
        }
    );
}

#[test]
fn a_load_test_without_runs_has_empty_series() {
    let results = wrk_load_test(&settings(), &Vec::new()).unwrap();
    assert_eq!(results.data, vec![settings().report().requests, settings().report().transfer]);
    assert_eq!(results.raw_data, "");
    assert_eq!(results.generated_jupyter, None);
}

#[test]
fn a_run_is_noted_from_its_groups() {
    let mut report = settings().report();
    let requests = Some(groups(&[Some("Requests/sec: 12.5"), Some("12.5")]));
    let transfer = Some(groups(&[Some("Transfer/sec: 3KB"), Some("3"), Some("KB")]));
    report.note_run("first", &requests, &transfer);
    assert_eq!(report.requests.measurements, texts(&["12.5"]));
    assert_eq!(report.transfer.measurements, texts(&["3"]));
    assert_eq!(report.transfer.data_unit, "KB/s");
    assert_eq!(report.transfer.measurement_name, "Transfer per second (KB/s/s)");
    assert_eq!(report.raw_data, "first");

    let transfer = Some(groups(&[Some("Transfer/sec: 4MB"), Some("4"), Some("MB")]));
    report.note_run("|second", &None, &transfer);
    assert_eq!(report.requests.measurements, texts(&["12.5"]));
    assert_eq!(report.transfer.measurements, texts(&["3", "4"]));
    assert_eq!(report.transfer.data_unit, "KB/s");
    assert_eq!(report.raw_data, "first|second");

    report.note_run("|third", &None, &None);
    assert_eq!(report.transfer.measurements, texts(&["3", "4"]));
    assert_eq!(report.raw_data, "first|second|third");
}

#[test]
fn a_run_is_read_from_its_output() {
    let mut report = settings().report();
    assert!(report.read_run(WRK));
    assert_eq!(report.requests.measurements, texts(&["20000.15"]));
    assert_eq!(report.transfer.measurements, texts(&["2.50"]));
    assert_eq!(report.transfer.data_unit, "MB/s");
    assert_eq!(report.raw_data, WRK);
    assert!(report.read_run("Transfer/sec: 7"));
    assert_eq!(report.transfer.measurements, texts(&["2.50", "7"]));
    assert_eq!(report.requests.measurements, texts(&["20000.15"]));
}

#[test]
fn a_transfer_without_unit_has_the_bare_unit() {
    let mut report = settings().report();
    assert!(report.read_run("Transfer/sec: 7\nRequests/sec:9.\n"));
    assert_eq!(report.transfer.measurements, texts(&["7"]));
    assert_eq!(report.transfer.data_unit, "/s");
    assert_eq!(report.transfer.measurement_name, "Transfer per second (/s/s)");
    assert_eq!(report.requests.measurements, texts(&["9."]));
}

#[test]
fn groups_that_lack_a_part_are_not_found() {
    assert!(requests_found(&groups(&[Some("x"), Some("1")])));
    assert!(!requests_found(&groups(&[Some("x"), None])));
    assert!(!requests_found(&groups(&[Some("x")])));
    assert!(transfer_found(&groups(&[Some("x"), Some("1"), Some("")])));
    assert!(!transfer_found(&groups(&[Some("x"), Some("1"), None])));
    assert!(!transfer_found(&groups(&[Some("x"), None, Some("MB")])));
    assert!(!transfer_found(&groups(&[Some("x"), Some("1")])));
}

#[test]
fn the_patterns_are_those_of_the_tools() {
    assert_eq!(RUN_PATTERN, r"Run\s+(\d+)\s+\(-j\s+(\d+)\):\s+(\d+\.?\d*)\s+(\w+).*");
    assert_eq!(REQUESTS_PATTERN, r"Requests/sec:\s*(\d+\.?\d*)");
    assert_eq!(TRANSFER_PATTERN, r"Transfer/sec:\s*(\d+\.?\d*)(\w*)");
}

#[test]
fn a_run_is_found_anywhere_in_its_line_and_only_in_its_line() {
    let output = "noise Run 1 (-j 8): 12.5 s and more\nRun 2\n(-j 8): 3 s\n";
    let results = benchmark_linux_kernel(output).unwrap();
    assert_eq!(results.data[0].measurements, texts(&["12.5"]));
    assert_eq!(results.data[0].data_unit, "s");
}
