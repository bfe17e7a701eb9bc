use benchmark_operator::startup::{
    run, SchemaProbe, StartupAction, StartupEvent, StartupFailure,
};

#[test]
fn a_schema_that_is_present_lets_the_controller_run() {
    assert_eq!(run(StartupEvent::Probed(SchemaProbe::Present)), StartupAction::RunController);
}

#[test]
fn a_schema_that_is_absent_is_installed_and_waited_for() {
    assert_eq!(run(StartupEvent::Probed(SchemaProbe::Absent)), StartupAction::InstallSchema);
    assert_eq!(run(StartupEvent::Installed(true)), StartupAction::AwaitSchema);
    assert_eq!(run(StartupEvent::Established(true)), StartupAction::RunController);
}

#[test]
fn any_failure_at_the_start_ends_the_process_with_code_one() {
    assert_eq!(
        run(StartupEvent::Probed(SchemaProbe::Failed)),
        StartupAction::Terminate { failure: StartupFailure::Probe, code: 1 }
    );
    assert_eq!(
        run(StartupEvent::Installed(false)),
        StartupAction::Terminate { failure: StartupFailure::Install, code: 1 }
    );
    assert_eq!(
        run(StartupEvent::Established(false)),
        StartupAction::Terminate { failure: StartupFailure::Establish, code: 1 }
    );
}
