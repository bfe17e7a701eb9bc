//! The start of the controller: the schema of the records has to be known to
//! the declarative store before any record can be watched.

use vstd::prelude::*;

verus! {

/// What the store answered when it was asked for the schema.
#[derive(Clone, Copy, Debug, PartialEq, Eq, Structural)]
pub enum SchemaProbe {
    Present,
    Absent,
    /// The store could not be asked.
    Failed,
}

/// What has been observed at the start.
#[derive(Clone, Copy, Debug, PartialEq, Eq, Structural)]
pub enum StartupEvent {
    /// The store was asked for the schema.
    Probed(SchemaProbe),
    /// The schema was sent to the store; `true` where the store took it.
    Installed(bool),
    /// The schema was waited for; `true` where it became available.
    Established(bool),
}

/// The step that could not be taken.
#[derive(Clone, Copy, Debug, PartialEq, Eq, Structural)]
pub enum StartupFailure {
    Probe,
    Install,
    Establish,
}

/// What to do next at the start.
#[derive(Clone, Copy, Debug, PartialEq, Eq, Structural)]
pub enum StartupAction {
    /// Send the schema to the store.
    InstallSchema,
    /// Wait until the store serves the schema.
    AwaitSchema,
    /// Watch the records and reconcile them.
    RunController,
    /// Give up and end the process with this code.
    Terminate { failure: StartupFailure, code: i32 },
}

/// The action that follows an event of the start.
pub open spec fn startup_action(event: StartupEvent) -> StartupAction {
    match event {
        StartupEvent::Probed(SchemaProbe::Present) => StartupAction::RunController,
        StartupEvent::Probed(SchemaProbe::Absent) => StartupAction::InstallSchema,
        StartupEvent::Probed(SchemaProbe::Failed) => StartupAction::Terminate {
            failure: StartupFailure::Probe,
            code: 1,
        },
        StartupEvent::Installed(true) => StartupAction::AwaitSchema,
        StartupEvent::Installed(false) => StartupAction::Terminate {
            failure: StartupFailure::Install,
            code: 1,
        },
        StartupEvent::Established(true) => StartupAction::RunController,
        StartupEvent::Established(false) => StartupAction::Terminate {
            failure: StartupFailure::Establish,
            code: 1,
        },
    }
}

/// One step of the start. A schema that is present lets the controller run;
/// one that is absent is installed and waited for; any failure ends the
/// process with code 1.
pub fn run(event: StartupEvent) -> (action: StartupAction)
    ensures
        action == startup_action(event),
{
    match event {
        StartupEvent::Probed(probe) => match probe {
            SchemaProbe::Present => StartupAction::RunController,
            SchemaProbe::Absent => StartupAction::InstallSchema,
            SchemaProbe::Failed => StartupAction::Terminate {
                failure: StartupFailure::Probe,
                code: 1,
            },
        },
        StartupEvent::Installed(installed) => if installed {
            StartupAction::AwaitSchema
        } else {
            StartupAction::Terminate { failure: StartupFailure::Install, code: 1 }
        },
        StartupEvent::Established(established) => if established {
            StartupAction::RunController
        } else {
            StartupAction::Terminate { failure: StartupFailure::Establish, code: 1 }
        },
    }
}

} // verus!
