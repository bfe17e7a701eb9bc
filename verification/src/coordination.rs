//! The coordination endpoint: what the calls of a workload, *started* and
//! *done*, do to the selected record and to the shared state cell, and what
//! the workload is answered.

use crate::benchmark::BenchmarkState;
use crate::state::{EventTime, StateData, StateDataView};
use vstd::prelude::*;

verus! {

/// A state to set on a record: read its status, pass it through
/// `Benchmark::set_benchmark_state` and write the result.
#[derive(Clone, Debug, PartialEq, Eq)]
pub struct StateWrite {
    pub name: String,
    pub namespace: String,
    pub state: BenchmarkState,
}

pub struct StateWriteView {
    pub name: Seq<char>,
    pub namespace: Seq<char>,
    pub state: BenchmarkState,
}

impl View for StateWrite {
    type V = StateWriteView;

    open spec fn view(&self) -> StateWriteView {
        StateWriteView { name: self.name@, namespace: self.namespace@, state: self.state }
    }
}

impl DeepView for StateWrite {
    type V = StateWriteView;

    open spec fn deep_view(&self) -> StateWriteView {
        self@
    }
}

/// The answer to *started*: where the workload has to store its results.
#[derive(Clone, Debug, PartialEq, Eq)]
pub struct BenchmarkStartedResponse {
    pub database_connection_string: String,
}

/// The answer to *done*.
#[derive(Clone, Copy, Debug, PartialEq, Eq, Structural)]
pub struct BenchmarkDoneResponse {
    pub acknowledge: bool,
}

/// The code of a failed call.
#[derive(Clone, Copy, Debug, PartialEq, Eq, Structural)]
pub enum Code {
    /// The state of the selected record could not be written.
    FailedPrecondition,
}

/// The failure that a call is answered with.
#[derive(Clone, Debug, PartialEq, Eq)]
pub struct Status {
    pub code: Code,
    pub message: String,
}

impl StateDataView {
    /// The write that sets `state` on the record that the cell selects.
    pub open spec fn write_of(self, state: BenchmarkState) -> StateWriteView {
        StateWriteView { name: self.benchmark_name, namespace: self.namespace, state: state }
    }
}

/// Marks the cell as written at `now` and names the selected record with the
/// state to set on it.
fn call(cell: &mut StateData, state: BenchmarkState, now: EventTime) -> (write: StateWrite)
    ensures
        final(cell)@ == old(cell)@.touched(now),
        write@ == old(cell)@.write_of(state),
{
    cell.touch(now);
    StateWrite { name: cell.benchmark_name.clone(), namespace: cell.namespace.clone(), state }
}

/// A workload reports at `now` that it is up: the selected record is to
/// become `Running`. The cell keeps its selection and its flags.
pub fn benchmark_started(cell: &mut StateData, now: EventTime) -> (write: StateWrite)
    ensures
        final(cell)@ == old(cell)@.touched(now),
        write@ == old(cell)@.write_of(BenchmarkState::Running),
{
    call(cell, BenchmarkState::Running, now)
}

/// A workload reports at `now` that its results are stored: the selected
/// record is to become `Done`, whether or not it was seen `Running` before.
pub fn benchmark_done(cell: &mut StateData, now: EventTime) -> (write: StateWrite)
    ensures
        final(cell)@ == old(cell)@.touched(now),
        write@ == old(cell)@.write_of(BenchmarkState::Done),
{
    call(cell, BenchmarkState::Done, now)
}

/// The answer to *started*, given how the write of the state ended: on
/// success the connection string of the result sink, else a failed
/// precondition that carries the error's text.
pub fn started_response(written: Result<(), String>, database_url: String) -> (answer: Result<
    BenchmarkStartedResponse,
    Status,
>)
    ensures
        written is Ok <==> answer is Ok,
        answer matches Ok(response) ==> response.database_connection_string@ == database_url@,
        answer matches Err(status) ==> status.code == Code::FailedPrecondition
            && status.message@ == written->Err_0@,
{
    match written {
        Ok(_) => Ok(BenchmarkStartedResponse { database_connection_string: database_url }),
        Err(message) => Err(Status { code: Code::FailedPrecondition, message }),
    }
}

/// The answer to *done*, given how the write of the state ended: on success
/// an acknowledgement, else a failed precondition that carries the error's
/// text.
pub fn done_response(written: Result<(), String>) -> (answer: Result<BenchmarkDoneResponse, Status>)
    ensures
        written is Ok <==> answer is Ok,
        answer matches Ok(response) ==> response.acknowledge,
        answer matches Err(status) ==> status.code == Code::FailedPrecondition
            && status.message@ == written->Err_0@,
{
    match written {
        Ok(_) => Ok(BenchmarkDoneResponse { acknowledge: true }),
        Err(message) => Err(Status { code: Code::FailedPrecondition, message }),
    }
}

} // verus!
