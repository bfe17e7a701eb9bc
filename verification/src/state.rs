//! The shared state cell: which record is selected to run, and how far it has
//! come. One cell serves the reconciler, the coordination endpoint and the
//! status page; whoever holds it guards it for one writer or many readers.
//! Every write carries its time: the caller reads the clock and hands the
//! reading in.

use vstd::prelude::*;

verus! {

/// A moment in time: whole seconds since 1970-01-01 00:00:00 UTC and the
/// nanoseconds into that second.
#[derive(Clone, Copy, Debug, PartialEq, Eq, Structural)]
pub struct EventTime {
    pub seconds: i64,
    pub nanoseconds: u32,
}

/// The content of the cell.
#[derive(Clone, Debug, PartialEq, Eq)]
pub struct StateData {
    /// When the cell was last written.
    pub last_event_time: EventTime,
    /// Name and namespace of the selected record: the one whose workloads
    /// were launched last. Both are empty while none is selected.
    pub benchmark_name: String,
    pub namespace: String,
    /// A workload of the selected record has reported that it is up.
    pub is_benchmark_running: bool,
    /// The selected record has been torn down after its workload was done.
    pub is_benchmark_done: bool,
}

pub struct StateDataView {
    pub last_event_time: EventTime,
    pub benchmark_name: Seq<char>,
    pub namespace: Seq<char>,
    pub is_benchmark_running: bool,
    pub is_benchmark_done: bool,
}

impl View for StateData {
    type V = StateDataView;

    open spec fn view(&self) -> StateDataView {
        StateDataView {
            last_event_time: self.last_event_time,
            benchmark_name: self.benchmark_name@,
            namespace: self.namespace@,
            is_benchmark_running: self.is_benchmark_running,
            is_benchmark_done: self.is_benchmark_done,
        }
    }
}

impl DeepView for StateData {
    type V = StateDataView;

    open spec fn deep_view(&self) -> StateDataView {
        self@
    }
}

impl StateDataView {
    /// The cell after the record of this name and namespace was selected at
    /// `now`: both flags are down.
    pub open spec fn selected(name: Seq<char>, namespace: Seq<char>, now: EventTime) -> Self {
        StateDataView {
            last_event_time: now,
            benchmark_name: name,
            namespace: namespace,
            is_benchmark_running: false,
            is_benchmark_done: false,
        }
    }

    /// The cell with no record selected, as written at `now`.
    pub open spec fn cleared(now: EventTime) -> Self {
        Self::selected(Seq::empty(), Seq::empty(), now)
    }

    /// The cell written at `now` with nothing else changed.
    pub open spec fn touched(self, now: EventTime) -> Self {
        StateDataView { last_event_time: now, ..self }
    }
}

impl StateData {
    /// A cell with no record selected, as written at `now`.
    pub fn new(now: EventTime) -> (cell: Self)
        ensures
            cell@ == StateDataView::cleared(now),
    {
        StateData {
            last_event_time: now,
            benchmark_name: String::new(),
            namespace: String::new(),
            is_benchmark_running: false,
            is_benchmark_done: false,
        }
    }

    /// Selects the record of this name and namespace at `now` and takes both
    /// flags down.
    pub fn new_benchmark(&mut self, benchmark_name: String, namespace: String, now: EventTime)
        ensures
            final(self)@ == StateDataView::selected(benchmark_name@, namespace@, now),
    {
        self.last_event_time = now;
        self.benchmark_name = benchmark_name;
        self.namespace = namespace;
        self.is_benchmark_running = false;
        self.is_benchmark_done = false;
    }

    /// Clears the cell at `now`: the same as selecting the record of the empty
    /// name in the empty namespace.
    pub fn clear_state(&mut self, now: EventTime)
        ensures
            final(self)@ == StateDataView::cleared(now),
            final(self)@ == StateDataView::selected(Seq::empty(), Seq::empty(), now),
    {
        self.new_benchmark(String::new(), String::new(), now);
    }

    /// Sets the running flag at `now`.
    pub fn set_is_benchmark_running(&mut self, is_running: bool, now: EventTime)
        ensures
            final(self)@ == (StateDataView {
                last_event_time: now,
                is_benchmark_running: is_running,
                ..old(self)@
            }),
    {
        self.last_event_time = now;
        self.is_benchmark_running = is_running;
    }

    /// Sets the done flag at `now`.
    pub fn set_is_benchmark_done(&mut self, is_done: bool, now: EventTime)
        ensures
            final(self)@ == (StateDataView {
                last_event_time: now,
                is_benchmark_done: is_done,
                ..old(self)@
            }),
    {
        self.last_event_time = now;
        self.is_benchmark_done = is_done;
    }

    /// Marks the cell as written at `now` and changes nothing else.
    pub fn touch(&mut self, now: EventTime)
        ensures
            final(self)@ == old(self)@.touched(now),
    {
        self.last_event_time = now;
    }
}

} // verus!
