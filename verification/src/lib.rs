//! Decision core of a benchmark orchestrator.
//!
//! Benchmarks are declared as records, admitted into a queue and run one at a
//! time. This crate holds what the orchestrator decides, as functions from
//! observed values to the effects that a caller has to perform, each with a
//! machine-checked contract:
//!
//! - `benchmark`: the record, its workloads and its status;
//! - `state`: the shared state cell;
//! - `queue`, `patch`, `density`: admission, reorder, and queue density;
//! - `launcher`: pods to create, charts to install and to remove;
//! - `controller`: the reconciler and the finalizer;
//! - `coordination`: the calls of the workloads;
//! - `startup`: the start of the controller;
//! - `cluster`, `theorems`: the cluster as these decisions change it, and
//!   what holds of every cluster that they reach. Three kinds of step are
//!   left out of that, under which the cluster does not stay sound: an
//!   admission into an empty queue while a record waits to be torn down,
//!   the finalizer of a completed record with pending records behind its
//!   old position, and a call of a workload whose record is not at the head
//!   of the queue. `Step::is_enabled` says so in full, and what the
//!   library does there is said by the contracts of its functions all the
//!   same;
//! - `pattern`, `results`, `kcbench`, `wrk`: what the benchmark tools print;
//! - `browser`: the answers of the result browser;
//! - `error`: the errors that the orchestrator raises.

pub mod benchmark;
pub mod browser;
pub mod cluster;
pub mod controller;
pub mod coordination;
pub mod density;
pub mod error;
pub mod kcbench;
pub mod launcher;
pub mod patch;
pub mod pattern;
pub mod queue;
pub mod results;
pub mod startup;
pub mod state;
pub mod theorems;
pub mod wrk;
