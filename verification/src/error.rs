//! The errors that the orchestrator raises by itself, in the shape of an
//! error response of the declarative store.

use vstd::prelude::*;

verus! {

/// An error in the shape in which the declarative store reports one.
#[derive(Clone, Debug, PartialEq, Eq)]
pub struct ApiError {
    pub status: String,
    pub message: String,
    pub reason: String,
    pub code: u16,
}

pub struct ApiErrorView {
    pub status: Seq<char>,
    pub message: Seq<char>,
    pub reason: Seq<char>,
    pub code: u16,
}

impl View for ApiError {
    type V = ApiErrorView;

    open spec fn view(&self) -> ApiErrorView {
        ApiErrorView {
            status: self.status@,
            message: self.message@,
            reason: self.reason@,
            code: self.code,
        }
    }
}

impl DeepView for ApiError {
    type V = ApiErrorView;

    open spec fn deep_view(&self) -> ApiErrorView {
        self@
    }
}

/// The step of a chart operation that went wrong.
#[derive(Clone, Copy, Debug, PartialEq, Eq, Structural)]
pub enum HelmStep {
    /// The install of a chart could not be started, or failed.
    Install,
    /// The listing of the installed charts could not be started.
    List,
    /// The listing was started but its output could not be had.
    ListOutput,
    /// The removal of the listed charts could not be started.
    Delete,
}

impl ApiErrorView {
    /// The error for a failed step of a chart operation.
    pub open spec fn helm_failure(step: HelmStep) -> ApiErrorView {
        match step {
            HelmStep::Install => ApiErrorView {
                status: "Error"@,
                message: "Helm install failed."@,
                reason: "Helm install command failed."@,
                code: 500,
            },
            HelmStep::List => ApiErrorView {
                status: "Error"@,
                message: "Helm list failed."@,
                reason: "Helm list command failed."@,
                code: 500,
            },
            HelmStep::ListOutput => ApiErrorView {
                status: "Error"@,
                message: "Failed to open Helm list stdout."@,
                reason: "Failed to open Helm list stdout."@,
                code: 500,
            },
            HelmStep::Delete => ApiErrorView {
                status: "Error"@,
                message: "Helm delete failed."@,
                reason: "Helm delete command failed."@,
                code: 500,
            },
        }
    }

    /// The error for a state that was to be set on a record without status.
    pub open spec fn status_missing() -> ApiErrorView {
        ApiErrorView {
            status: "Error"@,
            message: "Could not set Benchmark state"@,
            reason: "Current status is None"@,
            code: 404,
        }
    }
}

impl ApiError {
    /// The error for a failed step of a chart operation.
    pub fn helm_failure(step: HelmStep) -> (error: ApiError)
        ensures
            error@ == ApiErrorView::helm_failure(step),
    {
        match step {
            HelmStep::Install => ApiError {
                status: "Error".to_owned(),
                message: "Helm install failed.".to_owned(),
                reason: "Helm install command failed.".to_owned(),
                code: 500,
            },
            HelmStep::List => ApiError {
                status: "Error".to_owned(),
                message: "Helm list failed.".to_owned(),
                reason: "Helm list command failed.".to_owned(),
                code: 500,
            },
            HelmStep::ListOutput => ApiError {
                status: "Error".to_owned(),
                message: "Failed to open Helm list stdout.".to_owned(),
                reason: "Failed to open Helm list stdout.".to_owned(),
                code: 500,
            },
            HelmStep::Delete => ApiError {
                status: "Error".to_owned(),
                message: "Helm delete failed.".to_owned(),
                reason: "Helm delete command failed.".to_owned(),
                code: 500,
            },
        }
    }

    /// The error for a state that was to be set on a record without status.
    pub fn status_missing() -> (error: ApiError)
        ensures
            error@ == ApiErrorView::status_missing(),
    {
        ApiError {
            status: "Error".to_owned(),
            message: "Could not set Benchmark state".to_owned(),
            reason: "Current status is None".to_owned(),
            code: 404,
        }
    }
}

} // verus!
