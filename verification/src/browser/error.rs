//! What can go wrong while browsers are looked for.

use crate::browser::kind::Kind;
use crate::text::{decimal, decimal_i32};
use vstd::prelude::*;
use vstd::string::StringExecFns;

verus! {

/// Why a browser could not be resolved or found.
#[derive(Debug, Clone)]
pub enum Failure {
    /// The executable could not be started; `reason` says why.
    NotStarted { reason: String },
    /// The executable ended with a status other than zero; `code` is that status, where the
    /// platform reports one.
    Failed { code: Option<i32> },
    /// The version report does not begin with the browser's name; `report` is the report
    /// without the whitespace around it.
    InvalidVersion { report: String },
    /// No browser of this kind was found.
    NotFound { kind: Kind },
    /// Browsers are opened on macOS alone.
    Unsupported,
}

/// A [`Failure`] with its texts as sequences of characters.
pub enum FailureView {
    NotStarted { reason: Seq<char> },
    Failed { code: Option<i32> },
    InvalidVersion { report: Seq<char> },
    NotFound { kind: Kind },
    Unsupported,
}

impl View for Failure {
    type V = FailureView;

    open spec fn view(&self) -> FailureView {
        match self {
            Failure::NotStarted { reason } => FailureView::NotStarted { reason: reason@ },
            Failure::Failed { code } => FailureView::Failed { code: *code },
            Failure::InvalidVersion { report } => FailureView::InvalidVersion { report: report@ },
            Failure::NotFound { kind } => FailureView::NotFound { kind: *kind },
            Failure::Unsupported => FailureView::Unsupported,
        }
    }
}

impl FailureView {
    /// The sentence that states the error.
    pub open spec fn message(self) -> Seq<char> {
        match self {
            FailureView::NotStarted { reason } => reason,
            FailureView::Failed { code: Some(code) } => "non-zero exit code: "@ + decimal(
                code as int,
            ),
            FailureView::Failed { code: None } => "non-zero exit code: unknown"@,
            FailureView::InvalidVersion { report } => "invalid version: "@ + report,
            FailureView::NotFound { kind } => "No browser found for "@ + kind.spec_short_name(),
            FailureView::Unsupported =>
                "This subcommand is not supported on non-macOS systems"@,
        }
    }
}

impl Failure {
    /// The sentence that states the error.
    pub fn message(&self) -> (r: String)
        ensures
            r@ == self@.message(),
    {
        match self {
            Failure::NotStarted { reason } => reason.clone(),
            Failure::Failed { code: Some(code) } => String::from_str("non-zero exit code: ").concat(
                decimal_i32(*code).as_str(),
            ),
            Failure::Failed { code: None } => String::from_str("non-zero exit code: unknown"),
            Failure::InvalidVersion { report } => String::from_str("invalid version: ").concat(
                report.as_str(),
            ),
            Failure::NotFound { kind } => String::from_str("No browser found for ").concat(
                kind.short_name(),
            ),
            Failure::Unsupported => String::from_str(
                "This subcommand is not supported on non-macOS systems",
            ),
        }
    }
}

} // verus!
