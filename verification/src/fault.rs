//! What can go wrong with a repository, a directory or a development environment.

use crate::text::{decimal_nat, decimal_u64};
use vstd::prelude::*;
use vstd::string::StringExecFns;

verus! {

/// Why a command could not be prepared.
#[derive(Debug, Clone)]
pub enum Fault {
    /// A pattern of the library did not compile; `reason` says why.
    Pattern { reason: String },
    /// The address of the repository has none of the forms that are understood.
    UnsupportedRepository,
    /// The address of the repository cannot be brought into the form that `ssh` takes.
    NotConvertible,
    /// The address `url` does not name a repository in the form that `ssh` takes.
    InvalidRepository { url: String },
    /// No remote of the repository has a branch that can be taken for its default.
    NoDefaultBranch,
    /// Neither the directory nor the directory above it is given.
    NoDirectory,
    /// The environment is not listed; `place` is where it would be listed.
    UnknownIde { place: usize },
}

/// A [`Fault`] with its texts as sequences of characters.
pub enum FaultView {
    Pattern { reason: Seq<char> },
    UnsupportedRepository,
    NotConvertible,
    InvalidRepository { url: Seq<char> },
    NoDefaultBranch,
    NoDirectory,
    UnknownIde { place: usize },
}

impl View for Fault {
    type V = FaultView;

    open spec fn view(&self) -> FaultView {
        match self {
            Fault::Pattern { reason } => FaultView::Pattern { reason: reason@ },
            Fault::UnsupportedRepository => FaultView::UnsupportedRepository,
            Fault::NotConvertible => FaultView::NotConvertible,
            Fault::InvalidRepository { url } => FaultView::InvalidRepository { url: url@ },
            Fault::NoDefaultBranch => FaultView::NoDefaultBranch,
            Fault::NoDirectory => FaultView::NoDirectory,
            Fault::UnknownIde { place } => FaultView::UnknownIde { place: *place },
        }
    }
}

impl FaultView {
    /// The sentence that states the fault.
    pub open spec fn message(self) -> Seq<char> {
        match self {
            FaultView::Pattern { reason } => reason,
            FaultView::UnsupportedRepository =>
                "Unsupported repository URL. Supported formats: [git@<host>:<org>/<repo>.git, http[s]://<host>/<org>/<repo>[/...]]"@,
            FaultView::NotConvertible =>
                "Only http(s) repository URLs are supported for conversion"@,
            FaultView::InvalidRepository { url } => "Invalid repository URL: "@ + url,
            FaultView::NoDefaultBranch => "Could not find remote and default branch"@,
            FaultView::NoDirectory =>
                "At least one of --directory or --root-directory must be provided"@,
            FaultView::UnknownIde { place } => decimal_nat(place as nat),
        }
    }
}

impl Fault {
    /// The sentence that states the fault.
    pub fn message(&self) -> (r: String)
        ensures
            r@ == self@.message(),
    {
        match self {
            Fault::Pattern { reason } => reason.clone(),
            Fault::UnsupportedRepository => String::from_str(
                "Unsupported repository URL. Supported formats: [git@<host>:<org>/<repo>.git, http[s]://<host>/<org>/<repo>[/...]]",
            ),
            Fault::NotConvertible => String::from_str(
                "Only http(s) repository URLs are supported for conversion",
            ),
            Fault::InvalidRepository { url } => String::from_str("Invalid repository URL: ").concat(
                url.as_str(),
            ),
            Fault::NoDefaultBranch => String::from_str("Could not find remote and default branch"),
            Fault::NoDirectory => String::from_str(
                "At least one of --directory or --root-directory must be provided",
            ),
            Fault::UnknownIde { place } => decimal_u64(*place as u64),
        }
    }
}

} // verus!
