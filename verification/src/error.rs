//! The configuration errors that policy resolution and expansion can raise.

use vstd::prelude::*;

verus! {

/// A fatal configuration error found while resolving or expanding a policy.
///
/// Every variant aborts the whole run: there is no recovery past the first
/// configuration error.
#[derive(Debug)]
pub enum Error {
    /// A unit was targeted individually but holds no policy file at all.
    CustomsMissing,
    /// A unit was targeted individually but its policy holds no regulation
    /// entries after merging.
    EmptyRegulations,
    /// A regulation names the `all` build target together with other build
    /// targets; `all` must stand alone.
    BuildTargetsAllNotAlone,
    /// A build-target token that the invocation builder does not recognize.
    InvalidBuildTarget(String),
}

/// Mathematical model of an [`Error`]: the offending token of
/// `InvalidBuildTarget` as its character sequence.
pub ghost enum ErrorView {
    CustomsMissing,
    EmptyRegulations,
    BuildTargetsAllNotAlone,
    InvalidBuildTarget(Seq<char>),
}

impl View for Error {
    type V = ErrorView;

    open spec fn view(&self) -> ErrorView {
        match self {
            Error::CustomsMissing => ErrorView::CustomsMissing,
            Error::EmptyRegulations => ErrorView::EmptyRegulations,
            Error::BuildTargetsAllNotAlone => ErrorView::BuildTargetsAllNotAlone,
            Error::InvalidBuildTarget(t) => ErrorView::InvalidBuildTarget(t@),
        }
    }
}

impl Error {
    /// A human-readable description of the error.
    pub fn message(&self) -> String {
        match self {
            Error::CustomsMissing => "no customs file found".to_owned(),
            Error::EmptyRegulations => "customs file holds no regulations".to_owned(),
            Error::BuildTargetsAllNotAlone => {
                "the build target 'all' can only stand alone".to_owned()
            },
            Error::InvalidBuildTarget(t) => {
                let mut m = "invalid build target: ".to_owned();
                m.append(t.as_str());
                m
            },
        }
    }
}

} // verus!
