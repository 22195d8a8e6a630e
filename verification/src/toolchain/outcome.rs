//! What a build or run step ended with.

use vstd::prelude::*;

use crate::error::{DreamError, ErrorKind};
use crate::text::concat;

verus! {

/// How a configure, build or run step ended.
#[derive(Debug)]
pub enum Outcome {
    Succeeded,
    NoToolchain,
    MissingToolchain(String),
    Failed { step: &'static str, diagnostics: String },
}

/// The abstract value of an outcome.
pub enum OutcomeView {
    Succeeded,
    NoToolchain,
    MissingToolchain(Seq<char>),
    Failed { step: Seq<char>, diagnostics: Seq<char> },
}

impl View for Outcome {
    type V = OutcomeView;

    open spec fn view(&self) -> OutcomeView {
        match self {
            Outcome::Succeeded => OutcomeView::Succeeded,
            Outcome::NoToolchain => OutcomeView::NoToolchain,
            Outcome::MissingToolchain(h) => OutcomeView::MissingToolchain(h@),
            Outcome::Failed { step, diagnostics } => OutcomeView::Failed { step: step@, diagnostics: diagnostics@ },
        }
    }
}

/// The error an outcome stands for, if any.
pub open spec fn outcome_error(o: OutcomeView) -> Option<(ErrorKind, Seq<char>)> {
    match o {
        OutcomeView::Succeeded => None,
        OutcomeView::NoToolchain => Some((ErrorKind::Composer, "Dream does not know how to build this target"@)),
        OutcomeView::MissingToolchain(hint) => Some((ErrorKind::Composer, hint)),
        OutcomeView::Failed { step, .. } => Some((ErrorKind::Composer, step + " failed"@)),
    }
}

impl Outcome {
    /// `Ok` for a clean step, else the composer error that reports it.
    pub fn into_error(self) -> (r: Result<(), DreamError>)
        ensures
            match r {
                Ok(()) => outcome_error(self@) is None,
                Err(e) => outcome_error(self@) == Some(e@),
            },
    {
        match self {
            Outcome::Succeeded => Ok(()),
            Outcome::NoToolchain => Err(DreamError::composer("Dream does not know how to build this target")),
            Outcome::MissingToolchain(hint) => Err(DreamError::composer(hint.as_str())),
            Outcome::Failed { step, .. } => Err(DreamError::composer(concat(step, " failed").as_str())),
        }
    }
}

} // verus!
