//! The order of the steps that build and run a composed project, as a state machine:
//! the caller runs each step and reports how it ended.

use vstd::prelude::*;

use crate::error::{DreamError, ErrorKind};
use crate::source::paths::{entry_stem, entry_stem_spec, text_result};
use crate::text::{owned, texts};
use crate::toolchain::catalog::{run_argv_of, strs, ToolchainSpec, ToolchainView};
use crate::toolchain::outcome::{Outcome, OutcomeView};
use crate::toolchain::program::{is_language, is_language_spec};
use crate::toolchain::Toolchain;

verus! {

/// A step of building and running.
#[derive(Debug, Clone, Copy, PartialEq, Eq, Structural)]
pub enum Stage {
    Configure,
    Build,
    Run,
}

impl Stage {
    /// The step's name in reports.
    pub fn name(self) -> (r: &'static str)
        ensures
            r@ == stage_name(self),
    {
        match self {
            Stage::Configure => "configure",
            Stage::Build => "build",
            Stage::Run => "run",
        }
    }
}

pub open spec fn stage_name(s: Stage) -> Seq<char> {
    match s {
        Stage::Configure => "configure"@,
        Stage::Build => "build"@,
        Stage::Run => "run"@,
    }
}

/// What to do next.
#[derive(Debug)]
pub enum Action {
    /// Run `argv` in dest as `stage`; an empty argv is a step that succeeds at once.
    Exec { stage: Stage, argv: Vec<String> },
    /// Stop with this outcome.
    Finish(Outcome),
}

/// The abstract value of an action.
pub enum ActionView {
    Exec { stage: Stage, argv: Seq<Seq<char>> },
    Finish(OutcomeView),
}

impl View for Action {
    type V = ActionView;

    open spec fn view(&self) -> ActionView {
        match self {
            Action::Exec { stage, argv } => ActionView::Exec { stage: *stage, argv: texts(argv@) },
            Action::Finish(o) => ActionView::Finish(o@),
        }
    }
}

/// Whether a missing configure helper may be skipped: the configure step names a
/// helper, not the row's language program.
pub open spec fn skippable_configure(t: ToolchainView) -> bool {
    t.configure.len() > 0 && !is_language_spec(t, t.configure[0])
}

/// The step after `last` ended, or the first step when nothing has run yet.
pub open spec fn next_spec(
    t: ToolchainView,
    entry: Seq<char>,
    run_program: bool,
    last: Option<(Stage, OutcomeView)>,
) -> Result<ActionView, (ErrorKind, Seq<char>)> {
    match last {
        None => Ok(ActionView::Exec { stage: Stage::Configure, argv: t.configure }),
        Some((Stage::Configure, o)) => if o is Succeeded || (o is MissingToolchain && skippable_configure(t)) {
            Ok(ActionView::Exec { stage: Stage::Build, argv: t.build })
        } else {
            Ok(ActionView::Finish(o))
        },
        Some((Stage::Build, o)) => if o is Succeeded {
            if run_program {
                match entry_stem_spec(entry) {
                    Ok(stem) => Ok(ActionView::Exec { stage: Stage::Run, argv: run_argv_of(t, stem) }),
                    Err(e) => Err(e),
                }
            } else {
                Ok(ActionView::Finish(OutcomeView::Succeeded))
            }
        } else {
            Ok(ActionView::Finish(o))
        },
        Some((Stage::Run, o)) => Ok(ActionView::Finish(o)),
    }
}

/// The sequence starts with configure and stops at the first step that does not end
/// cleanly, with that step's outcome. A configure step goes on to the build only when it succeeded, or when the
/// configure program it names is missing and is a helper rather than the row's language
/// program; a failed configure step never leads to the build. A build goes on to run
/// the program only when it succeeded and running was asked for, and a run always ends
/// the sequence.
pub proof fn lemma_unclean_step_finishes(t: ToolchainView, entry: Seq<char>, run_program: bool, stage: Stage, o: OutcomeView)
    ensures
        (o is Failed || o is NoToolchain) ==> next_spec(t, entry, run_program, Some((stage, o)))
            == Ok::<ActionView, (ErrorKind, Seq<char>)>(ActionView::Finish(o)),
        next_spec(t, entry, run_program, Some((Stage::Configure, o))) matches Ok(ActionView::Exec { stage: s, argv }) ==> {
            &&& s == Stage::Build
            &&& argv == t.build
            &&& (o is Succeeded || (o is MissingToolchain && t.configure.len() > 0 && !is_language_spec(t, t.configure[0])))
        },
        !(o is Succeeded || (o is MissingToolchain && t.configure.len() > 0 && !is_language_spec(t, t.configure[0])))
            ==> next_spec(t, entry, run_program, Some((Stage::Configure, o))) == Ok::<ActionView, (ErrorKind, Seq<char>)>(ActionView::Finish(o)),
        !(o is Succeeded) ==> next_spec(t, entry, run_program, Some((Stage::Build, o)))
            == Ok::<ActionView, (ErrorKind, Seq<char>)>(ActionView::Finish(o)),
        (o is Succeeded && !run_program) ==> next_spec(t, entry, run_program, Some((Stage::Build, o)))
            == Ok::<ActionView, (ErrorKind, Seq<char>)>(ActionView::Finish(OutcomeView::Succeeded)),
        next_spec(t, entry, run_program, Some((Stage::Run, o))) == Ok::<ActionView, (ErrorKind, Seq<char>)>(ActionView::Finish(o)),
        next_spec(t, entry, run_program, None) == Ok::<ActionView, (ErrorKind, Seq<char>)>(ActionView::Exec { stage: Stage::Configure, argv: t.configure }),
        o is Succeeded ==> next_spec(t, entry, run_program, Some((Stage::Configure, o)))
            == Ok::<ActionView, (ErrorKind, Seq<char>)>(ActionView::Exec { stage: Stage::Build, argv: t.build }),
        (o is Succeeded && run_program) ==> (next_spec(t, entry, run_program, Some((Stage::Build, o))) matches Ok(ActionView::Exec { stage: s, .. }) ==> s == Stage::Run),
{
}

pub open spec fn last_view(last: Option<(Stage, Outcome)>) -> Option<(Stage, OutcomeView)> {
    match last {
        Some((s, o)) => Some((s, o@)),
        None => None,
    }
}

pub open spec fn action_result(r: Result<Action, DreamError>) -> Result<ActionView, (ErrorKind, Seq<char>)> {
    match r {
        Ok(a) => Ok(a@),
        Err(e) => Err(e@),
    }
}

fn argv_of(v: &Vec<&'static str>) -> (r: Vec<String>)
    ensures
        texts(r@) == strs(v@),
{
    let mut out: Vec<String> = Vec::new();
    let mut i: usize = 0;
    while i < v.len()
        invariant
            i <= v@.len(),
            texts(out@) == strs(v@).take(i as int),
        decreases v@.len() - i,
    {
        let ghost before = texts(out@);
        let item = owned(v[i]);
        out.push(item);
        proof {
            assert(texts(out@) =~= before.push(item@));
            assert(texts(out@) =~= strs(v@).take(i + 1));
        }
        i = i + 1;
    }
    assert(strs(v@).take(v@.len() as int) =~= strs(v@));
    out
}

/// The next step of building and running the composed project with row `spec`:
/// configure, then build, then (when asked) run the entrypoint. A missing configure
/// helper is skipped; any other unclean step ends the sequence with its outcome.
pub fn invoke_step(spec: &ToolchainSpec, entry_rel: &str, run_program: bool, last: Option<(Stage, Outcome)>) -> (r: Result<Action, DreamError>)
    ensures
        action_result(r) == next_spec(spec@, entry_rel@, run_program, last_view(last)),
{
    match last {
        None => Ok(Action::Exec { stage: Stage::Configure, argv: argv_of(&spec.configure) }),
        Some((Stage::Configure, o)) => {
            let go_on = match &o {
                Outcome::Succeeded => true,
                Outcome::MissingToolchain(_) => spec.configure.len() > 0 && !is_language(spec, spec.configure[0]),
                _ => false,
            };
            if go_on {
                Ok(Action::Exec { stage: Stage::Build, argv: argv_of(&spec.build) })
            } else {
                Ok(Action::Finish(o))
            }
        },
        Some((Stage::Build, o)) => match o {
            Outcome::Succeeded => if run_program {
                match entry_stem(entry_rel) {
                    Ok(stem) => Ok(Action::Exec { stage: Stage::Run, argv: spec.run_argv(stem.as_str()) }),
                    Err(e) => Err(e),
                }
            } else {
                Ok(Action::Finish(Outcome::Succeeded))
            },
            other => Ok(Action::Finish(other)),
        },
        Some((Stage::Run, o)) => Ok(Action::Finish(o)),
    }
}

/// After composing: with no catalog row there is nothing Dream can build; else the next
/// step of configure, build and run.
pub fn after_compose(toolchain: Option<Toolchain>, entry_rel: &str, run_program: bool, last: Option<(Stage, Outcome)>) -> (r: Result<Action, DreamError>)
    ensures
        match toolchain {
            Some(Toolchain::Known(i)) if i < crate::toolchain::catalog::CATALOG_LEN => action_result(r) == next_spec(
                crate::toolchain::catalog::catalog_row(i as int),
                entry_rel@,
                run_program,
                last_view(last),
            ),
            _ => action_result(r) == Ok::<ActionView, (ErrorKind, Seq<char>)>(ActionView::Finish(OutcomeView::NoToolchain)),
        },
{
    let spec = match toolchain {
        Some(t) => t.spec(),
        None => None,
    };
    match spec {
        Some(spec) => invoke_step(&spec, entry_rel, run_program, last),
        None => Ok(Action::Finish(Outcome::NoToolchain)),
    }
}

} // verus!
