//! Which program names a step may launch, and what to say when none is installed.

use vstd::prelude::*;

use crate::text::{concat, owned, same, texts};
use crate::toolchain::catalog::{strs, ToolchainSpec, ToolchainView};

verus! {

/// Why a program could not be started.
#[derive(Debug)]
pub enum SpawnError {
    /// No program of that name is installed.
    NotFound,
    /// It exists but could not be started.
    Other(String),
}

impl SpawnError {
    /// The error's message.
    pub fn to_string(&self) -> (s: String)
        ensures
            self matches SpawnError::Other(m) ==> s@ == m@,
            self is NotFound ==> s@ == "program not found"@,
    {
        match self {
            SpawnError::NotFound => owned("program not found"),
            SpawnError::Other(m) => m.clone(),
        }
    }
}

/// Whether `requested` is the row's language program: the first official name.
pub open spec fn is_language_spec(t: ToolchainView, requested: Seq<char>) -> bool {
    t.programs.len() > 0 && t.programs[0] == requested
}

/// The names to try, in order: every official name for the language program, else the
/// requested name alone.
pub open spec fn names_spec(t: ToolchainView, requested: Seq<char>) -> Seq<Seq<char>> {
    if is_language_spec(t, requested) {
        t.programs
    } else {
        seq![requested]
    }
}

/// What to say when no name could be launched.
pub open spec fn missing_hint_spec(t: ToolchainView, requested: Seq<char>) -> Seq<char> {
    if is_language_spec(t, requested) {
        t.install_hint
    } else {
        requested + " is not installed"@
    }
}

/// Is `requested` the row's language program?
pub fn is_language(spec: &ToolchainSpec, requested: &str) -> (r: bool)
    ensures
        r == is_language_spec(spec@, requested@),
{
    spec.programs.len() > 0 && same(spec.programs[0], requested)
}

/// The program names to try for `requested`.
pub fn names(spec: &ToolchainSpec, requested: &str) -> (r: Vec<String>)
    ensures
        texts(r@) == names_spec(spec@, requested@),
{
    let mut out: Vec<String> = Vec::new();
    if is_language(spec, requested) {
        let mut i: usize = 0;
        while i < spec.programs.len()
            invariant
                i <= spec.programs@.len(),
                texts(out@) == strs(spec.programs@).take(i as int),
            decreases spec.programs@.len() - i,
        {
            let ghost before = texts(out@);
            let item = owned(spec.programs[i]);
            out.push(item);
            proof {
                assert(texts(out@) =~= before.push(item@));
                assert(texts(out@) =~= strs(spec.programs@).take(i + 1));
            }
            i = i + 1;
        }
        assert(strs(spec.programs@).take(spec.programs@.len() as int) =~= strs(spec.programs@));
    } else {
        out.push(owned(requested));
        assert(texts(out@) =~= seq![requested@]);
    }
    out
}

/// What to say when `requested` is not installed.
pub fn missing_hint(spec: &ToolchainSpec, requested: &str) -> (r: String)
    ensures
        r@ == missing_hint_spec(spec@, requested@),
{
    if is_language(spec, requested) {
        owned(spec.install_hint)
    } else {
        concat(requested, " is not installed")
    }
}

/// Whether `run` called with a text equal to `name` may have returned `res`.
pub open spec fn attempt<T, F: Fn(&str) -> Result<T, SpawnError>>(run: F, name: Seq<char>, res: Result<T, SpawnError>) -> bool {
    exists|s: &str| s@ == name && call_ensures(run, (s,), res)
}

/// Whether the first `i` names were all missing.
pub open spec fn all_missing<T, F: Fn(&str) -> Result<T, SpawnError>>(run: F, names: Seq<Seq<char>>, i: int) -> bool {
    forall|j: int| 0 <= j < i ==> #[trigger] attempt(run, names[j], Err::<T, SpawnError>(SpawnError::NotFound))
}

/// Starts the first installed program among the names for `requested`. A missing
/// program moves on to the next name; any other failure stops. `None` when every name
/// is missing.
pub fn launch<T, F: Fn(&str) -> Result<T, SpawnError>>(spec: &ToolchainSpec, requested: &str, run: F) -> (r: Result<Option<T>, SpawnError>)
    requires
        forall|s: &str| call_requires(run, (s,)),
    ensures
        ({
            let ns = names_spec(spec@, requested@);
            match r {
                Ok(Some(v)) => exists|i: int| 0 <= i < ns.len() && all_missing(run, ns, i) && attempt(run, ns[i], Ok::<T, SpawnError>(v)),
                Ok(None) => all_missing(run, ns, ns.len() as int),
                Err(e) => !(e is NotFound) && exists|i: int| 0 <= i < ns.len() && all_missing(run, ns, i) && attempt(run, ns[i], Err::<T, SpawnError>(e)),
            }
        }),
{
    let list = names(spec, requested);
    let ghost ns = names_spec(spec@, requested@);
    let mut i: usize = 0;
    while i < list.len()
        invariant
            texts(list@) == ns,
            ns == names_spec(spec@, requested@),
            i <= list@.len(),
            forall|s: &str| call_requires(run, (s,)),
            all_missing(run, ns, i as int),
        decreases list@.len() - i,
    {
        let name = list[i].as_str();
        let res = run(name);
        match res {
            Ok(value) => {
                assert(attempt(run, ns[i as int], Ok::<T, SpawnError>(value)));
                assert(0 <= i < ns.len() && all_missing(run, ns, i as int));
                return Ok(Some(value));
            },
            Err(SpawnError::NotFound) => {
                assert(attempt(run, ns[i as int], Err::<T, SpawnError>(SpawnError::NotFound)));
                assert forall|j: int| 0 <= j < i + 1 implies #[trigger] attempt(run, ns[j], Err::<T, SpawnError>(SpawnError::NotFound)) by {
                    if j < i {
                        assert(all_missing(run, ns, i as int));
                    }
                }
            },
            Err(e) => {
                assert(attempt(run, ns[i as int], Err::<T, SpawnError>(e)));
                assert(0 <= i < ns.len() && all_missing(run, ns, i as int));
                return Err(e);
            },
        }
        i = i + 1;
    }
    Ok(None)
}

} // verus!
