//! The families tools are grouped in.

use vstd::prelude::*;

verus! {

/// A family of tools.
#[derive(Debug, Clone, Copy, PartialEq, Eq, Structural)]
pub enum Family {
    Foo,
    Runtime,
    Composer,
    Project,
    Control,
}

pub open spec fn family_name(f: Family) -> Seq<char> {
    match f {
        Family::Foo => "Foo"@,
        Family::Runtime => "Runtime"@,
        Family::Composer => "Composer"@,
        Family::Project => "Project"@,
        Family::Control => "Control"@,
    }
}

impl Family {
    /// The order families are listed in.
    pub fn order() -> (r: [Family; 5])
        ensures
            r@ == seq![Family::Foo, Family::Runtime, Family::Composer, Family::Project, Family::Control],
    {
        let r = [Family::Foo, Family::Runtime, Family::Composer, Family::Project, Family::Control];
        assert(r@ =~= seq![Family::Foo, Family::Runtime, Family::Composer, Family::Project, Family::Control]);
        r
    }

    /// The family's name as shown to the model.
    pub fn name(self) -> (r: &'static str)
        ensures
            r@ == family_name(self),
    {
        match self {
            Family::Foo => "Foo",
            Family::Runtime => "Runtime",
            Family::Composer => "Composer",
            Family::Project => "Project",
            Family::Control => "Control",
        }
    }
}

} // verus!
