//! What a tool tells the model it takes: its name, family, description, and its
//! string parameters, each described, with the ones it requires.

use vstd::prelude::*;

use crate::text::{same, texts};
use crate::tools::family::Family;

verus! {

/// One string parameter of a tool, with what to write in it.
pub struct Param {
    pub name: String,
    pub description: String,
}

/// A tool's parameters: an object of string properties, some of them required, and
/// nothing else.
pub struct Params {
    pub properties: Vec<Param>,
    pub required: Vec<String>,
}

/// The abstract value of a parameter list: each property's name and description, and
/// the required names.
pub struct ParamsView {
    pub properties: Seq<(Seq<char>, Seq<char>)>,
    pub required: Seq<Seq<char>>,
}

pub open spec fn param_views(v: Seq<Param>) -> Seq<(Seq<char>, Seq<char>)> {
    v.map_values(|p: Param| (p.name@, p.description@))
}

impl View for Params {
    type V = ParamsView;

    open spec fn view(&self) -> ParamsView {
        ParamsView { properties: param_views(self.properties@), required: texts(self.required@) }
    }
}

/// What the `unit` parameter of a dest tool asks for.
pub open spec fn unit_description() -> Seq<char> {
    "Project-relative path of the `.foo` file that owns this dest file. For this toolchain's setup files, pass the entry `.foo` file"@
}

/// A string parameter.
pub fn string_arg(name: &str, description: &str) -> (p: Param)
    ensures
        p.name@ == name@,
        p.description@ == description@,
{
    Param { name: name.to_owned(), description: description.to_owned() }
}

fn copy_param(p: &Param) -> (r: Param)
    ensures
        r.name@ == p.name@,
        r.description@ == p.description@,
{
    Param { name: p.name.clone(), description: p.description.clone() }
}

/// The parameters `fields`, of which `required` are required.
pub fn object_params(fields: Vec<Param>, required: Vec<String>) -> (r: Params)
    ensures
        r@ == (ParamsView { properties: param_views(fields@), required: texts(required@) }),
{
    Params { properties: fields, required }
}

/// The parameters `fields` with a required `unit` parameter in front: the `.foo` file
/// a dest change is claimed by.
pub fn with_unit(fields: &Vec<Param>, required: &Vec<String>) -> (r: Params)
    ensures
        r@.properties == seq![("unit"@, unit_description())] + param_views(fields@),
        r@.required == seq!["unit"@] + texts(required@),
{
    let mut properties: Vec<Param> = Vec::new();
    properties.push(string_arg("unit", "Project-relative path of the `.foo` file that owns this dest file. For this toolchain's setup files, pass the entry `.foo` file"));
    proof {
        reveal_strlit("unit");
        reveal_strlit("Project-relative path of the `.foo` file that owns this dest file. For this toolchain's setup files, pass the entry `.foo` file");
    }
    let mut i: usize = 0;
    while i < fields.len()
        invariant
            i <= fields@.len(),
            param_views(properties@) == seq![("unit"@, unit_description())] + param_views(fields@).take(i as int),
        decreases fields@.len() - i,
    {
        let ghost before = properties@;
        properties.push(copy_param(&fields[i]));
        proof {
            assert(param_views(properties@) =~= param_views(before).push((fields@[i as int].name@, fields@[i as int].description@)));
            assert(param_views(fields@).take(i + 1) =~= param_views(fields@).take(i as int).push((fields@[i as int].name@, fields@[i as int].description@)));
        }
        i = i + 1;
    }
    let mut names: Vec<String> = Vec::new();
    names.push("unit".to_owned());
    let mut j: usize = 0;
    while j < required.len()
        invariant
            j <= required@.len(),
            texts(names@) == seq!["unit"@] + texts(required@).take(j as int),
        decreases required@.len() - j,
    {
        let ghost before = names@;
        names.push(required[j].clone());
        proof {
            assert(texts(names@) =~= texts(before).push(required@[j as int]@));
            assert(texts(required@).take(j + 1) =~= texts(required@).take(j as int).push(required@[j as int]@));
        }
        j = j + 1;
    }
    assert(param_views(fields@).take(fields@.len() as int) =~= param_views(fields@));
    assert(texts(required@).take(required@.len() as int) =~= texts(required@));
    Params { properties, required: names }
}

impl Params {
    /// Whether there is a parameter named `name`.
    pub fn has_property(&self, name: &str) -> (r: bool)
        ensures
            r == exists|i: int| 0 <= i < self@.properties.len() && (#[trigger] self@.properties[i]).0 == name@,
    {
        let mut i: usize = 0;
        while i < self.properties.len()
            invariant
                i <= self.properties@.len(),
                forall|k: int| 0 <= k < i ==> (#[trigger] self@.properties[k]).0 != name@,
            decreases self.properties@.len() - i,
        {
            if same(self.properties[i].name.as_str(), name) {
                assert(self@.properties[i as int].0 == name@);
                return true;
            }
            i = i + 1;
        }
        false
    }
}

/// What a tool tells the model about itself.
pub struct ToolSpec {
    pub name: String,
    pub family: Family,
    pub description: String,
    pub parameters: Params,
}

/// The `write_file` tool: composing, it takes the claiming `unit`; repairing, it does not.
pub struct WriteFile {
    pub repair: bool,
}

/// The parameters of `write_file`.
pub open spec fn write_params(repair: bool) -> ParamsView {
    let fields = seq![("path"@, "Dest-relative path"@), ("contents"@, "Exact file contents"@)];
    let required = seq!["path"@, "contents"@];
    if repair {
        ParamsView { properties: fields, required }
    } else {
        ParamsView {
            properties: seq![("unit"@, unit_description())] + fields,
            required: seq!["unit"@] + required,
        }
    }
}

impl WriteFile {
    /// `write_file` while composing.
    pub fn compose() -> (w: WriteFile)
        ensures
            !w.repair,
    {
        WriteFile { repair: false }
    }

    /// `write_file` while repairing.
    pub fn repair() -> (w: WriteFile)
        ensures
            w.repair,
    {
        WriteFile { repair: true }
    }

    /// What `write_file` tells the model.
    pub fn spec(&self) -> (s: ToolSpec)
        ensures
            s.name@ == "write_file"@,
            s.family == Family::Composer,
            s.description@ == "Write one dest file. Overwrites if the file exists."@,
            s.parameters@ == write_params(self.repair),
    {
        let mut fields: Vec<Param> = Vec::new();
        fields.push(string_arg("path", "Dest-relative path"));
        fields.push(string_arg("contents", "Exact file contents"));
        let mut required: Vec<String> = Vec::new();
        required.push("path".to_owned());
        required.push("contents".to_owned());
        proof {
            assert(param_views(fields@) =~= seq![("path"@, "Dest-relative path"@), ("contents"@, "Exact file contents"@)]);
            assert(texts(required@) =~= seq!["path"@, "contents"@]);
        }
        let parameters = if self.repair {
            object_params(fields, required)
        } else {
            with_unit(&fields, &required)
        };
        ToolSpec {
            name: "write_file".to_owned(),
            family: Family::Composer,
            description: "Write one dest file. Overwrites if the file exists.".to_owned(),
            parameters,
        }
    }
}

} // verus!
