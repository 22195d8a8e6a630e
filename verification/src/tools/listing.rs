//! Replies of the tools that list and read project files.

use vstd::prelude::*;

use crate::provenance::store::{locked_in, Store, StoreView};
use crate::text::{concat3, texts};
use crate::tools::reply::{json_quote, json_string};

verus! {

broadcast use vstd::seq_lib::group_seq_properties;

/// The items joined with commas.
pub open spec fn joined(items: Seq<Seq<char>>) -> Seq<char>
    decreases items.len(),
{
    if items.len() == 0 {
        seq![]
    } else if items.len() == 1 {
        items[0]
    } else {
        joined(items.drop_last()) + ","@ + items.last()
    }
}

/// Each path as a JSON string.
pub open spec fn path_items(paths: Seq<Seq<char>>) -> Seq<Seq<char>> {
    paths.map_values(|p: Seq<char>| json_string(p))
}

/// Each path as `{"locked":..,"path":..}`.
pub open spec fn locked_items(s: StoreView, paths: Seq<Seq<char>>) -> Seq<Seq<char>> {
    paths.map_values(|p: Seq<char>| "{\"locked\":"@ + (if locked_in(s, p) { "true"@ } else { "false"@ }) + ",\"path\":"@ + json_string(p) + "}"@)
}

/// The text of `{"files":[..]}`.
pub open spec fn files_text(items: Seq<Seq<char>>) -> Seq<char> {
    "{\"files\":["@ + joined(items) + "]}"@
}

/// The reply of a listing of `.foo` units: with a store, each unit says whether it is
/// locked; else paths only.
pub open spec fn foo_list_text(store: Option<StoreView>, files: Seq<Seq<char>>) -> Seq<char> {
    match store {
        Some(s) => files_text(locked_items(s, files)),
        None => files_text(path_items(files)),
    }
}

pub open spec fn store_view(s: Option<&Store>) -> Option<StoreView> {
    match s {
        Some(x) => Some(x@),
        None => None,
    }
}

/// The reply listing `files`, marking locked units when composing with `store`.
pub fn files_reply(store: Option<&Store>, files: &Vec<String>) -> (r: String)
    ensures
        r@ == foo_list_text(store_view(store), texts(files@)),
{
    let ghost ps = texts(files@);
    let ghost items = match store {
        Some(s) => locked_items(s@, ps),
        None => path_items(ps),
    };
    let mut out = String::new();
    let mut i: usize = 0;
    while i < files.len()
        invariant
            i <= files@.len(),
            ps == texts(files@),
            items == (match store { Some(s) => locked_items(s@, ps), None => path_items(ps) }),
            items.len() == ps.len(),
            out@ == joined(items.take(i as int)),
        decreases files@.len() - i,
    {
        proof {
            assert(items.take(i + 1).drop_last() =~= items.take(i as int));
        }
        if i > 0 {
            out.append(",");
        }
        let path = files[i].as_str();
        match store {
            Some(s) => {
                let flag = if s.is_locked(path) { "true" } else { "false" };
                out.append("{\"locked\":");
                out.append(flag);
                out.append(",\"path\":");
                out.append(json_quote(path).as_str());
                out.append("}");
                proof {
                    reveal_strlit("true");
                    reveal_strlit("false");
                }
            },
            None => {
                out.append(json_quote(path).as_str());
            },
        }
        i = i + 1;
    }
    assert(items.take(files@.len() as int) =~= items);
    concat3("{\"files\":[", out.as_str(), "]}")
}

/// The text of `{"contents":..,"path":..}`.
pub open spec fn read_text(path: Seq<char>, contents: Seq<char>) -> Seq<char> {
    "{\"contents\":"@ + json_string(contents) + ",\"path\":"@ + json_string(path) + "}"@
}

/// The reply to a read of a file.
pub fn read_reply(path: &str, contents: &str) -> (r: String)
    ensures
        r@ == read_text(path@, contents@),
{
    let mut out = String::new();
    out.append("{\"contents\":");
    out.append(json_quote(contents).as_str());
    out.append(",\"path\":");
    out.append(json_quote(path).as_str());
    out.append("}");
    out
}

} // verus!
