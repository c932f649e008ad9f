//! Where definitions live in the project tree: dotted component and
//! template names map to paths under fixed directories, with `:` as the
//! namespace separator.

use vstd::prelude::*;
use crate::text::{from_chars, push_all, replace_all, spec_replace, to_chars};

verus! {

/// A dotted name with each `:` turned into a directory separator.
pub open spec fn spec_name_slash(name: Seq<char>) -> Seq<char> {
    spec_replace(name, seq![':'], seq!['/'])
}

/// A dotted name with each `:` turned into a directory separator.
pub fn name_slash(name: &Vec<char>) -> (r: Vec<char>)
    ensures
        r@ == spec_name_slash(name@),
{
    let colon = to_chars(":");
    let slash = to_chars("/");
    proof {
        reveal_strlit(":");
        reveal_strlit("/");
        assert(colon@ =~= seq![':']);
        assert(slash@ =~= seq!['/']);
    }
    replace_all(name, &colon, &slash)
}

/// The definition file of a component name.
pub open spec fn spec_component_path(name: Seq<char>) -> Seq<char> {
    "components/"@ + spec_name_slash(name) + ".component.html"@
}

/// The shell file of a template name.
pub open spec fn spec_template_path(name: Seq<char>) -> Seq<char> {
    "templates/"@ + spec_name_slash(name) + ".template.html"@
}

/// The frame file of a template name.
pub open spec fn spec_frame_path(name: Seq<char>) -> Seq<char> {
    "templates/"@ + spec_name_slash(name) + ".frame.html"@
}

/// The JSON data file of a template name.
pub open spec fn spec_data_json_path(name: Seq<char>) -> Seq<char> {
    "data/"@ + spec_name_slash(name) + ".data.json"@
}

/// The manifest data file of a template name.
pub open spec fn spec_data_toml_path(name: Seq<char>) -> Seq<char> {
    "data/"@ + spec_name_slash(name) + ".data.toml"@
}

fn join_three(prefix: &str, mid: &Vec<char>, suffix: &str) -> (r: Vec<char>)
    ensures
        r@ == prefix@ + mid@ + suffix@,
{
    let mut out = to_chars(prefix);
    push_all(&mut out, mid);
    push_all(&mut out, &to_chars(suffix));
    proof {
        assert(out@ =~= prefix@ + mid@ + suffix@);
    }
    out
}

pub fn component_path(name: &Vec<char>) -> (r: Vec<char>)
    ensures
        r@ == spec_component_path(name@),
{
    join_three("components/", &name_slash(name), ".component.html")
}

pub fn template_path(name: &Vec<char>) -> (r: Vec<char>)
    ensures
        r@ == spec_template_path(name@),
{
    join_three("templates/", &name_slash(name), ".template.html")
}

pub fn frame_path(name: &Vec<char>) -> (r: Vec<char>)
    ensures
        r@ == spec_frame_path(name@),
{
    join_three("templates/", &name_slash(name), ".frame.html")
}

pub fn data_json_path(name: &Vec<char>) -> (r: Vec<char>)
    ensures
        r@ == spec_data_json_path(name@),
{
    join_three("data/", &name_slash(name), ".data.json")
}

pub fn data_toml_path(name: &Vec<char>) -> (r: Vec<char>)
    ensures
        r@ == spec_data_toml_path(name@),
{
    join_three("data/", &name_slash(name), ".data.toml")
}

/// A path as a `String`, for diagnostics.
pub fn path_string(p: &Vec<char>) -> (r: String)
    ensures
        r@ == p@,
{
    from_chars(p)
}

} // verus!
