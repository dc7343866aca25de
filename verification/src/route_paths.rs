//! Relative routes between site paths.
use vstd::prelude::*;
use crate::paths::{
    common_prefix_len, components, drop_markers, join_components, lemma_common_prefix_bounds, lemma_components_of_join,
    lemma_path_names_plain, lemma_relative_path_resolves, no_parent_steps, normalized_components, parent_component,
    plain_name, plain_names, relative_component_list, relative_components, render_components, resolve_components,
};
use crate::text::{chars_of, push_char};

verus! {

/// The path that leads from the directory `from_dir` to `to_path`, both read
/// without root and `.` components.
pub open spec fn relative_path_spec(from_dir: Seq<char>, to_path: Seq<char>) -> Seq<char> {
    join_components(relative_components(drop_markers(components(from_dir)), drop_markers(components(to_path))))
}

/// The path that leads from the directory `from_dir` to `to_path`, both read
/// without root and `.` components.
pub fn relative_path(from_dir: &str, to_path: &str) -> (relative: String)
    ensures
        relative@ == relative_path_spec(from_dir@, to_path@),
{
    let from_components = normalized_components(from_dir);
    let to_components = normalized_components(to_path);
    let rel = relative_component_list(&from_components, &to_components);
    render_components(&rel)
}

/// Law: the relative path from `from_dir` to `to_path`, read from
/// `from_dir`, leads to `to_path` (both taken without root and `.`
/// components), when neither of them steps up with `..`.
pub proof fn lemma_relative_path_round_trip(from_dir: Seq<char>, to_path: Seq<char>)
    requires
        no_parent_steps(drop_markers(components(from_dir))),
        no_parent_steps(drop_markers(components(to_path))),
    ensures
        resolve_components(drop_markers(components(from_dir)), components(relative_path_spec(from_dir, to_path)))
            == drop_markers(components(to_path)),
{
    let f = drop_markers(components(from_dir));
    let t = drop_markers(components(to_path));
    lemma_path_names_plain(to_path);
    let rel = relative_components(f, t);
    let k = common_prefix_len(f, t);
    lemma_common_prefix_bounds(f, t);
    assert(plain_names(rel)) by {
        assert forall|i: int| 0 <= i < rel.len() implies plain_name(#[trigger] rel[i]) by {
            let ups = (f.len() - k) as int;
            if i < ups {
                assert(rel[i] == parent_component());
            } else {
                assert(rel[i] == t[i - ups + k]);
            }
        }
    }
    lemma_components_of_join(rel);
    lemma_relative_path_resolves(f, t);
}

/// A path written with `/` separators; the empty path is written `.`.
pub open spec fn path_display(path: Seq<char>) -> Seq<char> {
    if path.len() == 0 {
        seq!['.']
    } else {
        Seq::new(path.len(), |i: int| if path[i] == '\\' { '/' } else { path[i] })
    }
}

/// Writes a path with `/` separators, and the empty path as `.`.
pub fn path_to_string(path: &str) -> (s: String)
    ensures
        s@ == path_display(path@),
{
    let cs = chars_of(path);
    let mut s = String::new();
    if cs.len() == 0 {
        push_char(&mut s, '.');
        assert(s@ =~= seq!['.']);
        return s;
    }
    let mut i: usize = 0;
    while i < cs.len()
        invariant
            i <= cs.len(),
            cs@ == path@,
            s@ =~= Seq::new(i as nat, |j: int| if cs@[j] == '\\' { '/' } else { cs@[j] }),
        decreases cs.len() - i,
    {
        if cs[i] == '\\' {
            push_char(&mut s, '/');
        } else {
            push_char(&mut s, cs[i]);
        }
        i += 1;
    }
    s
}

} // verus!
