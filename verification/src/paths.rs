//! The component model of paths.
//!
//! A path is a string of segments separated by `/`. Its components are those
//! of `std::path::Path` on Unix: a leading `/` is the root component `/`,
//! empty segments and `.` segments are dropped except that a leading `.`
//! segment stays, and every other segment (`..` included) is a component.
use vstd::prelude::*;
use crate::text::{chars_of, push_char, str_eq};

verus! {

/// The component that stands for the root of an absolute path.
pub open spec fn root_component() -> Seq<char> {
    seq!['/']
}

/// The `.` component.
pub open spec fn cur_component() -> Seq<char> {
    seq!['.']
}

/// The `..` component.
pub open spec fn parent_component() -> Seq<char> {
    seq!['.', '.']
}

/// What a finished segment adds to the components seen so far; `at_start`
/// holds for the first segment, `by_slash` when a `/` ends the segment.
pub open spec fn flush_segment(
    done: Seq<Seq<char>>,
    cur: Seq<char>,
    at_start: bool,
    by_slash: bool,
) -> Seq<Seq<char>> {
    if at_start {
        if cur.len() == 0 {
            if by_slash {
                done.push(root_component())
            } else {
                done
            }
        } else {
            done.push(cur)
        }
    } else if cur.len() == 0 || cur == cur_component() {
        done
    } else {
        done.push(cur)
    }
}

/// The state after reading `s`: finished components, the segment being read,
/// and whether no `/` was read yet.
pub open spec fn scan_path(s: Seq<char>) -> (Seq<Seq<char>>, Seq<char>, bool)
    decreases s.len(),
{
    if s.len() == 0 {
        (Seq::empty(), Seq::empty(), true)
    } else {
        let st = scan_path(s.drop_last());
        let c = s.last();
        if c == '/' {
            (flush_segment(st.0, st.1, st.2, true), Seq::empty(), false)
        } else {
            (st.0, st.1.push(c), st.2)
        }
    }
}

/// The components of the path `s`.
pub open spec fn components(s: Seq<char>) -> Seq<Seq<char>> {
    let st = scan_path(s);
    flush_segment(st.0, st.1, st.2, false)
}

/// The components of `s`, computed.
pub fn path_components(s: &Vec<char>) -> (r: Vec<String>)
    ensures
        r.deep_view() == components(s@),
{
    let mut done: Vec<String> = Vec::new();
    let mut cur = String::new();
    let mut at_start = true;
    let mut i: usize = 0;
    while i < s.len()
        invariant
            i <= s.len(),
            (done.deep_view(), cur@, at_start) == scan_path(s@.take(i as int)),
        decreases s.len() - i,
    {
        let c = s[i];
        assert(s@.take(i + 1).drop_last() =~= s@.take(i as int));
        if c == '/' {
            flush(&mut done, cur, at_start, true);
            cur = String::new();
            at_start = false;
        } else {
            push_char(&mut cur, c);
        }
        i += 1;
    }
    assert(s@.take(s.len() as int) =~= s@);
    flush(&mut done, cur, at_start, false);
    done
}

/// Whether `a` and `b` name the same path: they have the same components.
pub fn same_path(a: &str, b: &str) -> (r: bool)
    ensures
        r == (components(a@) == components(b@)),
{
    let ca = path_components(&chars_of(a));
    let cb = path_components(&chars_of(b));
    if ca.len() != cb.len() {
        assert(ca.deep_view().len() != cb.deep_view().len());
        return false;
    }
    let mut i: usize = 0;
    while i < ca.len()
        invariant
            i <= ca.len(),
            ca.len() == cb.len(),
            ca.deep_view() == components(a@),
            cb.deep_view() == components(b@),
            forall|j: int| 0 <= j < i ==> ca.deep_view()[j] == cb.deep_view()[j],
        decreases ca.len() - i,
    {
        if !str_eq(ca[i].as_str(), cb[i].as_str()) {
            assert(ca.deep_view()[i as int] != cb.deep_view()[i as int]);
            return false;
        }
        i += 1;
    }
    assert(ca.deep_view() =~= cb.deep_view());
    true
}

fn flush(done: &mut Vec<String>, cur: String, at_start: bool, by_slash: bool)
    ensures
        final(done).deep_view() == flush_segment(old(done).deep_view(), cur@, at_start, by_slash),
{
    let ghost before = done.deep_view();
    let n = cur.as_str().unicode_len();
    if at_start {
        if n == 0 {
            if by_slash {
                let mut r = String::new();
                push_char(&mut r, '/');
                done.push(r);
                assert(done.deep_view() =~= before.push(root_component()));
            }
        } else {
            done.push(cur);
            assert(done.deep_view() =~= before.push(cur@));
        }
    } else if n == 0 {
    } else if n == 1 && cur.as_str().get_char(0) == '.' {
        assert(cur@ =~= cur_component());
    } else {
        assert(cur@ != cur_component());
        done.push(cur);
        assert(done.deep_view() =~= before.push(cur@));
    }
}


/// The path string whose components, read one after another, are `cs`
/// (each joined to the previous ones as `PathBuf::push` does).
pub open spec fn join_components(cs: Seq<Seq<char>>) -> Seq<char>
    decreases cs.len(),
{
    if cs.len() == 0 {
        Seq::empty()
    } else {
        let p = join_components(cs.drop_last());
        if p.len() == 0 {
            cs.last()
        } else if p.last() == '/' {
            p + cs.last()
        } else {
            p + seq!['/'] + cs.last()
        }
    }
}

/// Renders a component list as a path string.
pub fn render_components(cs: &Vec<String>) -> (s: String)
    ensures
        s@ == join_components(cs.deep_view()),
{
    let mut s = String::new();
    let mut i: usize = 0;
    while i < cs.len()
        invariant
            i <= cs.len(),
            s@ == join_components(cs.deep_view().take(i as int)),
        decreases cs.len() - i,
    {
        assert(cs.deep_view().take(i + 1).drop_last() =~= cs.deep_view().take(i as int));
        let n = s.as_str().unicode_len();
        if n == 0 {
        } else if s.as_str().get_char(n - 1) == '/' {
        } else {
            push_char(&mut s, '/');
        }
        s.append(cs[i].as_str());
        i += 1;
    }
    assert(cs.deep_view().take(cs.len() as int) =~= cs.deep_view());
    s
}

/// The length of the longest common prefix of `a` and `b`.
pub open spec fn common_prefix_len<T>(a: Seq<T>, b: Seq<T>) -> nat
    decreases a.len(),
{
    if a.len() == 0 || b.len() == 0 || a[0] != b[0] {
        0
    } else {
        1 + common_prefix_len(a.drop_first(), b.drop_first())
    }
}

/// The common prefix length is the first index where the sequences differ.
pub proof fn lemma_common_prefix_len<T>(a: Seq<T>, b: Seq<T>, k: int)
    requires
        0 <= k <= a.len(),
        k <= b.len(),
        forall|j: int| 0 <= j < k ==> a[j] == b[j],
        k == a.len() || k == b.len() || a[k] != b[k],
    ensures
        common_prefix_len(a, b) == k,
    decreases k,
{
    if k > 0 {
        lemma_common_prefix_len(a.drop_first(), b.drop_first(), k - 1);
    }
}

/// `n` copies of the `..` component.
pub open spec fn parent_steps(n: nat) -> Seq<Seq<char>> {
    Seq::new(n, |i: int| parent_component())
}

/// The components of the relative path that leads from the directory
/// `from` to `to`: one `..` for each component of `from` past the longest
/// common prefix, then the rest of `to`.
pub open spec fn relative_components(from: Seq<Seq<char>>, to: Seq<Seq<char>>) -> Seq<Seq<char>> {
    let k = common_prefix_len(from, to);
    parent_steps((from.len() - k) as nat) + to.skip(k as int)
}

/// The text `..`.
pub fn parent_string() -> (s: String)
    ensures
        s@ == parent_component(),
{
    let mut s = String::new();
    push_char(&mut s, '.');
    push_char(&mut s, '.');
    assert(s@ =~= parent_component());
    s
}

/// The relative component list from the directory `from` to `to`.
pub fn relative_component_list(from: &Vec<String>, to: &Vec<String>) -> (r: Vec<String>)
    ensures
        r.deep_view() == relative_components(from.deep_view(), to.deep_view()),
{
    let ghost f = from.deep_view();
    let ghost t = to.deep_view();
    let mut k: usize = 0;
    while k < from.len() && k < to.len() && from[k] == to[k]
        invariant
            k <= from.len(),
            k <= to.len(),
            f == from.deep_view(),
            t == to.deep_view(),
            forall|j: int| 0 <= j < k ==> f[j] == t[j],
        decreases from.len() - k,
    {
        k += 1;
    }
    proof {
        lemma_common_prefix_len(f, t, k as int);
    }
    let mut r: Vec<String> = Vec::new();
    let mut i: usize = k;
    while i < from.len()
        invariant
            k <= i <= from.len(),
            r.deep_view() == parent_steps((i - k) as nat),
        decreases from.len() - i,
    {
        let ghost before = r.deep_view();
        let p = parent_string();
        r.push(p);
        assert(r.deep_view() =~= before.push(parent_component()));
        i += 1;
        assert(r.deep_view() =~= parent_steps((i - k) as nat));
    }
    let ghost steps = r.deep_view();
    let mut j: usize = k;
    while j < to.len()
        invariant
            k <= j <= to.len(),
            t == to.deep_view(),
            r.deep_view() == steps + t.subrange(k as int, j as int),
        decreases to.len() - j,
    {
        let ghost before = r.deep_view();
        r.push(to[j].clone());
        assert(r.deep_view() =~= before.push(t[j as int]));
        j += 1;
        assert(r.deep_view() =~= steps + t.subrange(k as int, j as int));
    }
    assert(t.subrange(k as int, to.len() as int) =~= t.skip(k as int));
    r
}

/// Whether `cs` has no `..` component.
pub open spec fn no_parent_steps(cs: Seq<Seq<char>>) -> bool {
    forall|i: int| 0 <= i < cs.len() ==> cs[i] != parent_component()
}

/// Reads `rel` from the directory `base`: `..` leaves the last directory,
/// every other component enters it.
pub open spec fn resolve_components(base: Seq<Seq<char>>, rel: Seq<Seq<char>>) -> Seq<Seq<char>>
    decreases rel.len(),
{
    if rel.len() == 0 {
        base
    } else {
        let next = if rel[0] == parent_component() {
            if base.len() == 0 { base } else { base.drop_last() }
        } else {
            base.push(rel[0])
        };
        resolve_components(next, rel.drop_first())
    }
}

proof fn lemma_resolve_steps(base: Seq<Seq<char>>, n: nat, rest: Seq<Seq<char>>)
    requires
        n <= base.len(),
    ensures
        resolve_components(base, parent_steps(n) + rest)
            == resolve_components(base.take(base.len() - n), rest),
    decreases n,
{
    if n == 0 {
        assert(parent_steps(0) + rest =~= rest);
        assert(base.take(base.len() as int) =~= base);
    } else {
        let rel = parent_steps(n) + rest;
        assert(rel[0] == parent_component());
        assert(rel.drop_first() =~= parent_steps((n - 1) as nat) + rest);
        lemma_resolve_steps(base.drop_last(), (n - 1) as nat, rest);
        assert(base.drop_last().take(base.drop_last().len() - (n - 1)) =~= base.take(
            base.len() - n,
        ));
    }
}

proof fn lemma_resolve_plain(base: Seq<Seq<char>>, rest: Seq<Seq<char>>)
    requires
        no_parent_steps(rest),
    ensures
        resolve_components(base, rest) == base + rest,
    decreases rest.len(),
{
    if rest.len() == 0 {
        assert(base + rest =~= base);
    } else {
        assert(no_parent_steps(rest.drop_first()));
        lemma_resolve_plain(base.push(rest[0]), rest.drop_first());
        assert(base.push(rest[0]) + rest.drop_first() =~= base + rest);
    }
}

/// Following the relative path from `from` to `to` out of the directory
/// `from` arrives at `to`, when neither path steps up with `..`.
pub proof fn lemma_relative_path_resolves(from: Seq<Seq<char>>, to: Seq<Seq<char>>)
    requires
        no_parent_steps(from),
        no_parent_steps(to),
    ensures
        resolve_components(from, relative_components(from, to)) == to,
{
    let k = common_prefix_len(from, to);
    lemma_common_prefix_bounds(from, to);
    lemma_resolve_steps(from, (from.len() - k) as nat, to.skip(k as int));
    assert(from.take(from.len() - (from.len() - k)) =~= to.take(k as int));
    assert forall|i: int| 0 <= i < to.skip(k as int).len() implies to.skip(k as int)[i]
        != parent_component() by {
        assert(to.skip(k as int)[i] == to[i + k]);
    }
    lemma_resolve_plain(to.take(k as int), to.skip(k as int));
    assert(to.take(k as int) + to.skip(k as int) =~= to);
}

/// The common prefix is no longer than either sequence.
pub proof fn lemma_common_prefix_bounds<T>(a: Seq<T>, b: Seq<T>)
    ensures
        common_prefix_len(a, b) <= a.len(),
        common_prefix_len(a, b) <= b.len(),
        forall|j: int| 0 <= j < common_prefix_len(a, b) ==> a[j] == b[j],
    decreases a.len(),
{
    if !(a.len() == 0 || b.len() == 0 || a[0] != b[0]) {
        lemma_common_prefix_bounds(a.drop_first(), b.drop_first());
        assert forall|j: int| 0 <= j < common_prefix_len(a, b) implies a[j] == b[j] by {
            if j > 0 {
                assert(a[j] == a.drop_first()[j - 1]);
                assert(b[j] == b.drop_first()[j - 1]);
            }
        }
    }
}


/// The parent of a path: its components but the last, joined; `None` for a
/// path with no components or only the root (as `Path::parent`).
pub open spec fn parent_path(s: Seq<char>) -> Option<Seq<char>> {
    let cs = components(s);
    if cs.len() == 0 || (cs.len() == 1 && cs[0] == root_component()) {
        None
    } else {
        Some(join_components(cs.drop_last()))
    }
}

/// `PathBuf::join` on path strings: an absolute `rel` replaces `base`,
/// otherwise `rel` is appended after a separator.
pub open spec fn path_join(base: Seq<char>, rel: Seq<char>) -> Seq<char> {
    if rel.len() > 0 && rel[0] == '/' {
        rel
    } else if base.len() == 0 {
        rel
    } else if base.last() == '/' {
        base + rel
    } else {
        base + seq!['/'] + rel
    }
}

/// Joins two path strings as `PathBuf::join` does.
pub fn join_path(base: &str, rel: &str) -> (r: String)
    ensures
        r@ == path_join(base@, rel@),
{
    let b = chars_of(base);
    let r = chars_of(rel);
    if r.len() > 0 && r[0] == '/' {
        return crate::text::string_of(&r);
    }
    let mut out = crate::text::string_of(&b);
    if b.len() > 0 && b[b.len() - 1] != '/' {
        push_char(&mut out, '/');
    }
    out.append(rel);
    out
}

/// The parent path of `s`, if it has one.
pub fn parent_of(s: &str) -> (r: Option<String>)
    ensures
        match r {
            Some(p) => parent_path(s@) == Some(p@),
            None => parent_path(s@) is None,
        },
{
    let v = chars_of(s);
    let mut cs = path_components(&v);
    let n = cs.len();
    if n == 0 {
        return None;
    }
    if n == 1 && is_root(&cs[0]) {
        assert(cs.deep_view()[0] == root_component());
        return None;
    }
    proof {
        if n == 1 {
            assert(cs.deep_view()[0] != root_component());
        }
    }
    let ghost before = cs.deep_view();
    cs.pop();
    assert(cs.deep_view() =~= before.drop_last());
    Some(render_components(&cs))
}

/// Whether the component `c` is the root `/`.
pub fn is_root(c: &String) -> (r: bool)
    ensures
        r == (c@ == root_component()),
{
    let n = c.as_str().unicode_len();
    let r = n == 1 && c.as_str().get_char(0) == '/';
    if r {
        assert(c@ =~= root_component());
    }
    r
}

/// Whether the component `c` is `.` or `..`.
pub fn is_dot_or_dotdot(c: &String) -> (r: (bool, bool))
    ensures
        r.0 == (c@ == cur_component()),
        r.1 == (c@ == parent_component()),
{
    let n = c.as_str().unicode_len();
    let dot = n == 1 && c.as_str().get_char(0) == '.';
    let dotdot = n == 2 && c.as_str().get_char(0) == '.' && c.as_str().get_char(1) == '.';
    if dot {
        assert(c@ =~= cur_component());
    }
    if dotdot {
        assert(c@ =~= parent_component());
    }
    (dot, dotdot)
}

/// Whether a component is a plain name (not the root, `.` or `..`).
pub open spec fn is_normal_component(c: Seq<char>) -> bool {
    c != root_component() && c != cur_component() && c != parent_component()
}

/// The components of `cs` that are names or `..`: the root and `.` dropped.
pub open spec fn drop_markers(cs: Seq<Seq<char>>) -> Seq<Seq<char>>
    decreases cs.len(),
{
    if cs.len() == 0 {
        cs
    } else {
        let rest = drop_markers(cs.drop_last());
        if cs.last() == root_component() || cs.last() == cur_component() {
            rest
        } else {
            rest.push(cs.last())
        }
    }
}

/// The components of `s` without root and `.` markers.
pub fn normalized_components(s: &str) -> (r: Vec<String>)
    ensures
        r.deep_view() == drop_markers(components(s@)),
{
    let v = chars_of(s);
    let cs = path_components(&v);
    let ghost all = cs.deep_view();
    let mut r: Vec<String> = Vec::new();
    let mut i: usize = 0;
    while i < cs.len()
        invariant
            i <= cs.len(),
            all == cs.deep_view(),
            r.deep_view() == drop_markers(all.take(i as int)),
        decreases cs.len() - i,
    {
        assert(all.take(i + 1).drop_last() =~= all.take(i as int));
        let (dot, _) = is_dot_or_dotdot(&cs[i]);
        if !is_root(&cs[i]) && !dot {
            let ghost before = r.deep_view();
            r.push(cs[i].clone());
            assert(r.deep_view() =~= before.push(all[i as int]));
        }
        i += 1;
    }
    assert(all.take(cs.len() as int) =~= all);
    r
}

/// The index of the last `.` in `name`, if any.
pub open spec fn last_dot(name: Seq<char>) -> Option<int>
    decreases name.len(),
{
    if name.len() == 0 {
        None
    } else if name.last() == '.' {
        Some(name.len() - 1)
    } else {
        last_dot(name.drop_last())
    }
}

/// The file stem of a file name: the name up to its last `.`, unless that
/// `.` is the first character (`Path::file_stem`).
pub open spec fn file_stem_of(name: Seq<char>) -> Seq<char> {
    match last_dot(name) {
        Some(p) => if p > 0 { name.take(p) } else { name },
        None => name,
    }
}

/// The extension of a file name (`Path::extension`).
pub open spec fn extension_of(name: Seq<char>) -> Option<Seq<char>> {
    match last_dot(name) {
        Some(p) => if p > 0 { Some(name.skip(p + 1)) } else { None },
        None => None,
    }
}

/// The file name of a path: its last component when that is a name.
pub open spec fn file_name_of(s: Seq<char>) -> Option<Seq<char>> {
    let cs = components(s);
    if cs.len() > 0 && is_normal_component(cs.last()) {
        Some(cs.last())
    } else {
        None
    }
}

/// The last component of `s` when it is a name (`Path::file_name`).
pub fn file_name(s: &str) -> (r: Option<String>)
    ensures
        match r {
            Some(n) => file_name_of(s@) == Some(n@),
            None => file_name_of(s@) is None,
        },
{
    let cs = path_components(&chars_of(s));
    let n = cs.len();
    if n == 0 {
        return None;
    }
    let (dot, dotdot) = is_dot_or_dotdot(&cs[n - 1]);
    if is_root(&cs[n - 1]) || dot || dotdot {
        return None;
    }
    assert(cs.deep_view().last() == cs@[n - 1]@);
    Some(cs[n - 1].clone())
}

/// A file name with its extension replaced by `ext` (removed when `ext` is
/// empty), as `Path::set_extension` does.
pub open spec fn with_extension_name(name: Seq<char>, ext: Seq<char>) -> Seq<char> {
    if ext.len() == 0 {
        file_stem_of(name)
    } else {
        file_stem_of(name) + seq!['.'] + ext
    }
}

/// The path `s` with the extension of its file name replaced by `ext`; a
/// path without a file name keeps its components.
pub open spec fn with_extension_path(s: Seq<char>, ext: Seq<char>) -> Seq<char> {
    let cs = components(s);
    if cs.len() > 0 && is_normal_component(cs.last()) {
        join_components(cs.drop_last().push(with_extension_name(cs.last(), ext)))
    } else {
        join_components(cs)
    }
}

proof fn lemma_last_dot(name: Seq<char>, k: int)
    requires
        -1 <= k < name.len(),
        k >= 0 ==> name[k] == '.',
        forall|j: int| k < j < name.len() ==> name[j] != '.',
    ensures
        last_dot(name) == (if k >= 0 { Some(k) } else { None::<int> }),
    decreases name.len(),
{
    if name.len() > 0 && name.last() != '.' {
        lemma_last_dot(name.drop_last(), k);
    }
}

/// The last `.` of `name`, computed.
pub fn find_last_dot(name: &Vec<char>) -> (r: Option<usize>)
    ensures
        match r {
            Some(p) => last_dot(name@) == Some(p as int) && p < name.len(),
            None => last_dot(name@) is None,
        },
{
    let mut j: usize = name.len();
    while j > 0 && name[j - 1] != '.'
        invariant
            j <= name.len(),
            forall|k: int| j <= k < name.len() ==> name@[k] != '.',
        decreases j,
    {
        j -= 1;
    }
    proof {
        lemma_last_dot(name@, j - 1);
    }
    if j == 0 {
        None
    } else {
        Some(j - 1)
    }
}

/// The file stem of a file name, computed.
pub fn file_stem_chars(name: &Vec<char>) -> (r: Vec<char>)
    ensures
        r@ == file_stem_of(name@),
{
    match find_last_dot(name) {
        Some(p) => {
            if p > 0 {
                crate::text::slice_chars(name, 0, p)
            } else {
                crate::text::slice_chars(name, 0, name.len())
            }
        },
        None => crate::text::slice_chars(name, 0, name.len()),
    }
}

/// The extension of a file name, computed.
pub fn extension_chars(name: &Vec<char>) -> (r: Option<Vec<char>>)
    ensures
        match r {
            Some(e) => extension_of(name@) == Some(e@),
            None => extension_of(name@) is None,
        },
{
    match find_last_dot(name) {
        Some(p) => {
            if p > 0 {
                let e = crate::text::slice_chars(name, p + 1, name.len());
                assert(e@ =~= name@.skip(p + 1));
                Some(e)
            } else {
                None
            }
        },
        None => None,
    }
}

/// `s` with the extension of its file name replaced by `ext`.
pub fn with_extension(s: &str, ext: &str) -> (r: String)
    ensures
        r@ == with_extension_path(s@, ext@),
{
    let v = chars_of(s);
    let mut cs = path_components(&v);
    let n = cs.len();
    if n > 0 {
        let (dot, dotdot) = is_dot_or_dotdot(&cs[n - 1]);
        if !is_root(&cs[n - 1]) && !dot && !dotdot {
            let ghost before = cs.deep_view();
            let name = chars_of(cs[n - 1].as_str());
            let stem = file_stem_chars(&name);
            let mut renamed = crate::text::string_of(&stem);
            let e = chars_of(ext);
            if e.len() > 0 {
                push_char(&mut renamed, '.');
                renamed.append(ext);
            }
            assert(name@ == before[n - 1]);
            assert(e@ == ext@);
            assert(renamed@ =~= with_extension_name(name@, ext@));
            cs.pop();
            cs.push(renamed);
            assert(cs.deep_view() =~= before.drop_last().push(with_extension_name(before.last(), ext@)));
            return render_components(&cs);
        }
    }
    render_components(&cs)
}

/// The components of `path` after the components of `base`, when `base`'s
/// components are a prefix of them (`Path::strip_prefix`).
pub open spec fn strip_prefix_components(path: Seq<Seq<char>>, base: Seq<Seq<char>>) -> Option<
    Seq<Seq<char>>,
> {
    if base.len() <= path.len() && path.take(base.len() as int) == base {
        Some(path.skip(base.len() as int))
    } else {
        None
    }
}

/// `path` relative to `base`, when `base` is one of its ancestors.
pub fn strip_prefix(path: &str, base: &str) -> (r: Option<String>)
    ensures
        match r {
            Some(rest) => match strip_prefix_components(components(path@), components(base@)) {
                Some(cs) => rest@ == join_components(cs),
                None => false,
            },
            None => strip_prefix_components(components(path@), components(base@)) is None,
        },
{
    let pv = chars_of(path);
    let bv = chars_of(base);
    let pc = path_components(&pv);
    let bc = path_components(&bv);
    let ghost p = pc.deep_view();
    let ghost b = bc.deep_view();
    if bc.len() > pc.len() {
        return None;
    }
    let mut k: usize = 0;
    while k < bc.len()
        invariant
            k <= bc.len() <= pc.len(),
            p == pc.deep_view(),
            b == bc.deep_view(),
            p == components(path@),
            b == components(base@),
            forall|j: int| 0 <= j < k ==> p[j] == b[j],
        decreases bc.len() - k,
    {
        if pc[k] != bc[k] {
            proof {
                assert(p[k as int] == pc@[k as int]@);
                assert(b[k as int] == bc@[k as int]@);
                assert(p[k as int] != b[k as int]);
                assert(p.take(b.len() as int)[k as int] != b[k as int]);
                assert(p.take(b.len() as int) != b);
                assert(strip_prefix_components(components(path@), components(base@)) is None);
            }
            return None;
        }
        k += 1;
    }
    assert(p.take(b.len() as int) =~= b);
    let mut rest: Vec<String> = Vec::new();
    let mut j: usize = bc.len();
    while j < pc.len()
        invariant
            bc.len() <= j <= pc.len(),
            p == pc.deep_view(),
            rest.deep_view() == p.subrange(bc.len() as int, j as int),
        decreases pc.len() - j,
    {
        let ghost before = rest.deep_view();
        rest.push(pc[j].clone());
        assert(rest.deep_view() =~= before.push(p[j as int]));
        j += 1;
        assert(rest.deep_view() =~= p.subrange(bc.len() as int, j as int));
    }
    assert(p.subrange(bc.len() as int, pc.len() as int) =~= p.skip(bc.len() as int));
    Some(render_components(&rest))
}

/// Whether `s` is absolute (starts with `/`).
pub fn is_absolute(s: &str) -> (r: bool)
    ensures
        r == (s@.len() > 0 && s@[0] == '/'),
{
    let n = s.unicode_len();
    n > 0 && s.get_char(0) == '/'
}

/// A name that a path holds between separators: not empty, without `/`,
/// and not `.`.
pub open spec fn plain_name(c: Seq<char>) -> bool {
    c.len() > 0 && !c.contains('/') && c != cur_component()
}

/// Every component of the list is a plain name.
pub open spec fn plain_names(cs: Seq<Seq<char>>) -> bool {
    forall|i: int| 0 <= i < cs.len() ==> plain_name(#[trigger] cs[i])
}

proof fn lemma_scan_append_name(s: Seq<char>, c: Seq<char>)
    requires
        !c.contains('/'),
    ensures
        scan_path(s + c) == (scan_path(s).0, scan_path(s).1 + c, scan_path(s).2),
    decreases c.len(),
{
    if c.len() == 0 {
        assert(s + c =~= s);
        assert(scan_path(s).1 + c =~= scan_path(s).1);
    } else {
        let d = c.drop_last();
        assert(!d.contains('/')) by {
            if d.contains('/') {
                let k = choose|k: int| 0 <= k < d.len() && d[k] == '/';
                assert(c[k] == '/');
            }
        }
        lemma_scan_append_name(s, d);
        assert((s + c).drop_last() =~= s + d);
        assert((s + c).last() == c.last());
        assert(c.last() != '/') by {
            assert(c[c.len() - 1] == c.last());
        }
        assert((scan_path(s).1 + d).push(c.last()) =~= scan_path(s).1 + c);
    }
}

proof fn lemma_scan_join(cs: Seq<Seq<char>>)
    requires
        cs.len() >= 1,
        plain_names(cs),
    ensures
        scan_path(join_components(cs)) == (cs.drop_last(), cs.last(), cs.len() == 1),
        join_components(cs).len() > 0,
        join_components(cs).last() != '/',
    decreases cs.len(),
{
    let c = cs.last();
    assert(plain_name(cs[cs.len() - 1]));
    assert(c.last() != '/') by {
        assert(c[c.len() - 1] == c.last());
    }
    if cs.len() == 1 {
        assert(cs.drop_last() =~= Seq::<Seq<char>>::empty());
        assert(join_components(cs.drop_last()) =~= Seq::<char>::empty());
        lemma_scan_append_name(Seq::empty(), c);
        assert(Seq::<char>::empty() + c =~= c);
        assert(Seq::<char>::empty() + c =~= c);
    } else {
        let rest = cs.drop_last();
        assert(plain_names(rest)) by {
            assert forall|i: int| 0 <= i < rest.len() implies plain_name(#[trigger] rest[i]) by {
                assert(rest[i] == cs[i]);
            }
        }
        lemma_scan_join(rest);
        let p = join_components(rest);
        let ps = p.push('/');
        assert(ps.drop_last() =~= p);
        assert(plain_name(rest[rest.len() - 1]));
        assert(scan_path(ps) == (rest, Seq::<char>::empty(), false)) by {
            assert(rest.drop_last().push(rest.last()) =~= rest);
        }
        lemma_scan_append_name(ps, c);
        assert(ps + c =~= p + seq!['/'] + c);
        assert(Seq::<char>::empty() + c =~= c);
        assert((p + seq!['/'] + c).last() == c.last());
    }
}

/// Reading the path written from plain names gives the names back.
pub proof fn lemma_components_of_join(cs: Seq<Seq<char>>)
    requires
        plain_names(cs),
    ensures
        components(join_components(cs)) == cs,
{
    if cs.len() == 0 {
        assert(components(Seq::<char>::empty()) =~= Seq::<Seq<char>>::empty());
    } else {
        lemma_scan_join(cs);
        assert(plain_name(cs[cs.len() - 1]));
        assert(cs.drop_last().push(cs.last()) =~= cs);
    }
}

proof fn lemma_scan_parts(s: Seq<char>)
    ensures
        forall|i: int|
            0 <= i < scan_path(s).0.len() ==> plain_name(#[trigger] scan_path(s).0[i]) || (i == 0 && (
            scan_path(s).0[i] == root_component() || scan_path(s).0[i] == cur_component())),
        !scan_path(s).1.contains('/'),
        scan_path(s).2 ==> scan_path(s).0.len() == 0,
    decreases s.len(),
{
    if s.len() > 0 {
        lemma_scan_parts(s.drop_last());
        let st = scan_path(s.drop_last());
        let c = s.last();
        if c != '/' {
            assert(!st.1.push(c).contains('/')) by {
                if st.1.push(c).contains('/') {
                    let k = choose|k: int| 0 <= k < st.1.push(c).len() && st.1.push(c)[k] == '/';
                    if k < st.1.len() {
                        assert(st.1[k] == '/');
                    }
                }
            }
        }
    }
}

/// Every component of a path is a plain name, except that the first may be
/// the root or `.`.
pub proof fn lemma_component_parts(s: Seq<char>)
    ensures
        forall|i: int|
            0 <= i < components(s).len() ==> plain_name(#[trigger] components(s)[i]) || (i == 0 && (
            components(s)[i] == root_component() || components(s)[i] == cur_component())),
{
    lemma_scan_parts(s);
}

proof fn lemma_drop_markers_plain(cs: Seq<Seq<char>>)
    requires
        forall|i: int|
            0 <= i < cs.len() ==> plain_name(#[trigger] cs[i]) || cs[i] == root_component() || cs[i]
                == cur_component(),
    ensures
        plain_names(drop_markers(cs)),
    decreases cs.len(),
{
    if cs.len() > 0 {
        let rest = cs.drop_last();
        assert forall|i: int| 0 <= i < rest.len() implies plain_name(#[trigger] rest[i]) || rest[i]
            == root_component() || rest[i] == cur_component() by {
            assert(rest[i] == cs[i]);
        }
        lemma_drop_markers_plain(rest);
        assert(plain_name(cs[cs.len() - 1]) || cs[cs.len() - 1] == root_component() || cs[cs.len() - 1]
            == cur_component());
    }
}

/// The components of a path without root and `.` markers are plain names.
pub proof fn lemma_path_names_plain(s: Seq<char>)
    ensures
        plain_names(drop_markers(components(s))),
{
    lemma_component_parts(s);
    lemma_drop_markers_plain(components(s));
}

} // verus!
