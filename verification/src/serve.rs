//! Serving a built site: which file a request asks for, how it is
//! answered, and which source paths are watched for changes.
use vstd::prelude::*;
use crate::numbers::{decimal, format_decimal};
use crate::paths::{components, extension_of, file_name_of, is_absolute, join_path, path_components, path_join};
use crate::text::{chars_of, copy_string, lines_of, push_char, split_lines, str_eq, string_from, string_of};

verus! {

/// Why serving failed.
#[derive(Debug, Clone, PartialEq, Eq)]
pub enum ServeSiteError {
    /// Building the site failed.
    Build { message: String },
    /// The address could not be bound.
    Bind { bind_addr: String, message: String },
    /// Reading or writing failed.
    Io { path: String, message: String },
    /// A connection could not be accepted.
    Accept { message: String },
}

/// How the development server is started.
#[derive(Debug, Clone, PartialEq, Eq)]
pub struct ServeOptions {
    pub config_path: String,
    pub dest_dir: Option<String>,
    pub hostname: String,
    pub port: Option<u16>,
}

/// The part of a request target before its first `?`.
pub open spec fn before_query(p: Seq<char>) -> Seq<char>
    decreases p.len(),
{
    if p.len() == 0 {
        p
    } else if before_query(p.drop_last()).len() < p.len() - 1 {
        before_query(p.drop_last())
    } else if p.last() == '?' {
        p.drop_last()
    } else {
        p
    }
}

/// The `/`-separated segments of `s` (one more than its `/`s).
pub open spec fn segments(s: Seq<char>) -> Seq<Seq<char>>
    decreases s.len(),
{
    if s.len() == 0 {
        seq![Seq::empty()]
    } else {
        let st = segments(s.drop_last());
        if s.last() == '/' {
            st.push(Seq::empty())
        } else {
            st.drop_last().push(st.last().push(s.last()))
        }
    }
}

/// `p` without its leading `/`s.
pub open spec fn strip_slashes(p: Seq<char>) -> Seq<char>
    decreases p.len(),
{
    if p.len() > 0 && p[0] == '/' {
        strip_slashes(p.skip(1))
    } else {
        p
    }
}

/// The output file a request target asks for, relative to the site: the
/// index for `/`; none for a target that is not absolute, names a
/// directory, or has an empty or `..` segment.
pub open spec fn request_output_path(target: Seq<char>) -> Option<Seq<char>> {
    let path = before_query(target);
    if path == seq!['/'] {
        Some("index.html"@)
    } else if !(path.len() > 0 && path[0] == '/') {
        None
    } else {
        let relative = strip_slashes(path);
        if relative.len() == 0 || relative.last() == '/' {
            None
        } else if exists|i: int|
            0 <= i < segments(relative).len() && (#[trigger] segments(relative)[i] == seq!['.', '.']
                || segments(relative)[i].len() == 0) {
            None
        } else {
            Some(relative)
        }
    }
}

proof fn lemma_before_query(p: Seq<char>)
    ensures
        before_query(p).len() <= p.len(),
        before_query(p) == p.take(before_query(p).len() as int),
        forall|i: int| 0 <= i < before_query(p).len() ==> p[i] != '?',
        before_query(p).len() < p.len() ==> p[before_query(p).len() as int] == '?',
    decreases p.len(),
{
    if p.len() > 0 {
        lemma_before_query(p.drop_last());
        let q = before_query(p.drop_last());
        if q.len() < p.len() - 1 {
            assert(q == p.take(q.len() as int)) by {
                assert(p.drop_last().take(q.len() as int) =~= p.take(q.len() as int));
            }
        } else if p.last() == '?' {
            assert(p.drop_last() =~= p.take(p.len() - 1));
        } else {
            assert(p =~= p.take(p.len() as int));
            assert forall|i: int| 0 <= i < p.len() implies p[i] != '?' by {
                if i < p.len() - 1 {
                    assert(p.drop_last()[i] == p[i]);
                }
            }
        }
    }
}

fn query_end(cs: &Vec<char>) -> (r: usize)
    ensures
        r as int == before_query(cs@).len(),
{
    let mut i: usize = 0;
    while i < cs.len() && cs[i] != '?'
        invariant
            i <= cs.len(),
            forall|j: int| 0 <= j < i ==> cs@[j] != '?',
        decreases cs.len() - i,
    {
        i += 1;
    }
    proof {
        lemma_before_query(cs@);
        let n = before_query(cs@).len();
        if n < i {
            assert(cs@[n as int] == '?');
        }
        if i < n {
            assert(cs@[i as int] == '?');
        }
    }
    i
}

proof fn lemma_strip_slashes(p: Seq<char>)
    ensures
        strip_slashes(p).len() <= p.len(),
        strip_slashes(p) == p.skip(p.len() - strip_slashes(p).len()),
        forall|i: int| 0 <= i < p.len() - strip_slashes(p).len() ==> p[i] == '/',
        strip_slashes(p).len() > 0 ==> strip_slashes(p)[0] != '/',
    decreases p.len(),
{
    if p.len() > 0 && p[0] == '/' {
        lemma_strip_slashes(p.skip(1));
        let q = strip_slashes(p.skip(1));
        assert(p.skip(1).skip(p.skip(1).len() - q.len()) =~= p.skip(p.len() - q.len()));
        assert forall|i: int| 0 <= i < p.len() - q.len() implies p[i] == '/' by {
            if i > 0 {
                assert(p.skip(1)[i - 1] == p[i]);
            }
        }
    } else {
        assert(p.skip(0) =~= p);
    }
}

/// Whether some `/`-separated segment of `s` is empty or `..`.
fn has_bad_segment(s: &Vec<char>) -> (r: bool)
    ensures
        r == exists|i: int|
            0 <= i < segments(s@).len() && (#[trigger] segments(s@)[i] == seq!['.', '.'] || segments(s@)[i].len()
                == 0),
{
    let mut done: Vec<String> = Vec::new();
    let mut cur = String::new();
    let mut i: usize = 0;
    assert(s@.take(0) =~= Seq::<char>::empty());
    assert(done.deep_view().push(cur@) =~= seq![Seq::<char>::empty()]);
    while i < s.len()
        invariant
            i <= s.len(),
            done.deep_view().push(cur@) == segments(s@.take(i as int)),
        decreases s.len() - i,
    {
        assert(s@.take(i + 1).drop_last() =~= s@.take(i as int));
        let ghost before = done.deep_view().push(cur@);
        let ghost done_before = done.deep_view();
        if s[i] == '/' {
            let c = cur;
            cur = String::new();
            done.push(c);
            assert(done.deep_view() =~= done_before.push(c@));
            assert(done.deep_view().push(cur@) =~= before.push(Seq::empty()));
        } else {
            push_char(&mut cur, s[i]);
            assert(done.deep_view().push(cur@) =~= before.drop_last().push(before.last().push(s@[i as int])));
        }
        i += 1;
    }
    assert(s@.take(s.len() as int) =~= s@);
    let ghost last_done = done.deep_view();
    let ghost last_cur = cur@;
    done.push(cur);
    let ghost segs = done.deep_view();
    assert(segs =~= last_done.push(last_cur));
    assert(segs == segments(s@));
    let mut k: usize = 0;
    while k < done.len()
        invariant
            k <= done.len(),
            segs == done.deep_view(),
            segs == segments(s@),
            forall|j: int| 0 <= j < k ==> !(#[trigger] segs[j] == seq!['.', '.'] || segs[j].len() == 0),
        decreases done.len() - k,
    {
        let seg = &done[k];
        assert(segs[k as int] == seg@);
        let n = seg.as_str().unicode_len();
        if n == 0 || (n == 2 && seg.as_str().get_char(0) == '.' && seg.as_str().get_char(1) == '.') {
            if n == 2 {
                assert(seg@ =~= seq!['.', '.']);
            }
            assert(segments(s@)[k as int] == seq!['.', '.'] || segments(s@)[k as int].len() == 0);
            return true;
        }
        assert(seg@ != seq!['.', '.']);
        k += 1;
    }
    false
}

/// The output file that a request target asks for, relative to the site.
pub fn map_request_to_output_path(path: &str) -> (r: Option<String>)
    ensures
        match request_output_path(path@) {
            Some(p) => r matches Some(s) && s@ == p,
            None => r is None,
        },
{
    let cs = chars_of(path);
    let end = query_end(&cs);
    proof {
        lemma_before_query(cs@);
    }
    let p = crate::text::slice_chars(&cs, 0, end);
    assert(p@ =~= before_query(path@));
    if p.len() == 1 && p[0] == '/' {
        assert(p@ =~= seq!['/']);
        return Some(string_from("index.html"));
    }
    if !(p.len() > 0 && p[0] == '/') {
        assert(p@ != seq!['/']);
        return None;
    }
    assert(p@ != seq!['/']);
    let mut start: usize = 0;
    while start < p.len() && p[start] == '/'
        invariant
            start <= p.len(),
            forall|j: int| 0 <= j < start ==> p@[j] == '/',
        decreases p.len() - start,
    {
        start += 1;
    }
    let relative = crate::text::slice_chars(&p, start, p.len());
    proof {
        lemma_strip_slashes(p@);
        let q = strip_slashes(p@);
        let n = p@.len() - q.len();
        if n < start {
            assert(q[0] == p@[n]);
            assert(p@[n] == '/');
        }
        if start < n {
            assert(p@[start as int] == '/');
        }
        assert(relative@ =~= strip_slashes(p@));
    }
    if relative.len() == 0 || relative[relative.len() - 1] == '/' {
        return None;
    }
    if has_bad_segment(&relative) {
        return None;
    }
    Some(string_of(&relative))
}

/// The content type of a served file, by its extension.
pub open spec fn content_type_of(path: Seq<char>) -> Seq<char> {
    match file_name_of(path) {
        Some(name) => match extension_of(name) {
            Some(ext) => if ext == "html"@ {
                "text/html; charset=utf-8"@
            } else if ext == "json"@ {
                "application/json; charset=utf-8"@
            } else {
                "application/octet-stream"@
            },
            None => "application/octet-stream"@,
        },
        None => "application/octet-stream"@,
    }
}

/// The content type of a served file.
pub fn content_type(path: &str) -> (r: String)
    ensures
        r@ == content_type_of(path@),
{
    let cs = path_components(&chars_of(path));
    let n = cs.len();
    if n > 0 {
        let (dot, dotdot) = crate::paths::is_dot_or_dotdot(&cs[n - 1]);
        if !crate::paths::is_root(&cs[n - 1]) && !dot && !dotdot {
            assert(cs.deep_view().last() == cs@[n - 1]@);
            let name = chars_of(cs[n - 1].as_str());
            match crate::paths::extension_chars(&name) {
                Some(ext) => {
                    let e = string_of(&ext);
                    if str_eq(e.as_str(), "html") {
                        return string_from("text/html; charset=utf-8");
                    } else if str_eq(e.as_str(), "json") {
                        return string_from("application/json; charset=utf-8");
                    }
                    return string_from("application/octet-stream");
                },
                None => {
                    return string_from("application/octet-stream");
                },
            }
        }
    }
    string_from("application/octet-stream")
}

/// The reason phrase of a status code.
pub open spec fn status_text_of(status: u16) -> Seq<char> {
    if status == 200 {
        "OK"@
    } else if status == 404 {
        "Not Found"@
    } else if status == 405 {
        "Method Not Allowed"@
    } else {
        "Internal Server Error"@
    }
}

/// The head of an HTTP response: status line and headers.
pub open spec fn response_head_of(status: u16, content_type: Seq<char>, length: usize) -> Seq<char> {
    "HTTP/1.1 "@ + decimal(status as nat) + " "@ + status_text_of(status) + "\r\nContent-Length: "@
        + decimal(length as nat) + "\r\nContent-Type: "@ + content_type + "\r\nConnection: close\r\n\r\n"@
}

/// The head of an HTTP response with a body of `length` bytes.
pub fn response_head(status: u16, content_type: &str, length: usize) -> (r: String)
    ensures
        r@ == response_head_of(status, content_type@, length),
{
    let text = if status == 200 {
        "OK"
    } else if status == 404 {
        "Not Found"
    } else if status == 405 {
        "Method Not Allowed"
    } else {
        "Internal Server Error"
    };
    let mut r = string_from("HTTP/1.1 ");
    r.append(format_decimal(status as usize).as_str());
    r.append(" ");
    r.append(text);
    r.append("\r\nContent-Length: ");
    r.append(format_decimal(length).as_str());
    r.append("\r\nContent-Type: ");
    r.append(content_type);
    r.append("\r\nConnection: close\r\n\r\n");
    r
}

/// What the server does with a request.
#[derive(Debug, Clone, PartialEq, Eq)]
pub enum RequestAction {
    /// The method is not `GET`: answer 405.
    MethodNotAllowed,
    /// No file is asked for: answer 404.
    NotFound,
    /// Serve this file of the site, relative to the output directory, if
    /// it is a file; answer 404 otherwise.
    ServeFile { rel_path: String },
}

/// The words of a line, split at whitespace.
pub open spec fn words(line: Seq<char>) -> Seq<Seq<char>>
    decreases line.len(),
{
    if line.len() == 0 {
        Seq::empty()
    } else {
        let ws = words(line.drop_last());
        let c = line.last();
        if crate::text::is_white(c) {
            ws
        } else if line.len() >= 2 && !crate::text::is_white(line[line.len() - 2]) && ws.len() > 0 {
            ws.drop_last().push(ws.last().push(c))
        } else {
            ws.push(seq![c])
        }
    }
}

/// What a request asks for: from its first line, the method (first word)
/// and the target (second word, `/` when missing).
pub open spec fn request_action_of(request: Seq<char>) -> RequestActionView {
    let ls = lines_of(request);
    let first = if ls.len() > 0 {
        ls[0]
    } else {
        Seq::empty()
    };
    let ws = words(first);
    let method = if ws.len() > 0 {
        ws[0]
    } else {
        Seq::empty()
    };
    let target = if ws.len() > 1 {
        ws[1]
    } else {
        seq!['/']
    };
    if method != "GET"@ {
        RequestActionView::MethodNotAllowed
    } else {
        match request_output_path(target) {
            None => RequestActionView::NotFound,
            Some(p) => RequestActionView::ServeFile { rel_path: p },
        }
    }
}

/// A request action as plain values.
pub enum RequestActionView {
    MethodNotAllowed,
    NotFound,
    ServeFile { rel_path: Seq<char> },
}

impl View for RequestAction {
    type V = RequestActionView;

    open spec fn view(&self) -> RequestActionView {
        match self {
            RequestAction::MethodNotAllowed => RequestActionView::MethodNotAllowed,
            RequestAction::NotFound => RequestActionView::NotFound,
            RequestAction::ServeFile { rel_path } => RequestActionView::ServeFile { rel_path: rel_path@ },
        }
    }
}

fn first_words(line: &Vec<char>) -> (r: Vec<String>)
    ensures
        r.deep_view() == words(line@),
{
    let mut ws: Vec<String> = Vec::new();
    let mut i: usize = 0;
    assert(line@.take(0) =~= Seq::<char>::empty());
    while i < line.len()
        invariant
            i <= line.len(),
            ws.deep_view() == words(line@.take(i as int)),
        decreases line.len() - i,
    {
        let ghost pre = line@.take(i as int);
        let ghost now = line@.take(i + 1);
        assert(now.drop_last() =~= pre);
        let c = line[i];
        let ghost before = ws.deep_view();
        if crate::text::is_whitespace(c) {
        } else if i >= 1 && !crate::text::is_whitespace(line[i - 1]) && ws.len() > 0 {
            assert(now[now.len() - 2] == line@[i - 1]);
            let mut last = ws.pop().unwrap();
            push_char(&mut last, c);
            ws.push(last);
            assert(ws.deep_view() =~= before.drop_last().push(before.last().push(c)));
        } else {
            let mut w = String::new();
            push_char(&mut w, c);
            ws.push(w);
            assert(ws.deep_view() =~= before.push(seq![c]));
        }
        i += 1;
    }
    assert(line@.take(line.len() as int) =~= line@);
    ws
}

/// Decides how to answer a request from its text.
pub fn request_action(request: &str) -> (r: RequestAction)
    ensures
        r@ == request_action_of(request@),
{
    let lines = split_lines(&chars_of(request));
    let ghost ls = lines_of(request@);
    let first: Vec<char> = if lines.len() > 0 {
        assert(lines.deep_view()[0] == lines@[0]@);
        let f = crate::text::slice_chars(&lines[0], 0, lines[0].len());
        assert(f@ =~= ls[0]);
        f
    } else {
        Vec::new()
    };
    assert(first@ == (if ls.len() > 0 {
        ls[0]
    } else {
        Seq::<char>::empty()
    }));
    let ws = first_words(&first);
    let method = if ws.len() > 0 {
        assert(ws.deep_view()[0] == ws@[0]@);
        copy_string(&ws[0])
    } else {
        String::new()
    };
    let target = if ws.len() > 1 {
        assert(ws.deep_view()[1] == ws@[1]@);
        copy_string(&ws[1])
    } else {
        let mut t = String::new();
        push_char(&mut t, '/');
        t
    };
    if !str_eq(method.as_str(), "GET") {
        return RequestAction::MethodNotAllowed;
    }
    match map_request_to_output_path(target.as_str()) {
        None => RequestAction::NotFound,
        Some(p) => RequestAction::ServeFile { rel_path: p },
    }
}

/// A path given in the configuration, resolved against its directory
/// unless it is absolute.
pub fn resolve_config_dir_path(config_dir: &str, path: &str) -> (r: String)
    ensures
        r@ == (if path@.len() > 0 && path@[0] == '/' {
            path@
        } else {
            path_join(config_dir@, path@)
        }),
{
    if is_absolute(path) {
        string_from(path)
    } else {
        join_path(config_dir, path)
    }
}

/// The name of the directories of generated assets, which are never
/// watched.
pub open spec fn generated_asset_dir() -> Seq<char> {
    ".mdbook-bookshelf"@
}

/// Whether a path lies in a directory of generated assets.
pub fn is_generated_bookshelf_asset_path(path: &str) -> (r: bool)
    ensures
        r == components(path@).contains(generated_asset_dir()),
{
    let cs = path_components(&chars_of(path));
    let mut i: usize = 0;
    while i < cs.len()
        invariant
            i <= cs.len(),
            cs.deep_view() == components(path@),
            forall|j: int| 0 <= j < i ==> cs.deep_view()[j] != generated_asset_dir(),
        decreases cs.len() - i,
    {
        assert(cs.deep_view()[i as int] == cs@[i as int]@);
        if str_eq(cs[i].as_str(), ".mdbook-bookshelf") {
            assert(components(path@).contains(cs.deep_view()[i as int]));
            return true;
        }
        i += 1;
    }
    false
}

/// `path` is the output directory or lies in it.
pub open spec fn in_output(path: Seq<char>, output_dir: Seq<char>) -> bool {
    components(output_dir).is_prefix_of(components(path))
}

/// Whether a path is the output directory or lies in it.
pub fn is_in_output(path: &str, output_dir: &str) -> (r: bool)
    ensures
        r == in_output(path@, output_dir@),
{
    let p = path_components(&chars_of(path));
    let o = path_components(&chars_of(output_dir));
    if o.len() > p.len() {
        return false;
    }
    let mut i: usize = 0;
    while i < o.len()
        invariant
            i <= o.len() <= p.len(),
            p.deep_view() == components(path@),
            o.deep_view() == components(output_dir@),
            forall|j: int| 0 <= j < i ==> o.deep_view()[j] == p.deep_view()[j],
        decreases o.len() - i,
    {
        if !str_eq(o[i].as_str(), p[i].as_str()) {
            assert(o.deep_view()[i as int] != p.deep_view()[i as int]);
            return false;
        }
        i += 1;
    }
    assert(o.deep_view() =~= p.deep_view().take(o.len() as int));
    true
}

/// Adds a normalized path to the watch roots unless it is the output
/// directory, lies in it, or is already a root.
pub fn push_watch_root(roots: &mut Vec<String>, path: &str, output_dir: &str)
    ensures
        in_output(path@, output_dir@) || (exists|i: int|
            0 <= i < old(roots).len() && components(#[trigger] old(roots)@[i]@) == components(path@))
            ==> final(roots)@ == old(roots)@,
        !(in_output(path@, output_dir@) || (exists|i: int|
            0 <= i < old(roots).len() && components(#[trigger] old(roots)@[i]@) == components(path@)))
            ==> final(roots)@.len() == old(roots)@.len() + 1 && final(roots)@.take(old(roots)@.len() as int)
            == old(roots)@ && final(roots)@.last()@ == path@,
{
    if is_in_output(path, output_dir) {
        return;
    }
    crate::shelf::ui::append_output_asset(roots, path);
}

/// A path of the configuration resolved against its directory.
pub open spec fn resolved_config_path(config_dir: Seq<char>, path: Seq<char>) -> Seq<char> {
    if path.len() > 0 && path[0] == '/' {
        path
    } else {
        path_join(config_dir, path)
    }
}

/// The candidate watch roots, in order: the configuration file, every
/// book's source directory, the shared theme (or every book's `theme`
/// directory), the extra watch directories, and the additional style
/// sheets and scripts, each resolved against the configuration directory.
pub open spec fn watch_candidates(
    config_path: Seq<char>,
    config_dir: Seq<char>,
    srcs: Seq<Seq<char>>,
    roots: Seq<Seq<char>>,
    theme: Option<Seq<char>>,
    extras: Seq<Seq<char>>,
    assets: Seq<Seq<char>>,
) -> Seq<Seq<char>> {
    let themes = match theme {
        Some(t) => seq![resolved_config_path(config_dir, t)],
        None => roots.map_values(|r: Seq<char>| path_join(r, "theme"@)),
    };
    seq![config_path] + srcs + themes + extras.map_values(|e: Seq<char>| resolved_config_path(config_dir, e))
        + assets.map_values(|a: Seq<char>| resolved_config_path(config_dir, a))
}

/// The candidate watch roots, in order, before normalization.
pub fn watch_root_candidates(
    config_path: &str,
    config_dir: &str,
    book_src_abs: &Vec<String>,
    book_root_abs: &Vec<String>,
    theme: Option<&str>,
    extra_watch_dirs: &Vec<String>,
    additional_assets: &Vec<String>,
) -> (r: Vec<String>)
    ensures
        r.deep_view() == watch_candidates(
            config_path@,
            config_dir@,
            book_src_abs.deep_view(),
            book_root_abs.deep_view(),
            match theme {
                Some(t) => Some(t@),
                None => None,
            },
            extra_watch_dirs.deep_view(),
            additional_assets.deep_view(),
        ),
{
    let mut r: Vec<String> = Vec::new();
    r.push(string_from(config_path));
    let ghost head = seq![config_path@];
    assert(r.deep_view() =~= head);
    append_all(&mut r, book_src_abs);
    let ghost with_srcs = head + book_src_abs.deep_view();
    let ghost themes = match theme {
        Some(t) => seq![resolved_config_path(config_dir@, t@)],
        None => book_root_abs.deep_view().map_values(|x: Seq<char>| path_join(x, "theme"@)),
    };
    match theme {
        Some(t) => {
            let ghost before = r.deep_view();
            r.push(resolve_config_dir_path(config_dir, t));
            assert(r.deep_view() =~= before + themes);
        },
        None => {
            let ghost base = r.deep_view();
            let mut k: usize = 0;
            while k < book_root_abs.len()
                invariant
                    k <= book_root_abs.len(),
                    r.deep_view() == base + book_root_abs.deep_view().take(k as int).map_values(
                        |x: Seq<char>| path_join(x, "theme"@),
                    ),
                decreases book_root_abs.len() - k,
            {
                let ghost before = r.deep_view();
                r.push(join_path(book_root_abs[k].as_str(), "theme"));
                assert(book_root_abs.deep_view().take(k + 1) =~= book_root_abs.deep_view().take(k as int).push(
                    book_root_abs@[k as int]@,
                ));
                assert(r.deep_view() =~= before.push(path_join(book_root_abs@[k as int]@, "theme"@)));
                assert(r.deep_view() =~= base + book_root_abs.deep_view().take(k + 1).map_values(
                    |x: Seq<char>| path_join(x, "theme"@),
                ));
                k += 1;
            }
            assert(book_root_abs.deep_view().take(book_root_abs.len() as int) =~= book_root_abs.deep_view());
        },
    }
    append_resolved(&mut r, config_dir, extra_watch_dirs);
    append_resolved(&mut r, config_dir, additional_assets);
    r
}

fn append_all(r: &mut Vec<String>, items: &Vec<String>)
    ensures
        final(r).deep_view() == old(r).deep_view() + items.deep_view(),
{
    let ghost base = r.deep_view();
    let mut i: usize = 0;
    while i < items.len()
        invariant
            i <= items.len(),
            r.deep_view() == base + items.deep_view().take(i as int),
        decreases items.len() - i,
    {
        let ghost before = r.deep_view();
        r.push(copy_string(&items[i]));
        assert(r.deep_view() =~= before.push(items@[i as int]@));
        assert(items.deep_view().take(i + 1) =~= items.deep_view().take(i as int).push(items@[i as int]@));
        i += 1;
    }
    assert(items.deep_view().take(items.len() as int) =~= items.deep_view());
}

fn append_resolved(r: &mut Vec<String>, config_dir: &str, items: &Vec<String>)
    ensures
        final(r).deep_view() == old(r).deep_view() + items.deep_view().map_values(
            |e: Seq<char>| resolved_config_path(config_dir@, e),
        ),
{
    let ghost base = r.deep_view();
    let mut i: usize = 0;
    while i < items.len()
        invariant
            i <= items.len(),
            r.deep_view() == base + items.deep_view().take(i as int).map_values(
                |e: Seq<char>| resolved_config_path(config_dir@, e),
            ),
        decreases items.len() - i,
    {
        let ghost before = r.deep_view();
        r.push(resolve_config_dir_path(config_dir, items[i].as_str()));
        assert(r.deep_view() =~= before.push(resolved_config_path(config_dir@, items@[i as int]@)));
        assert(items.deep_view().take(i + 1) =~= items.deep_view().take(i as int).push(items@[i as int]@));
        assert(base + items.deep_view().take(i + 1).map_values(|e: Seq<char>| resolved_config_path(config_dir@, e))
            =~= before.push(resolved_config_path(config_dir@, items@[i as int]@)));
        i += 1;
    }
    assert(items.deep_view().take(items.len() as int) =~= items.deep_view());
}

/// The text that describes the error.
pub open spec fn serve_error_text(e: &ServeSiteError) -> Seq<char> {
    match e {
        ServeSiteError::Build { message } => message@,
        ServeSiteError::Bind { bind_addr, message } => "failed to bind HTTP server at "@ + bind_addr@ + ": "@ + message@,
        ServeSiteError::Io { path, message } => "failed to serve file "@ + path@ + ": "@ + message@,
        ServeSiteError::Accept { message } => "failed to accept HTTP connection: "@ + message@,
    }
}

impl ServeSiteError {
    /// The text that describes the error, for reports.
    pub fn message(&self) -> (r: String)
        ensures
            r@ == serve_error_text(self),
    {
        match self {
            ServeSiteError::Build { message } => string_from(message.as_str()),
            ServeSiteError::Bind { bind_addr, message } => {
                let mut s = string_from("failed to bind HTTP server at ");
                s.append(bind_addr.as_str());
                s.append(": ");
                s.append(message.as_str());
                s
            },
            ServeSiteError::Io { path, message } => {
                let mut s = string_from("failed to serve file ");
                s.append(path.as_str());
                s.append(": ");
                s.append(message.as_str());
                s
            },
            ServeSiteError::Accept { message } => {
                let mut s = string_from("failed to accept HTTP connection: ");
                s.append(message.as_str());
                s
            },
        }
    }
}

/// The first port tried when no port is given.
pub const DEFAULT_SERVE_PORT_START: u16 = 3000;

/// The last port tried when no port is given.
pub const DEFAULT_SERVE_PORT_END: u16 = 3100;

/// What the server does next while it looks for a port to listen on.
#[derive(Debug, Clone, Copy, PartialEq, Eq, Structural)]
pub enum BindStep {
    /// Try to listen on this port.
    Bind { port: u16 },
    /// Stop: report the last failure.
    Fail,
}

/// The first port to try: the given one, else the first default port.
pub fn first_bind_step(requested: Option<u16>) -> (r: BindStep)
    ensures
        r == (match requested {
            Some(p) => BindStep::Bind { port: p },
            None => BindStep::Bind { port: DEFAULT_SERVE_PORT_START },
        }),
{
    match requested {
        Some(p) => BindStep::Bind { port: p },
        None => BindStep::Bind { port: DEFAULT_SERVE_PORT_START },
    }
}

/// What follows a failed attempt to listen on `port`: with a given port,
/// stop; else, while the address is in use and a default port is left, the
/// next port; on any other failure, stop.
pub fn next_bind_step(requested: Option<u16>, port: u16, addr_in_use: bool) -> (r: BindStep)
    ensures
        r == (if requested is None && addr_in_use && DEFAULT_SERVE_PORT_START <= port < DEFAULT_SERVE_PORT_END {
            BindStep::Bind { port: (port + 1) as u16 }
        } else {
            BindStep::Fail
        }),
{
    if requested.is_none() && addr_in_use && DEFAULT_SERVE_PORT_START <= port && port < DEFAULT_SERVE_PORT_END {
        BindStep::Bind { port: port + 1 }
    } else {
        BindStep::Fail
    }
}

} // verus!
