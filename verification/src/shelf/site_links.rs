//! Site-root links: a link in a chapter that starts with `/` names a path
//! of the whole site; it is rewritten to a path relative to the chapter's
//! page, and a link to a Markdown page to that page's HTML output.
use vstd::prelude::*;
use mdbook_markdown::pulldown_cmark::{Event, Tag};
use mdbook_markdown::{new_cmark_parser, MarkdownOptions};
use pulldown_cmark_to_cmark::{cmark, SUPPORTED_PARSER_OPTIONS};
use crate::paths::{components, extension_of, file_name_of, file_stem_of, join_components, join_path, parent_of, parent_path, path_components, path_join, render_components, with_extension, with_extension_path};
use crate::numbers::{decimal, format_decimal};
use crate::paths::{is_dot_or_dotdot, same_path};
use crate::route_paths::{path_display, path_to_string, relative_path, relative_path_spec};
use crate::text::{chars_of, copy_string, opt_view, push_char, str_eq, string_from, string_of_range};

verus! {

/// Why a site-root link or the link map is refused.
#[derive(Debug, Clone, PartialEq, Eq)]
pub enum SiteLinkError {
    /// A site-root path does not start with `/`.
    NotRooted { path: String },
    /// A path climbs above the site root with `..`.
    EscapesSiteRoot { path: String },
    /// A chapter links to a Markdown page that no book has.
    UnresolvedPageLink { chapter: String, destination: String },
    /// A chapter's site-root link climbs above the site root; `path` is its
    /// part after the leading `/`.
    InvalidLink { chapter: String, destination: String, path: String },
    /// Two outputs are claimed for one source path.
    ConflictingPage { source: String, existing: String, output: String },
    /// Loaded books are not in catalog order.
    BookOrderMismatch { index: usize, catalog: String, loaded: String },
}

/// `c` lowered if it is an ASCII capital.
pub open spec fn ascii_lower(c: char) -> char {
    if 'A' <= c && c <= 'Z' {
        ((c as u32) + 32) as char
    } else {
        c
    }
}

/// `a` and `b` are equal up to ASCII case.
pub open spec fn eq_ignore_ascii_case(a: Seq<char>, b: Seq<char>) -> bool {
    a.len() == b.len() && forall|i: int| 0 <= i < a.len() ==> ascii_lower(#[trigger] a[i]) == ascii_lower(b[i])
}

fn lower(c: char) -> (r: char)
    ensures
        r == ascii_lower(c),
{
    if 'A' <= c && c <= 'Z' {
        let r = ((c as u32) + 32) as u8 as char;
        assert(r == ((c as u32) + 32) as char) by {
            assert((c as u32) + 32 < 128);
        }
        r
    } else {
        c
    }
}

fn eq_ignore_case(a: &Vec<char>, b: &str) -> (r: bool)
    ensures
        r == eq_ignore_ascii_case(a@, b@),
{
    let bv = chars_of(b);
    if a.len() != bv.len() {
        return false;
    }
    let mut i: usize = 0;
    while i < a.len()
        invariant
            i <= a.len() == bv.len(),
            bv@ == b@,
            forall|j: int| 0 <= j < i ==> ascii_lower(#[trigger] a@[j]) == ascii_lower(bv@[j]),
        decreases a.len() - i,
    {
        if lower(a[i]) != lower(bv[i]) {
            return false;
        }
        i += 1;
    }
    true
}

/// A link destination that names a path of the site: it starts with one
/// `/` (two would name another host).
pub open spec fn site_root_destination(d: Seq<char>) -> bool {
    d.len() > 0 && d[0] == '/' && !(d.len() > 1 && d[1] == '/')
}

/// Whether a link destination names a path of the site.
pub fn is_site_root_destination(destination: &str) -> (r: bool)
    ensures
        r == site_root_destination(destination@),
{
    let cs = chars_of(destination);
    cs.len() > 0 && cs[0] == '/' && !(cs.len() > 1 && cs[1] == '/')
}

/// The position of the first `?` or `#` at or after `i`, or the end.
pub open spec fn first_qh(d: Seq<char>, i: int) -> int
    decreases d.len() - i,
{
    if i < 0 || i >= d.len() {
        d.len() as int
    } else if d[i] == '?' || d[i] == '#' {
        i
    } else {
        first_qh(d, i + 1)
    }
}

/// Splits a destination into its path and its query and fragment: the
/// path ends at the first `?` or `#`.
pub fn split_destination_suffix(destination: &str) -> (r: (String, String))
    ensures
        r.0@ == destination@.take(first_qh(destination@, 0)),
        r.1@ == destination@.skip(first_qh(destination@, 0)),
        r.0@ + r.1@ == destination@,
        forall|i: int| 0 <= i < r.0@.len() ==> r.0@[i] != '?' && r.0@[i] != '#',
        r.1@.len() > 0 ==> r.1@[0] == '?' || r.1@[0] == '#',
{
    let cs = chars_of(destination);
    let mut i: usize = 0;
    while i < cs.len() && cs[i] != '?' && cs[i] != '#'
        invariant
            i <= cs.len(),
            cs@ == destination@,
            first_qh(cs@, 0) == first_qh(cs@, i as int),
            forall|j: int| 0 <= j < i ==> cs@[j] != '?' && cs@[j] != '#',
        decreases cs.len() - i,
    {
        i += 1;
    }
    let path = string_of_range(&cs, 0, i);
    let suffix = string_of_range(&cs, i, cs.len());
    assert(path@ + suffix@ =~= destination@);
    (path, suffix)
}

/// One `/`-separated segment applied to the stack of names: empty and `.`
/// segments are skipped, `..` removes the last name (none to remove
/// escapes the root), and a name is added.
pub open spec fn apply_segment(stack: Option<Seq<Seq<char>>>, seg: Seq<char>) -> Option<Seq<Seq<char>>> {
    match stack {
        None => None,
        Some(st) => if seg.len() == 0 || seg == seq!['.'] {
            Some(st)
        } else if seg == seq!['.', '.'] {
            if st.len() == 0 {
                None
            } else {
                Some(st.drop_last())
            }
        } else {
            Some(st.push(seg))
        },
    }
}

/// The stack and the segment being read after reading `s`.
pub open spec fn scan_url(s: Seq<char>) -> (Option<Seq<Seq<char>>>, Seq<char>)
    decreases s.len(),
{
    if s.len() == 0 {
        (Some(Seq::empty()), Seq::empty())
    } else {
        let st = scan_url(s.drop_last());
        if s.last() == '/' {
            (apply_segment(st.0, st.1), Seq::empty())
        } else {
            (st.0, st.1.push(s.last()))
        }
    }
}

/// The names of a `/`-separated path after resolving `.` and `..`, or none
/// when it climbs above its start.
pub open spec fn url_names(s: Seq<char>) -> Option<Seq<Seq<char>>> {
    let st = scan_url(s);
    apply_segment(st.0, st.1)
}

/// A name of a normalized path: not empty, no `/`, not `.` or `..`.
pub open spec fn plain_name(n: Seq<char>) -> bool {
    n.len() > 0 && n != seq!['.'] && n != seq!['.', '.'] && forall|i: int| 0 <= i < n.len() ==> n[i] != '/'
}

fn apply(stack: &mut Vec<String>, seg: String, escaped: &mut bool)
    ensures
        match apply_segment(if *old(escaped) { None } else { Some(old(stack).deep_view()) }, seg@) {
            None => *final(escaped),
            Some(st) => !*final(escaped) && final(stack).deep_view() == st,
        },
{
    if *escaped {
        return;
    }
    let n = seg.as_str().unicode_len();
    let ghost before = stack.deep_view();
    if n == 0 {
        return;
    }
    if n == 1 && seg.as_str().get_char(0) == '.' {
        assert(seg@ =~= seq!['.']);
        return;
    }
    if n == 2 && seg.as_str().get_char(0) == '.' && seg.as_str().get_char(1) == '.' {
        assert(seg@ =~= seq!['.', '.']);
        if stack.len() == 0 {
            *escaped = true;
            return;
        }
        stack.pop();
        assert(stack.deep_view() =~= before.drop_last());
        return;
    }
    assert(seg@ != seq!['.']);
    assert(seg@ != seq!['.', '.']);
    stack.push(seg);
    assert(stack.deep_view() =~= before.push(seg@));
}

proof fn lemma_plain_stack(stack: Option<Seq<Seq<char>>>, seg: Seq<char>)
    requires
        stack matches Some(st) ==> forall|i: int| 0 <= i < st.len() ==> plain_name(#[trigger] st[i]),
        forall|i: int| 0 <= i < seg.len() ==> seg[i] != '/',
    ensures
        apply_segment(stack, seg) matches Some(st) ==> forall|i: int| 0 <= i < st.len() ==> plain_name(#[trigger] st[i]),
{
}

proof fn lemma_scan_plain(s: Seq<char>)
    ensures
        scan_url(s).0 matches Some(st) ==> forall|i: int| 0 <= i < st.len() ==> plain_name(#[trigger] st[i]),
        forall|i: int| 0 <= i < scan_url(s).1.len() ==> scan_url(s).1[i] != '/',
    decreases s.len(),
{
    if s.len() > 0 {
        lemma_scan_plain(s.drop_last());
        let st = scan_url(s.drop_last());
        lemma_plain_stack(st.0, st.1);
        if s.last() != '/' {
            assert forall|i: int| 0 <= i < scan_url(s).1.len() implies scan_url(s).1[i] != '/' by {
                if i < st.1.len() {
                    assert(scan_url(s).1[i] == st.1[i]);
                }
            }
        }
    }
}

/// The names of a normalized path are plain names: normalizing removes
/// every empty, `.` and `..` segment.
pub proof fn lemma_url_names_plain(s: Seq<char>)
    ensures
        url_names(s) matches Some(ns) ==> forall|i: int| 0 <= i < ns.len() ==> plain_name(#[trigger] ns[i]),
{
    lemma_scan_plain(s);
    let st = scan_url(s);
    lemma_plain_stack(st.0, st.1);
}

/// Resolves the `/`-separated segments of a path: the joined names, or the
/// error when the path escapes its start.
pub fn normalize_url_path_components(path: &str) -> (r: Result<String, SiteLinkError>)
    ensures
        match url_names(path@) {
            Some(ns) => r matches Ok(s) && s@ == join_components(ns),
            None => r matches Err(SiteLinkError::EscapesSiteRoot { path: p }) && p@ == path@,
        },
{
    let cs = chars_of(path);
    let mut stack: Vec<String> = Vec::new();
    let mut seg = String::new();
    let mut escaped = false;
    let mut i: usize = 0;
    assert(stack.deep_view() =~= Seq::<Seq<char>>::empty());
    while i < cs.len()
        invariant
            i <= cs.len(),
            cs@ == path@,
            (if escaped { None } else { Some(stack.deep_view()) }, seg@) == scan_url(cs@.take(i as int)),
        decreases cs.len() - i,
    {
        assert(cs@.take(i + 1).drop_last() =~= cs@.take(i as int));
        if cs[i] == '/' {
            let s = seg;
            seg = String::new();
            apply(&mut stack, s, &mut escaped);
        } else {
            push_char(&mut seg, cs[i]);
        }
        i += 1;
    }
    assert(cs@.take(cs.len() as int) =~= cs@);
    apply(&mut stack, seg, &mut escaped);
    if escaped {
        return Err(SiteLinkError::EscapesSiteRoot { path: string_from(path) });
    }
    Ok(render_components(&stack))
}

/// The names of a site-root path: its part after the leading `/`,
/// normalized; refused when it does not start with `/` or escapes.
pub fn normalize_site_root_destination_path(path: &str) -> (r: Result<String, SiteLinkError>)
    ensures
        path@.len() == 0 || path@[0] != '/' ==> (r matches Err(SiteLinkError::NotRooted { path: p }) && p@ == path@),
        path@.len() > 0 && path@[0] == '/' ==> match url_names(path@.skip(1)) {
            Some(ns) => r matches Ok(s) && s@ == join_components(ns),
            None => r matches Err(SiteLinkError::EscapesSiteRoot { path: p }) && p@ == path@.skip(1),
        },
{
    let cs = chars_of(path);
    if cs.len() == 0 || cs[0] != '/' {
        return Err(SiteLinkError::NotRooted { path: string_from(path) });
    }
    let relative = string_of_range(&cs, 1, cs.len());
    assert(relative@ =~= path@.skip(1));
    normalize_url_path_components(relative.as_str())
}

/// A path of the site normalized: written with `/` and resolved.
pub fn normalize_site_path(path: &str) -> (r: Result<String, SiteLinkError>)
    ensures
        match url_names(path_display(path@)) {
            Some(ns) => r matches Ok(s) && s@ == join_components(ns),
            None => r matches Err(SiteLinkError::EscapesSiteRoot { path: p }) && p@ == path_display(path@),
        },
{
    normalize_url_path_components(path_to_string(path).as_str())
}

fn last_name(path: &str) -> (r: Option<Vec<char>>)
    ensures
        match r {
            Some(n) => file_name_of(path@) == Some(n@),
            None => file_name_of(path@) is None,
        },
{
    let cs = path_components(&chars_of(path));
    let n = cs.len();
    if n == 0 {
        return None;
    }
    let (dot, dotdot) = is_dot_or_dotdot(&cs[n - 1]);
    if crate::paths::is_root(&cs[n - 1]) || dot || dotdot {
        return None;
    }
    assert(cs.deep_view().last() == cs@[n - 1]@);
    Some(chars_of(cs[n - 1].as_str()))
}

/// The path names a Markdown page: its extension is `md` in any case.
pub open spec fn markdown_page_path(path: Seq<char>) -> bool {
    match file_name_of(path) {
        Some(name) => match extension_of(name) {
            Some(ext) => eq_ignore_ascii_case(ext, "md"@),
            None => false,
        },
        None => false,
    }
}

/// Whether the path names a Markdown page.
pub fn is_markdown_page_path(path: &str) -> (r: bool)
    ensures
        r == markdown_page_path(path@),
{
    match last_name(path) {
        None => false,
        Some(name) => match crate::paths::extension_chars(&name) {
            None => false,
            Some(ext) => eq_ignore_case(&ext, "md"),
        },
    }
}

/// The path names a README: its file stem is `readme` in any case.
pub open spec fn readme_path(path: Seq<char>) -> bool {
    match file_name_of(path) {
        Some(name) => eq_ignore_ascii_case(file_stem_of(name), "readme"@),
        None => false,
    }
}

/// Whether the path names a README.
pub fn is_readme_path(path: &str) -> (r: bool)
    ensures
        r == readme_path(path@),
{
    match last_name(path) {
        None => false,
        Some(name) => eq_ignore_case(&crate::paths::file_stem_chars(&name), "readme"),
    }
}

/// The path of a chapter after mdBook's index preprocessor: a README
/// becomes `index.md` in the same directory.
pub open spec fn index_preprocessed(path: Seq<char>) -> Seq<char> {
    if readme_path(path) {
        join_components(components(path).drop_last().push("index.md"@))
    } else {
        path
    }
}

/// The path of a chapter after mdBook's index preprocessor.
pub fn index_preprocessed_path(path: &str) -> (r: String)
    ensures
        r@ == index_preprocessed(path@),
{
    if is_readme_path(path) {
        let mut cs = path_components(&chars_of(path));
        let ghost before = cs.deep_view();
        cs.pop();
        cs.push(string_from("index.md"));
        assert(cs.deep_view() =~= before.drop_last().push("index.md"@));
        render_components(&cs)
    } else {
        string_from(path)
    }
}

/// Where each Markdown source path of the site is rendered.
#[derive(Debug, Clone, PartialEq, Eq)]
pub struct SiteRootLinkMap {
    pages: Vec<(String, String)>,
}

/// The pages of a link map as plain values.
pub open spec fn pairs_view(ps: Seq<(String, String)>) -> Seq<(Seq<char>, Seq<char>)> {
    ps.map_values(|p: (String, String)| (p.0@, p.1@))
}

/// The output recorded for `source`, compared as paths.
pub open spec fn output_for(ps: Seq<(Seq<char>, Seq<char>)>, source: Seq<char>) -> Option<Seq<char>>
    decreases ps.len(),
{
    if ps.len() == 0 {
        None
    } else if components(ps.last().0) == components(source) {
        Some(ps.last().1)
    } else {
        output_for(ps.drop_last(), source)
    }
}

impl SiteRootLinkMap {
    /// The recorded pages, source then output.
    pub closed spec fn pages_view(&self) -> Seq<(Seq<char>, Seq<char>)> {
        pairs_view(self.pages@)
    }

    /// A map with no page.
    pub fn new() -> (r: Self)
        ensures
            r.pages_view().len() == 0,
    {
        SiteRootLinkMap { pages: Vec::new() }
    }

    /// A map of the given source and output paths.
    pub fn from_page_pairs(pairs: &Vec<(String, String)>) -> (r: Self)
        ensures
            r.pages_view() == pairs_view(pairs@),
    {
        let mut pages: Vec<(String, String)> = Vec::new();
        let mut i: usize = 0;
        while i < pairs.len()
            invariant
                i <= pairs.len(),
                pairs_view(pages@) == pairs_view(pairs@.take(i as int)),
            decreases pairs.len() - i,
        {
            let ghost before = pairs_view(pages@);
            pages.push((copy_string(&pairs[i].0), copy_string(&pairs[i].1)));
            assert(pairs_view(pages@) =~= before.push((pairs@[i as int].0@, pairs@[i as int].1@)));
            assert(pairs_view(pairs@.take(i + 1)) =~= pairs_view(pairs@.take(i as int)).push(
                (pairs@[i as int].0@, pairs@[i as int].1@),
            ));
            i += 1;
        }
        assert(pairs@.take(pairs.len() as int) =~= pairs@);
        SiteRootLinkMap { pages }
    }

    /// The output of the page at `source_path`, compared as paths.
    pub fn page_output_path(&self, source_path: &str) -> (r: Option<&String>)
        ensures
            match r {
                Some(o) => output_for(self.pages_view(), source_path@) == Some(o@),
                None => output_for(self.pages_view(), source_path@) is None,
            },
    {
        let ghost all = pairs_view(self.pages@);
        let mut i = self.pages.len();
        assert(all.take(i as int) =~= all);
        while i > 0
            invariant
                i <= self.pages.len(),
                all == pairs_view(self.pages@),
                output_for(all, source_path@) == output_for(all.take(i as int), source_path@),
            decreases i,
        {
            assert(all.take(i as int).drop_last() =~= all.take(i - 1));
            if same_path(self.pages[i - 1].0.as_str(), source_path) {
                return Some(&self.pages[i - 1].1);
            }
            i -= 1;
        }
        None
    }

    /// Records that `source_path` is rendered to `output_path`; refused
    /// when the source already has another output.
    pub fn insert_page(&mut self, source_path: String, output_path: String) -> (r: Result<(), SiteLinkError>)
        ensures
            match output_for(old(self).pages_view(), source_path@) {
                Some(existing) => if components(existing) == components(output_path@) {
                    r is Ok && final(self).pages_view() == old(self).pages_view()
                } else {
                    r matches Err(SiteLinkError::ConflictingPage { source, existing: e, output })
                        && source@ == path_display(source_path@) && e@ == path_display(existing)
                        && output@ == path_display(output_path@)
                },
                None => r is Ok && final(self).pages_view() == old(self).pages_view().push(
                    (source_path@, output_path@),
                ),
            },
    {
        match self.page_output_path(source_path.as_str()) {
            Some(existing) => {
                if !same_path(existing.as_str(), output_path.as_str()) {
                    return Err(
                        SiteLinkError::ConflictingPage {
                            source: path_to_string(source_path.as_str()),
                            existing: path_to_string(existing.as_str()),
                            output: path_to_string(output_path.as_str()),
                        },
                    );
                }
                Ok(())
            },
            None => {
                let ghost before = pairs_view(self.pages@);
                self.pages.push((source_path, output_path));
                assert(pairs_view(self.pages@) =~= before.push((source_path@, output_path@)));
                Ok(())
            },
        }
    }
}

/// After a page is recorded, looking up its source gives its output.
pub proof fn lemma_insert_then_lookup(ps: Seq<(Seq<char>, Seq<char>)>, source: Seq<char>, output: Seq<char>)
    requires
        output_for(ps, source) is None,
    ensures
        output_for(ps.push((source, output)), source) == Some(output),
        forall|other: Seq<char>| components(other) != components(source) ==> output_for(ps.push((source, output)), other)
            == output_for(ps, other),
{
    assert(ps.push((source, output)).drop_last() =~= ps);
    assert forall|other: Seq<char>| components(other) != components(source) implies output_for(
        ps.push((source, output)),
        other,
    ) == output_for(ps, other) by {
        assert(ps.push((source, output)).drop_last() =~= ps);
    }
}

/// A site-root link error as plain values.
pub enum SiteLinkErrorView {
    NotRooted { path: Seq<char> },
    EscapesSiteRoot { path: Seq<char> },
    UnresolvedPageLink { chapter: Seq<char>, destination: Seq<char> },
    InvalidLink { chapter: Seq<char>, destination: Seq<char>, path: Seq<char> },
    ConflictingPage { source: Seq<char>, existing: Seq<char>, output: Seq<char> },
    BookOrderMismatch { index: usize, catalog: Seq<char>, loaded: Seq<char> },
}

impl View for SiteLinkError {
    type V = SiteLinkErrorView;

    open spec fn view(&self) -> SiteLinkErrorView {
        match self {
            SiteLinkError::NotRooted { path } => SiteLinkErrorView::NotRooted { path: path@ },
            SiteLinkError::EscapesSiteRoot { path } => SiteLinkErrorView::EscapesSiteRoot { path: path@ },
            SiteLinkError::UnresolvedPageLink { chapter, destination } =>
                SiteLinkErrorView::UnresolvedPageLink { chapter: chapter@, destination: destination@ },
            SiteLinkError::InvalidLink { chapter, destination, path } => SiteLinkErrorView::InvalidLink {
                chapter: chapter@,
                destination: destination@,
                path: path@,
            },
            SiteLinkError::ConflictingPage { source, existing, output } => SiteLinkErrorView::ConflictingPage {
                source: source@,
                existing: existing@,
                output: output@,
            },
            SiteLinkError::BookOrderMismatch { index, catalog, loaded } =>
                SiteLinkErrorView::BookOrderMismatch { index: *index, catalog: catalog@, loaded: loaded@ },
        }
    }
}

/// A site path normalized, or the error when it escapes the site root.
pub open spec fn normalized_site_path(p: Seq<char>) -> Result<Seq<char>, SiteLinkErrorView> {
    match url_names(path_display(p)) {
        Some(ns) => Ok(join_components(ns)),
        None => Err(SiteLinkErrorView::EscapesSiteRoot { path: path_display(p) }),
    }
}

/// The pages after recording `source` at `output`, or the conflict.
pub open spec fn insert_result(ps: Seq<(Seq<char>, Seq<char>)>, source: Seq<char>, output: Seq<char>) -> Result<
    Seq<(Seq<char>, Seq<char>)>,
    SiteLinkErrorView,
> {
    match output_for(ps, source) {
        Some(existing) => if components(existing) == components(output) {
            Ok(ps)
        } else {
            Err(
                SiteLinkErrorView::ConflictingPage {
                    source: path_display(source),
                    existing: path_display(existing),
                    output: path_display(output),
                },
            )
        },
        None => Ok(ps.push((source, output))),
    }
}

/// The pages after recording a chapter of the book written to `rel`: its
/// path, its path after the index preprocessor, and its source path all
/// lead to the HTML output of the preprocessed path.
pub open spec fn chapter_insert(
    ps: Seq<(Seq<char>, Seq<char>)>,
    rel: Seq<char>,
    path: Option<Seq<char>>,
    source: Option<Seq<char>>,
) -> Result<Seq<(Seq<char>, Seq<char>)>, SiteLinkErrorView> {
    match path {
        None => Ok(ps),
        Some(p) => {
            let md = index_preprocessed(p);
            match normalized_site_path(path_join(rel, with_extension_path(md, "html"@))) {
                Err(e) => Err(e),
                Ok(html) => match normalized_site_path(path_join(rel, p)) {
                    Err(e) => Err(e),
                    Ok(s1) => match insert_result(ps, s1, html) {
                        Err(e) => Err(e),
                        Ok(ps1) => match normalized_site_path(path_join(rel, md)) {
                            Err(e) => Err(e),
                            Ok(s2) => match insert_result(ps1, s2, html) {
                                Err(e) => Err(e),
                                Ok(ps2) => match source {
                                    None => Ok(ps2),
                                    Some(src) => match normalized_site_path(path_join(rel, src)) {
                                        Err(e) => Err(e),
                                        Ok(s3) => insert_result(ps2, s3, html),
                                    },
                                },
                            },
                        },
                    },
                },
            }
        },
    }
}

fn normalized_site(path: &str) -> (r: Result<String, SiteLinkError>)
    ensures
        match normalized_site_path(path@) {
            Ok(p) => r matches Ok(s) && s@ == p,
            Err(v) => r matches Err(e) && e@ == v,
        },
{
    normalize_site_path(path)
}

fn insert_checked(map: &mut SiteRootLinkMap, source: String, output: &String) -> (r: Result<(), SiteLinkError>)
    ensures
        match insert_result(old(map).pages_view(), source@, output@) {
            Ok(ps) => r is Ok && final(map).pages_view() == ps,
            Err(v) => r matches Err(e) && e@ == v,
        },
{
    map.insert_page(source, copy_string(output))
}

impl SiteRootLinkMap {
    /// Records a chapter of the book written to `book_output_rel`.
    pub fn insert_chapter(&mut self, book_output_rel: &str, chapter_path: Option<&str>, source_path: Option<&str>) -> (r:
        Result<(), SiteLinkError>)
        ensures
            match chapter_insert(
                old(self).pages_view(),
                book_output_rel@,
                match chapter_path {
                    Some(p) => Some(p@),
                    None => None,
                },
                match source_path {
                    Some(p) => Some(p@),
                    None => None,
                },
            ) {
                Ok(ps) => r is Ok && final(self).pages_view() == ps,
                Err(v) => r matches Err(e) && e@ == v,
            },
    {
        let path = match chapter_path {
            None => {
                return Ok(());
            },
            Some(p) => p,
        };
        let output_markdown_path = index_preprocessed_path(path);
        let html_rel = with_extension(output_markdown_path.as_str(), "html");
        let output_html_path = match normalized_site(join_path(book_output_rel, html_rel.as_str()).as_str()) {
            Err(e) => {
                return Err(e);
            },
            Ok(p) => p,
        };
        let s1 = match normalized_site(join_path(book_output_rel, path).as_str()) {
            Err(e) => {
                return Err(e);
            },
            Ok(p) => p,
        };
        match insert_checked(self, s1, &output_html_path) {
            Err(e) => {
                return Err(e);
            },
            Ok(()) => {},
        }
        let s2 = match normalized_site(join_path(book_output_rel, output_markdown_path.as_str()).as_str()) {
            Err(e) => {
                return Err(e);
            },
            Ok(p) => p,
        };
        match insert_checked(self, s2, &output_html_path) {
            Err(e) => {
                return Err(e);
            },
            Ok(()) => {},
        }
        match source_path {
            None => Ok(()),
            Some(src) => {
                let s3 = match normalized_site(join_path(book_output_rel, src).as_str()) {
                    Err(e) => {
                        return Err(e);
                    },
                    Ok(p) => p,
                };
                insert_checked(self, s3, &output_html_path)
            },
        }
    }
}

/// A book as the link map reads it: its id and where it is written.
#[derive(Debug, Clone, PartialEq, Eq)]
pub struct LinkBook {
    pub id: String,
    pub output_rel: String,
}

/// The pages after recording the first `n` chapters of a book written to
/// `rel`, or the first refusal.
pub open spec fn chapters_inserted(
    ps: Seq<(Seq<char>, Seq<char>)>,
    rel: Seq<char>,
    chapters: Seq<crate::loader::LoadedChapter>,
    n: int,
) -> Result<Seq<(Seq<char>, Seq<char>)>, SiteLinkErrorView>
    decreases n,
{
    if n <= 0 {
        Ok(ps)
    } else {
        match chapters_inserted(ps, rel, chapters, n - 1) {
            Err(e) => Err(e),
            Ok(p) => chapter_insert(p, rel, opt_view(chapters[n - 1].path), opt_view(chapters[n - 1].source_path)),
        }
    }
}

/// The pages after recording every chapter of the first `n` books, paired
/// in order with their loaded books, or the first refusal: a loaded book
/// whose id is not the catalog's, or a chapter that cannot be recorded.
pub open spec fn books_linked(books: Seq<LinkBook>, loaded: Seq<crate::loader::LoadedBook>, n: int) -> Result<
    Seq<(Seq<char>, Seq<char>)>,
    SiteLinkErrorView,
>
    decreases n,
{
    if n <= 0 {
        Ok(Seq::empty())
    } else {
        match books_linked(books, loaded, n - 1) {
            Err(e) => Err(e),
            Ok(p) => if books[n - 1].id@ != loaded[n - 1].book_id@ {
                Err(
                    SiteLinkErrorView::BookOrderMismatch {
                        index: (n - 1) as usize,
                        catalog: books[n - 1].id@,
                        loaded: loaded[n - 1].book_id@,
                    },
                )
            } else {
                chapters_inserted(p, books[n - 1].output_rel@, loaded[n - 1].chapters@, loaded[n - 1].chapters.len() as int)
            },
        }
    }
}

proof fn lemma_chapters_inserted_err(
    ps: Seq<(Seq<char>, Seq<char>)>,
    rel: Seq<char>,
    chapters: Seq<crate::loader::LoadedChapter>,
    a: int,
    b: int,
)
    requires
        0 <= a <= b,
        chapters_inserted(ps, rel, chapters, a) is Err,
    ensures
        chapters_inserted(ps, rel, chapters, b) == chapters_inserted(ps, rel, chapters, a),
    decreases b - a,
{
    if a < b {
        lemma_chapters_inserted_err(ps, rel, chapters, a, b - 1);
    }
}

proof fn lemma_books_linked_err(books: Seq<LinkBook>, loaded: Seq<crate::loader::LoadedBook>, a: int, b: int)
    requires
        0 <= a <= b,
        books_linked(books, loaded, a) is Err,
    ensures
        books_linked(books, loaded, b) == books_linked(books, loaded, a),
    decreases b - a,
{
    if a < b {
        lemma_books_linked_err(books, loaded, a, b - 1);
    }
}

fn insert_book_chapters(map: &mut SiteRootLinkMap, rel: &str, chapters: &Vec<crate::loader::LoadedChapter>) -> (r:
    Result<(), SiteLinkError>)
    ensures
        match chapters_inserted(old(map).pages_view(), rel@, chapters@, chapters.len() as int) {
            Ok(ps) => r is Ok && final(map).pages_view() == ps,
            Err(v) => r matches Err(e) && e@ == v,
        },
{
    let ghost base = map.pages_view();
    let mut j: usize = 0;
    while j < chapters.len()
        invariant
            j <= chapters.len(),
            base == old(map).pages_view(),
            chapters_inserted(base, rel@, chapters@, j as int) == Ok::<Seq<(Seq<char>, Seq<char>)>, SiteLinkErrorView>(
                map.pages_view(),
            ),
        decreases chapters.len() - j,
    {
        let chapter = &chapters[j];
        let path = match &chapter.path {
            Some(p) => Some(p.as_str()),
            None => None,
        };
        let source = match &chapter.source_path {
            Some(p) => Some(p.as_str()),
            None => None,
        };
        assert(opt_view(chapters@[j as int].path) == match path {
            Some(p) => Some(p@),
            None => None::<Seq<char>>,
        });
        assert(opt_view(chapters@[j as int].source_path) == match source {
            Some(p) => Some(p@),
            None => None::<Seq<char>>,
        });
        let ghost before = map.pages_view();
        let ghost step = chapter_insert(
            before,
            rel@,
            opt_view(chapters@[j as int].path),
            opt_view(chapters@[j as int].source_path),
        );
        assert(chapters_inserted(base, rel@, chapters@, j + 1) == step);
        match map.insert_chapter(rel, path, source) {
            Err(e) => {
                proof {
                    assert(step == Err::<Seq<(Seq<char>, Seq<char>)>, SiteLinkErrorView>(e@));
                    lemma_chapters_inserted_err(base, rel@, chapters@, j + 1, chapters.len() as int);
                }
                return Err(e);
            },
            Ok(()) => {},
        }
        j += 1;
    }
    Ok(())
}

/// Builds the link map from the books in catalog order and their loaded
/// chapters, pairing them up to the shorter list: every chapter of every
/// book is recorded; refused when a loaded book is not in catalog order or
/// a chapter cannot be recorded.
pub fn link_map_from_books(books: &Vec<LinkBook>, loaded: &Vec<crate::loader::LoadedBook>) -> (r: Result<
    SiteRootLinkMap,
    SiteLinkError,
>)
    ensures
        match books_linked(
            books@,
            loaded@,
            if books.len() < loaded.len() {
                books.len() as int
            } else {
                loaded.len() as int
            },
        ) {
            Ok(ps) => r matches Ok(m) && m.pages_view() == ps,
            Err(v) => r matches Err(e) && e@ == v,
        },
{
    let mut map = SiteRootLinkMap::new();
    let n = if books.len() < loaded.len() {
        books.len()
    } else {
        loaded.len()
    };
    assert(map.pages_view() =~= Seq::<(Seq<char>, Seq<char>)>::empty());
    let mut index: usize = 0;
    while index < n
        invariant
            index <= n,
            n == (if books.len() < loaded.len() {
                books.len()
            } else {
                loaded.len()
            }),
            books_linked(books@, loaded@, index as int) == Ok::<Seq<(Seq<char>, Seq<char>)>, SiteLinkErrorView>(
                map.pages_view(),
            ),
        decreases n - index,
    {
        let book = &books[index];
        let loaded_book = &loaded[index];
        if !str_eq(book.id.as_str(), loaded_book.book_id.as_str()) {
            proof {
                assert(books_linked(books@, loaded@, index + 1) == Err::<Seq<(Seq<char>, Seq<char>)>, SiteLinkErrorView>(
                    SiteLinkErrorView::BookOrderMismatch {
                        index,
                        catalog: books@[index as int].id@,
                        loaded: loaded@[index as int].book_id@,
                    },
                ));
                lemma_books_linked_err(books@, loaded@, index + 1, n as int);
            }
            return Err(
                SiteLinkError::BookOrderMismatch {
                    index,
                    catalog: copy_string(&book.id),
                    loaded: copy_string(&loaded_book.book_id),
                },
            );
        }
        let ghost base = map.pages_view();
        let ghost step = chapters_inserted(
            base,
            books@[index as int].output_rel@,
            loaded@[index as int].chapters@,
            loaded@[index as int].chapters.len() as int,
        );
        assert(books_linked(books@, loaded@, index + 1) == step);
        match insert_book_chapters(&mut map, book.output_rel.as_str(), &loaded_book.chapters) {
            Err(e) => {
                proof {
                    assert(step == Err::<Seq<(Seq<char>, Seq<char>)>, SiteLinkErrorView>(e@));
                    lemma_books_linked_err(books@, loaded@, index + 1, n as int);
                }
                return Err(e);
            },
            Ok(()) => {},
        }
        index += 1;
    }
    Ok(map)
}

/// Rewrites site-root links of the chapters of one book.
#[derive(Debug, Clone, PartialEq, Eq)]
pub struct SiteRootLinkPreprocessor {
    pub book_output_rel: String,
    pub link_map: SiteRootLinkMap,
}

/// The directory of a chapter's rendered page (empty when it has none).
pub open spec fn chapter_output_dir_spec(book_output_rel: Seq<char>, chapter_path: Seq<char>) -> Seq<char> {
    match parent_path(path_join(book_output_rel, with_extension_path(chapter_path, "html"@))) {
        Some(d) => d,
        None => Seq::empty(),
    }
}

/// The rewritten destination of a link in a chapter whose page is written
/// in `dir`: unchanged unless it is a site-root link; else the path
/// relative to `dir` of the site's index for `/`, of the page's output for
/// a Markdown page, or of the path itself, followed by the original query
/// and fragment.
pub open spec fn rewritten_destination(
    pages: Seq<(Seq<char>, Seq<char>)>,
    d: Seq<char>,
    dir: Seq<char>,
    chapter: Seq<char>,
) -> Result<Seq<char>, SiteLinkErrorView> {
    if !site_root_destination(d) {
        Ok(d)
    } else {
        let k = first_qh(d, 0);
        let path = d.take(k);
        let suffix = d.skip(k);
        match url_names(path.skip(1)) {
            None => Err(SiteLinkErrorView::InvalidLink { chapter, destination: d, path: path.skip(1) }),
            Some(ns) => {
                let norm = join_components(ns);
                let target = if norm.len() == 0 {
                    Ok("index.html"@)
                } else if markdown_page_path(norm) {
                    match output_for(pages, norm) {
                        None => Err(SiteLinkErrorView::UnresolvedPageLink { chapter, destination: d }),
                        Some(o) => Ok(o),
                    }
                } else {
                    Ok(norm)
                };
                match target {
                    Err(e) => Err(e),
                    Ok(t) => Ok(path_display(relative_path_spec(dir, t)) + suffix),
                }
            },
        }
    }
}

impl SiteRootLinkPreprocessor {
    /// A preprocessor for the book written to `book_output_rel`.
    pub fn new(book_output_rel: &str, link_map: SiteRootLinkMap) -> (r: Self)
        ensures
            r.book_output_rel@ == book_output_rel@,
            r.link_map == link_map,
    {
        SiteRootLinkPreprocessor { book_output_rel: string_from(book_output_rel), link_map }
    }

    /// The directory of a chapter's rendered page.
    pub fn chapter_output_dir(&self, chapter_path: &str) -> (r: String)
        ensures
            r@ == chapter_output_dir_spec(self.book_output_rel@, chapter_path@),
    {
        let html = with_extension(chapter_path, "html");
        match parent_of(join_path(self.book_output_rel.as_str(), html.as_str()).as_str()) {
            Some(d) => d,
            None => String::new(),
        }
    }

    /// Rewrites one link destination of the chapter `chapter_name`, whose
    /// page is written in `chapter_output_dir`.
    pub fn rewrite_destination(&self, destination: &str, chapter_output_dir: &str, chapter_name: &str) -> (r: Result<
        String,
        SiteLinkError,
    >)
        ensures
            match rewritten_destination(self.link_map.pages_view(), destination@, chapter_output_dir@, chapter_name@) {
                Ok(s) => r matches Ok(x) && x@ == s,
                Err(v) => r matches Err(e) && e@ == v,
            },
    {
        if !is_site_root_destination(destination) {
            return Ok(string_from(destination));
        }
        let (path_part, suffix) = split_destination_suffix(destination);
        proof {
            crate::shelf::site_links::lemma_first_qh_bounds(destination@, 0);
            assert(destination@[0] != '?' && destination@[0] != '#');
            if first_qh(destination@, 0) == 0 {
                assert(destination@[0] == '?' || destination@[0] == '#') by {
                    lemma_first_qh_hit(destination@, 0);
                }
            }
            assert(path_part@.len() > 0 && path_part@[0] == '/');
        }
        let normalized = match normalize_site_root_destination_path(path_part.as_str()) {
            Err(e) => {
                let p = string_of_range(&chars_of(path_part.as_str()), 1, path_part.as_str().unicode_len());
                assert(p@ =~= path_part@.skip(1));
                return Err(
                    SiteLinkError::InvalidLink {
                        chapter: string_from(chapter_name),
                        destination: string_from(destination),
                        path: p,
                    },
                );
            },
            Ok(n) => n,
        };
        let target = if normalized.as_str().unicode_len() == 0 {
            string_from("index.html")
        } else if is_markdown_page_path(normalized.as_str()) {
            match self.link_map.page_output_path(normalized.as_str()) {
                None => {
                    return Err(
                        SiteLinkError::UnresolvedPageLink {
                            chapter: string_from(chapter_name),
                            destination: string_from(destination),
                        },
                    );
                },
                Some(o) => copy_string(o),
            }
        } else {
            normalized
        };
        let mut rewritten = path_to_string(relative_path(chapter_output_dir, target.as_str()).as_str());
        rewritten.append(suffix.as_str());
        Ok(rewritten)
    }
}

proof fn lemma_first_qh_bounds(d: Seq<char>, i: int)
    requires
        0 <= i <= d.len(),
    ensures
        i <= first_qh(d, i) <= d.len(),
    decreases d.len() - i,
{
    if i < d.len() && !(d[i] == '?' || d[i] == '#') {
        lemma_first_qh_bounds(d, i + 1);
    }
}

proof fn lemma_first_qh_hit(d: Seq<char>, i: int)
    requires
        0 <= i < d.len(),
        first_qh(d, i) == i,
    ensures
        d[i] == '?' || d[i] == '#',
{
    if !(d[i] == '?' || d[i] == '#') {
        lemma_first_qh_bounds(d, i + 1);
    }
}

/// For each event that mdBook's Markdown parser (with its default options)
/// reports for `content`, in order: the destination of a link or image
/// start, none for any other event.
pub uninterp spec fn markdown_event_destinations(content: Seq<char>) -> Seq<Option<Seq<char>>>;

/// `content` parsed as `markdown_event_destinations` reads it, the
/// destination of each link or image start replaced by the entry at its
/// position in `dests` where that entry is given (a missing or empty entry
/// leaves it), and the events written back as Markdown; none when the
/// writer fails.
pub uninterp spec fn markdown_with_destinations(content: Seq<char>, dests: Seq<Option<Seq<char>>>) -> Option<
    Seq<char>,
>;

/// The destinations of the events of a chapter, from
/// `mdbook_markdown::new_cmark_parser` with `MarkdownOptions::default()`:
/// one entry per event, the `dest_url` of a link or image start, none for
/// any other event.
#[verifier::external_body]
fn event_destinations(content: &str) -> (r: Vec<Option<String>>)
    ensures
        r.deep_view() == markdown_event_destinations(content@),
{
    new_cmark_parser(content, &MarkdownOptions::default())
        .map(|event| match event {
            Event::Start(Tag::Link { dest_url, .. }) => Some(dest_url.to_string()),
            Event::Start(Tag::Image { dest_url, .. }) => Some(dest_url.to_string()),
            _ => None,
        })
        .collect()
}

/// The events of `mdbook_markdown::new_cmark_parser` (default options) with
/// the given link and image destinations put in, written back with
/// `pulldown_cmark_to_cmark::cmark` under that crate's
/// `SUPPORTED_PARSER_OPTIONS`; none when `cmark` returns an error.
#[verifier::external_body]
fn relinked_markdown(content: &str, dests: &Vec<Option<String>>) -> (r: Option<String>)
    ensures
        match r {
            Some(s) => markdown_with_destinations(content@, dests.deep_view()) == Some(s@),
            None => markdown_with_destinations(content@, dests.deep_view()) is None,
        },
{
    let events = new_cmark_parser(content, &MarkdownOptions::default()).enumerate().map(|(i, event)| {
        match (event, dests.get(i).cloned().flatten()) {
            (Event::Start(Tag::Link { link_type, title, id, .. }), Some(d)) =>
                Event::Start(Tag::Link { link_type, dest_url: d.into(), title, id }),
            (Event::Start(Tag::Image { link_type, title, id, .. }), Some(d)) =>
                Event::Start(Tag::Image { link_type, dest_url: d.into(), title, id }),
            (event, _) => event,
        }
    });
    let mut out = String::new();
    cmark(events, &mut out, SUPPORTED_PARSER_OPTIONS).ok().map(|_| out)
}

/// The rewritten destinations of the first `n` events, or the first
/// refusal: a link or image destination is rewritten as
/// `rewritten_destination` says, other events keep none.
pub open spec fn rewritten_event_destinations(
    pages: Seq<(Seq<char>, Seq<char>)>,
    ds: Seq<Option<Seq<char>>>,
    dir: Seq<char>,
    chapter: Seq<char>,
    n: int,
) -> Result<Seq<Option<Seq<char>>>, SiteLinkErrorView>
    decreases n,
{
    if n <= 0 {
        Ok(Seq::empty())
    } else {
        match rewritten_event_destinations(pages, ds, dir, chapter, n - 1) {
            Err(e) => Err(e),
            Ok(p) => match ds[n - 1] {
                None => Ok(p.push(None)),
                Some(d) => match rewritten_destination(pages, d, dir, chapter) {
                    Err(e) => Err(e),
                    Ok(x) => Ok(p.push(Some(x))),
                },
            },
        }
    }
}

proof fn lemma_rewritten_events_err(
    pages: Seq<(Seq<char>, Seq<char>)>,
    ds: Seq<Option<Seq<char>>>,
    dir: Seq<char>,
    chapter: Seq<char>,
    a: int,
    b: int,
)
    requires
        0 <= a <= b,
        rewritten_event_destinations(pages, ds, dir, chapter, a) is Err,
    ensures
        rewritten_event_destinations(pages, ds, dir, chapter, b) == rewritten_event_destinations(
            pages,
            ds,
            dir,
            chapter,
            a,
        ),
    decreases b - a,
{
    if a < b {
        lemma_rewritten_events_err(pages, ds, dir, chapter, a, b - 1);
    }
}

impl SiteRootLinkPreprocessor {
    /// Rewrites the site-root links and images of a chapter's Markdown: a
    /// chapter without a path is left as it is; otherwise every link and
    /// image destination is rewritten relative to the chapter's page and
    /// the Markdown written back (none when writing fails), or the first
    /// destination that cannot be rewritten is refused.
    pub fn rewrite_chapter_links(&self, content: &str, chapter_path: Option<&str>, chapter_name: &str) -> (r: Result<
        Option<String>,
        SiteLinkError,
    >)
        ensures
            match chapter_path {
                None => r matches Ok(Some(s)) && s@ == content@,
                Some(p) => match rewritten_event_destinations(
                    self.link_map.pages_view(),
                    markdown_event_destinations(content@),
                    chapter_output_dir_spec(self.book_output_rel@, p@),
                    chapter_name@,
                    markdown_event_destinations(content@).len() as int,
                ) {
                    Err(v) => r matches Err(e) && e@ == v,
                    Ok(ds) => r matches Ok(o) && match o {
                        Some(s) => markdown_with_destinations(content@, ds) == Some(s@),
                        None => markdown_with_destinations(content@, ds) is None,
                    },
                },
            },
    {
        let path = match chapter_path {
            None => {
                return Ok(Some(string_from(content)));
            },
            Some(p) => p,
        };
        let dir = self.chapter_output_dir(path);
        let ds = event_destinations(content);
        let ghost pages = self.link_map.pages_view();
        let ghost dsv = ds.deep_view();
        let mut out: Vec<Option<String>> = Vec::new();
        assert(out.deep_view() =~= Seq::<Option<Seq<char>>>::empty());
        let mut i: usize = 0;
        while i < ds.len()
            invariant
                i <= ds.len(),
                dsv == ds.deep_view(),
                dsv == markdown_event_destinations(content@),
                chapter_path == Some(path),
                dir@ == chapter_output_dir_spec(self.book_output_rel@, path@),
                pages == self.link_map.pages_view(),
                rewritten_event_destinations(pages, dsv, dir@, chapter_name@, i as int) == Ok::<
                    Seq<Option<Seq<char>>>,
                    SiteLinkErrorView,
                >(out.deep_view()),
            decreases ds.len() - i,
        {
            let ghost before = out.deep_view();
            assert(dsv[i as int] == ds@[i as int].deep_view());
            match &ds[i] {
                None => {
                    out.push(None);
                    assert(out.deep_view() =~= before.push(None));
                },
                Some(d) => {
                    match self.rewrite_destination(d.as_str(), dir.as_str(), chapter_name) {
                        Err(e) => {
                            proof {
                                lemma_rewritten_events_err(pages, dsv, dir@, chapter_name@, i + 1, dsv.len() as int);
                            }
                            return Err(e);
                        },
                        Ok(x) => {
                            let ghost xv = x@;
                            out.push(Some(x));
                            assert(out.deep_view() =~= before.push(Some(xv)));
                        },
                    }
                },
            }
            i += 1;
        }
        Ok(relinked_markdown(content, &out))
    }
}

/// The text that describes a refused site-root link or link map.
pub open spec fn site_link_error_text(e: &SiteLinkError) -> Seq<char> {
    match e {
        SiteLinkError::NotRooted { path } => "site-root Markdown link path '"@ + path@ + "' must start with '/'"@,
        SiteLinkError::EscapesSiteRoot { path } => "site-root Markdown link path '"@ + path@ + "' escapes site root"@,
        SiteLinkError::UnresolvedPageLink { chapter, destination } => "chapter '"@ + chapter@
            + "' contains unresolved site-root Markdown page link '"@ + destination@ + "'"@,
        SiteLinkError::InvalidLink { chapter, destination, path } => "chapter '"@ + chapter@
            + "' contains invalid site-root Markdown link '"@ + destination@ + "': site-root Markdown link path '"@
            + path@ + "' escapes site root"@,
        SiteLinkError::ConflictingPage { source, existing, output } => "site-root Markdown source path '"@ + source@
            + "' maps to both '"@ + existing@ + "' and '"@ + output@ + "'"@,
        SiteLinkError::BookOrderMismatch { index, catalog, loaded } =>
            "site-root Markdown link map book order mismatch at index "@ + decimal(*index as nat) + ": catalog='"@
            + catalog@ + "' loaded='"@ + loaded@ + "'"@,
    }
}

impl SiteLinkError {
    /// The text that describes the error, for reports.
    pub fn message(&self) -> (r: String)
        ensures
            r@ == site_link_error_text(self),
    {
        match self {
            SiteLinkError::NotRooted { path } => {
                let mut s = string_from("site-root Markdown link path '");
                s.append(path.as_str());
                s.append("' must start with '/'");
                s
            },
            SiteLinkError::EscapesSiteRoot { path } => {
                let mut s = string_from("site-root Markdown link path '");
                s.append(path.as_str());
                s.append("' escapes site root");
                s
            },
            SiteLinkError::UnresolvedPageLink { chapter, destination } => {
                let mut s = string_from("chapter '");
                s.append(chapter.as_str());
                s.append("' contains unresolved site-root Markdown page link '");
                s.append(destination.as_str());
                s.append("'");
                s
            },
            SiteLinkError::InvalidLink { chapter, destination, path } => {
                let mut s = string_from("chapter '");
                s.append(chapter.as_str());
                s.append("' contains invalid site-root Markdown link '");
                s.append(destination.as_str());
                s.append("': site-root Markdown link path '");
                s.append(path.as_str());
                s.append("' escapes site root");
                s
            },
            SiteLinkError::ConflictingPage { source, existing, output } => {
                let mut s = string_from("site-root Markdown source path '");
                s.append(source.as_str());
                s.append("' maps to both '");
                s.append(existing.as_str());
                s.append("' and '");
                s.append(output.as_str());
                s.append("'");
                s
            },
            SiteLinkError::BookOrderMismatch { index, catalog, loaded } => {
                let mut s = string_from("site-root Markdown link map book order mismatch at index ");
                s.append(format_decimal(*index).as_str());
                s.append(": catalog='");
                s.append(catalog.as_str());
                s.append("' loaded='");
                s.append(loaded.as_str());
                s.append("'");
                s
            },
        }
    }
}

} // verus!
