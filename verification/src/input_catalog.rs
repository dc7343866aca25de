//! The input catalog: every configured book with the content root that its
//! canonical `SUMMARY.md` names.
use vstd::prelude::*;
use crate::numbers::decimal;
use crate::numbers::format_decimal;
use crate::text::string_from;
use crate::paths::{components, file_stem_chars, file_stem_of, is_absolute, is_normal_component, join_path, parent_of, parent_path, path_components, path_join, is_root, is_dot_or_dotdot};
use crate::text::{chars_of, find_char, find_from, lemma_find_from, lines_of, push_char, split_lines, string_of, str_eq, trim_bounds, trim_chars, trimmed};

verus! {

/// Why the input catalog could not be loaded.
#[derive(Debug)]
pub enum LoadInputCatalogError {
    MissingConfig { path: String },
    ConfigIo { path: String, message: String },
    MissingBookshelfSection { path: String },
    MissingRootBook { path: String },
    InvalidConfig { path: String, line: usize, message: String },
    DuplicateBookId { book_id: String },
    MissingSummary { book_id: String },
    SummaryIo { book_id: String, summary_path: String, message: String },
    EmptySummary { book_id: String, summary_path: String },
    RootBookNotConfigured { root_book_id: String },
    AuthoredBookshelfEntry { book_id: String, summary_path: String, line: usize },
}

/// The catalog of input books.
#[derive(Debug)]
pub struct InputCatalog {
    pub config_path: String,
    pub root_book: String,
    pub books: Vec<InputBook>,
}

/// One input book.
#[derive(Debug)]
pub struct InputBook {
    pub id: String,
    pub title: String,
    pub description: Option<String>,
    pub summary_path: String,
    pub content_root: String,
}

/// The Markdown links `[title](target)` of `s[i..]`, read left to right;
/// a label not followed by `(` is skipped, and links whose trimmed title or
/// target is empty are left out.
pub open spec fn links_from(s: Seq<char>, i: int) -> Seq<(Seq<char>, Seq<char>)>
    decreases s.len() - i,
{
    if i < 0 || i >= s.len() {
        Seq::empty()
    } else {
        match find_from(s, '[', i) {
            None => Seq::empty(),
            Some(ol) => match find_from(s, ']', ol + 1) {
                None => Seq::empty(),
                Some(cl) => if !(i <= ol && ol < cl && cl < s.len()) {
                    Seq::empty()
                } else if cl + 1 >= s.len() || s[cl + 1] != '(' {
                    links_from(s, cl + 1)
                } else {
                    match find_from(s, ')', cl + 2) {
                        None => Seq::empty(),
                        Some(ct) => if !(cl + 1 < ct && ct < s.len()) {
                            Seq::empty()
                        } else {
                            let title = trimmed(s.subrange(ol + 1, cl));
                            let target = trimmed(s.subrange(cl + 2, ct));
                            let rest = links_from(s, ct + 1);
                            if title.len() > 0 && target.len() > 0 {
                                seq![(title, target)] + rest
                            } else {
                                rest
                            }
                        },
                    }
                },
            },
        }
    }
}

/// The Markdown links of one line, as (title, target) pairs.
pub fn extract_links(line: &str) -> (links: Vec<(String, String)>)
    ensures
        links@.len() == links_from(line@, 0).len(),
        forall|k: int|
            0 <= k < links@.len() ==> (#[trigger] links@[k]).0@ == links_from(line@, 0)[k].0
                && links@[k].1@ == links_from(line@, 0)[k].1,
{
    let s = chars_of(line);
    let ghost all = links_from(s@, 0);
    let mut links: Vec<(String, String)> = Vec::new();
    let mut index: usize = 0;
    while index < s.len()
        invariant
            index <= s.len(),
            s@ == line@,
            all == links_from(s@, 0),
            all == link_views(links@) + links_from(s@, index as int),
        decreases s.len() - index,
    {
        proof {
            lemma_find_from(s@, '[', index as int);
        }
        let open_label = match find_char(&s, '[', index) {
            Some(p) => p,
            None => {
                assert(link_views(links@) + Seq::<(Seq<char>, Seq<char>)>::empty() =~= link_views(links@));
                return links;
            },
        };
        proof {
            lemma_find_from(s@, ']', open_label + 1);
        }
        let close_label = match find_char(&s, ']', open_label + 1) {
            Some(p) => p,
            None => {
                assert(link_views(links@) + Seq::<(Seq<char>, Seq<char>)>::empty() =~= link_views(links@));
                return links;
            },
        };
        let open_target = close_label + 1;
        if open_target >= s.len() || s[open_target] != '(' {
            index = close_label + 1;
            continue;
        }
        proof {
            lemma_find_from(s@, ')', open_target + 1);
        }
        let close_target = match find_char(&s, ')', open_target + 1) {
            Some(p) => p,
            None => {
                assert(link_views(links@) + Seq::<(Seq<char>, Seq<char>)>::empty() =~= link_views(links@));
                return links;
            },
        };
        let (ta, tb) = trim_bounds(&s, open_label + 1, close_label);
        let (ga, gb) = trim_bounds(&s, open_target + 1, close_target);
        if ta < tb && ga < gb {
            let title = crate::text::string_of_range(&s, ta, tb);
            let target = crate::text::string_of_range(&s, ga, gb);
            let ghost before = links@;
            links.push((title, target));
            proof {
                assert(link_views(links@) =~= link_views(before).push((title@, target@)));
                assert(link_views(before).push((title@, target@)) + links_from(s@, close_target + 1)
                    =~= link_views(before) + (seq![(title@, target@)] + links_from(s@, close_target + 1)));
            }
        }
        index = close_target + 1;
    }
    assert(link_views(links@) + Seq::<(Seq<char>, Seq<char>)>::empty() =~= link_views(links@));
    links
}

/// The (title, target) views of a list of links.
pub open spec fn link_views(links: Seq<(String, String)>) -> Seq<(Seq<char>, Seq<char>)> {
    Seq::new(links.len(), |k: int| (links[k].0@, links[k].1@))
}


/// A link target without its `#fragment` or `?query`, trimmed.
pub open spec fn stripped_target(target: Seq<char>) -> Seq<char> {
    let h = find_from(target, '#', 0);
    let q = find_from(target, '?', 0);
    let end = match (h, q) {
        (Some(a), Some(b)) => if a < b { a } else { b },
        (Some(a), None) => a,
        (None, Some(b)) => b,
        (None, None) => target.len() as int,
    };
    trimmed(target.take(end))
}

/// The part of a link target before its fragment or query, trimmed.
pub fn strip_fragment(target: &str) -> (stripped: String)
    ensures
        stripped@ == stripped_target(target@),
{
    let v = chars_of(target);
    let mut end: usize = 0;
    while end < v.len() && v[end] != '#' && v[end] != '?'
        invariant
            end <= v.len(),
            forall|k: int| 0 <= k < end ==> v@[k] != '#' && v@[k] != '?',
        decreases v.len() - end,
    {
        end += 1;
    }
    proof {
        lemma_find_from(v@, '#', 0);
        lemma_find_from(v@, '?', 0);
    }
    let (a, b) = trim_bounds(&v, 0, end);
    assert(v@.subrange(0, end as int) =~= v@.take(end as int));
    crate::text::string_of_range(&v, a, b)
}

/// Whether a summary link is an authored Bookshelf entry: titled
/// `Bookshelf`, or pointing at a file whose stem is `bookshelf`.
pub open spec fn is_bookshelf_link(title: Seq<char>, target: Seq<char>) -> bool {
    trimmed(title) == "Bookshelf"@ || {
        let cs = components(stripped_target(target));
        cs.len() > 0 && is_normal_component(cs.last()) && file_stem_of(cs.last())
            == "bookshelf"@
    }
}

/// Whether a summary link is an authored Bookshelf entry.
pub fn is_bookshelf_entry(title: &str, target: &str) -> (r: bool)
    ensures
        r == is_bookshelf_link(title@, target@),
{
    let tv = chars_of(title);
    let (a, b) = trim_bounds(&tv, 0, tv.len());
    assert(tv@.subrange(0, tv.len() as int) =~= tv@);
    let trimmed_title = crate::text::string_of_range(&tv, a, b);
    if str_eq(trimmed_title.as_str(), "Bookshelf") {
        return true;
    }
    let stripped = strip_fragment(target);
    let sv = chars_of(stripped.as_str());
    let cs = path_components(&sv);
    let n = cs.len();
    if n == 0 {
        return false;
    }
    let (dot, dotdot) = is_dot_or_dotdot(&cs[n - 1]);
    if is_root(&cs[n - 1]) || dot || dotdot {
        return false;
    }
    let name = chars_of(cs[n - 1].as_str());
    let stem = file_stem_chars(&name);
    let stem_string = string_of(&stem);
    str_eq(stem_string.as_str(), "bookshelf")
}

/// `raw` read from `base_dir`: an absolute path stays, a relative one is
/// joined to the directory.
pub open spec fn resolved_path(base_dir: Seq<char>, raw: Seq<char>) -> Seq<char> {
    if raw.len() > 0 && raw[0] == '/' {
        raw
    } else {
        path_join(base_dir, raw)
    }
}

/// Resolves `raw_path` against `base_dir`.
pub fn resolve_path(base_dir: &str, raw_path: &str) -> (r: String)
    ensures
        r@ == resolved_path(base_dir@, raw_path@),
{
    if is_absolute(raw_path) {
        let v = chars_of(raw_path);
        string_of(&v)
    } else {
        join_path(base_dir, raw_path)
    }
}

/// Whether one of the links of `line` is an authored Bookshelf entry.
pub open spec fn line_has_bookshelf_entry(line: Seq<char>) -> bool {
    exists|k: int|
        0 <= k < links_from(line, 0).len() && is_bookshelf_link(
            #[trigger] links_from(line, 0)[k].0,
            links_from(line, 0)[k].1,
        )
}

/// The first line, from `j` on, with an authored Bookshelf entry.
pub open spec fn first_entry_line(ls: Seq<Seq<char>>, j: int) -> Option<int>
    decreases ls.len() - j,
{
    if j < 0 || j >= ls.len() {
        None
    } else if line_has_bookshelf_entry(ls[j]) {
        Some(j)
    } else {
        first_entry_line(ls, j + 1)
    }
}

/// The target of the first link, from line `j` on.
pub open spec fn first_link_target(ls: Seq<Seq<char>>, j: int) -> Option<Seq<char>>
    decreases ls.len() - j,
{
    if j < 0 || j >= ls.len() {
        None
    } else if links_from(ls[j], 0).len() > 0 {
        Some(links_from(ls[j], 0)[0].1)
    } else {
        first_link_target(ls, j + 1)
    }
}

/// The directory of a summary file (`.` when it has no parent).
pub open spec fn summary_dir(summary_path: Seq<char>) -> Seq<char> {
    match parent_path(summary_path) {
        Some(p) => p,
        None => seq!['.'],
    }
}

proof fn lemma_first_entry_skip(ls: Seq<Seq<char>>, a: int, b: int)
    requires
        0 <= a <= b,
        forall|k: int| a <= k < b && k < ls.len() ==> !line_has_bookshelf_entry(#[trigger] ls[k]),
    ensures
        first_entry_line(ls, a) == first_entry_line(ls, b),
    decreases b - a,
{
    if a < b && a < ls.len() {
        lemma_first_entry_skip(ls, a + 1, b);
    }
}

proof fn lemma_first_target_skip(ls: Seq<Seq<char>>, a: int, b: int)
    requires
        0 <= a <= b,
        forall|k: int| a <= k < b && k < ls.len() ==> links_from(#[trigger] ls[k], 0).len() == 0,
    ensures
        first_link_target(ls, a) == first_link_target(ls, b),
    decreases b - a,
{
    if a < b && a < ls.len() {
        lemma_first_target_skip(ls, a + 1, b);
    }
}

proof fn lemma_first_target_found(ls: Seq<Seq<char>>, a: int, b: int)
    requires
        0 <= a <= b < ls.len(),
        forall|k: int| a <= k < b ==> links_from(#[trigger] ls[k], 0).len() == 0,
        links_from(ls[b], 0).len() > 0,
    ensures
        first_link_target(ls, a) == Some(links_from(ls[b], 0)[0].1),
    decreases b - a,
{
    if a < b {
        lemma_first_target_found(ls, a + 1, b);
    }
}

/// Derives a book's content root from its canonical summary: the first
/// linked chapter, read from the summary's directory. A summary that authors
/// a Bookshelf entry, or links nothing, is refused.
pub fn parse_summary_root(book_id: &str, summary_path: &str, summary_contents: &str) -> (r: Result<
    String,
    LoadInputCatalogError,
>)
    ensures
        match first_entry_line(lines_of(summary_contents@), 0) {
            Some(j) => match r {
                Err(LoadInputCatalogError::AuthoredBookshelfEntry { book_id: b, summary_path: p, line }) =>
                    b@ == book_id@ && p@ == summary_path@ && line == j + 1,
                _ => false,
            },
            None => match first_link_target(lines_of(summary_contents@), 0) {
                None => match r {
                    Err(LoadInputCatalogError::EmptySummary { book_id: b, summary_path: p }) =>
                        b@ == book_id@ && p@ == summary_path@,
                    _ => false,
                },
                Some(target) => match r {
                    Ok(root) => root@ == resolved_path(summary_dir(summary_path@), stripped_target(target)),
                    _ => false,
                },
            },
        },
{
    let contents = chars_of(summary_contents);
    let lines = split_lines(&contents);
    let ghost ls = lines.deep_view();
    let mut first: Option<String> = None;
    let mut index: usize = 0;
    while index < lines.len()
        invariant
            index <= lines.len(),
            ls == lines.deep_view(),
            ls == lines_of(summary_contents@),
            forall|k: int| 0 <= k < index ==> !line_has_bookshelf_entry(#[trigger] ls[k]),
            match first {
                None => forall|k: int| 0 <= k < index ==> links_from(#[trigger] ls[k], 0).len() == 0,
                Some(t) => first_link_target(ls, 0) == Some(t@),
            },
        decreases lines.len() - index,
    {
        assert(lines[index as int]@ =~= ls[index as int]);
        let line = string_of(&lines[index]);
        let links = extract_links(line.as_str());
        let mut k: usize = 0;
        while k < links.len()
            invariant
                k <= links.len(),
                index < lines.len(),
                ls == lines.deep_view(),
                ls == lines_of(summary_contents@),
                forall|j: int| 0 <= j < index ==> !line_has_bookshelf_entry(#[trigger] ls[j]),
                links@.len() == links_from(ls[index as int], 0).len(),
                line@ == ls[index as int],
                forall|j: int|
                    0 <= j < links@.len() ==> (#[trigger] links@[j]).0@ == links_from(line@, 0)[j].0
                        && links@[j].1@ == links_from(line@, 0)[j].1,
                forall|j: int|
                    0 <= j < k ==> !is_bookshelf_link(
                        #[trigger] links_from(ls[index as int], 0)[j].0,
                        links_from(ls[index as int], 0)[j].1,
                    ),
            decreases links.len() - k,
        {
            if is_bookshelf_entry(links[k].0.as_str(), links[k].1.as_str()) {
                proof {
                    lemma_first_entry_skip(ls, 0, index as int);
                    assert(is_bookshelf_link(
                        links_from(ls[index as int], 0)[k as int].0,
                        links_from(ls[index as int], 0)[k as int].1,
                    ));
                    assert(line_has_bookshelf_entry(ls[index as int]));
                    assert(first_entry_line(ls, index as int) == Some(index as int));
                }
                return Err(
                    LoadInputCatalogError::AuthoredBookshelfEntry {
                        book_id: string_of(&chars_of(book_id)),
                        summary_path: string_of(&chars_of(summary_path)),
                        line: index + 1,
                    },
                );
            }
            k += 1;
        }
        if first.is_none() && links.len() > 0 {
            proof {
                lemma_first_target_found(ls, 0, index as int);
            }
            let t = string_of(&chars_of(links[0].1.as_str()));
            first = Some(t);
        }
        index += 1;
    }
    proof {
        lemma_first_entry_skip(ls, 0, lines.len() as int);
    }
    match first {
        None => {
            proof {
                lemma_first_target_skip(ls, 0, lines.len() as int);
            }
            Err(
                LoadInputCatalogError::EmptySummary {
                    book_id: string_of(&chars_of(book_id)),
                    summary_path: string_of(&chars_of(summary_path)),
                },
            )
        },
        Some(target) => {
            let dir = match parent_of(summary_path) {
                Some(p) => p,
                None => {
                    let mut d = String::new();
                    push_char(&mut d, '.');
                    assert(d@ =~= seq!['.']);
                    d
                },
            };
            let stripped = strip_fragment(target.as_str());
            Ok(resolve_path(dir.as_str(), stripped.as_str()))
        },
    }
}

/// The text that describes the error.
pub open spec fn load_error_text(e: &LoadInputCatalogError) -> Seq<char> {
    match e {
        LoadInputCatalogError::MissingConfig { path } => "missing bookshelf config at "@ + path@,
        LoadInputCatalogError::ConfigIo { path, message } => "failed to read bookshelf config "@ + path@ + ": "@ + message@,
        LoadInputCatalogError::MissingBookshelfSection { path } => "missing `[bookshelf]` section in "@ + path@,
        LoadInputCatalogError::MissingRootBook { path } => "missing `bookshelf.root_book` in "@ + path@,
        LoadInputCatalogError::InvalidConfig { path, line, message } => "invalid config "@ + path@ + ":"@ + decimal(*line as nat) + ": "@ + message@,
        LoadInputCatalogError::DuplicateBookId { book_id } => "duplicate bookshelf book id `"@ + book_id@ + "`"@,
        LoadInputCatalogError::MissingSummary { book_id } => "missing `summary` for bookshelf book `"@ + book_id@ + "`"@,
        LoadInputCatalogError::SummaryIo { book_id, summary_path, message } => "failed to read SUMMARY.md for `"@ + book_id@ + "` at "@ + summary_path@ + ": "@ + message@,
        LoadInputCatalogError::EmptySummary { book_id, summary_path } => "canonical SUMMARY.md for `"@ + book_id@ + "` at "@ + summary_path@ + " is empty or has no chapter links"@,
        LoadInputCatalogError::RootBookNotConfigured { root_book_id } => "configured root_book `"@ + root_book_id@ + "` is not present in `[[bookshelf.book]]`"@,
        LoadInputCatalogError::AuthoredBookshelfEntry { book_id, summary_path, line } => "canonical SUMMARY.md for `"@ + book_id@ + "` at "@ + summary_path@ + " authors a forbidden `Bookshelf` entry on line "@ + decimal(*line as nat),
    }
}

impl LoadInputCatalogError {
    /// The text that describes the error, for reports.
    pub fn message(&self) -> (r: String)
        ensures
            r@ == load_error_text(self),
    {
        match self {
            LoadInputCatalogError::MissingConfig { path } => {
                let mut s = string_from("missing bookshelf config at ");
                s.append(path.as_str());
                s
            },
            LoadInputCatalogError::ConfigIo { path, message } => {
                let mut s = string_from("failed to read bookshelf config ");
                s.append(path.as_str());
                s.append(": ");
                s.append(message.as_str());
                s
            },
            LoadInputCatalogError::MissingBookshelfSection { path } => {
                let mut s = string_from("missing `[bookshelf]` section in ");
                s.append(path.as_str());
                s
            },
            LoadInputCatalogError::MissingRootBook { path } => {
                let mut s = string_from("missing `bookshelf.root_book` in ");
                s.append(path.as_str());
                s
            },
            LoadInputCatalogError::InvalidConfig { path, line, message } => {
                let mut s = string_from("invalid config ");
                s.append(path.as_str());
                s.append(":");
                s.append(format_decimal(*line).as_str());
                s.append(": ");
                s.append(message.as_str());
                s
            },
            LoadInputCatalogError::DuplicateBookId { book_id } => {
                let mut s = string_from("duplicate bookshelf book id `");
                s.append(book_id.as_str());
                s.append("`");
                s
            },
            LoadInputCatalogError::MissingSummary { book_id } => {
                let mut s = string_from("missing `summary` for bookshelf book `");
                s.append(book_id.as_str());
                s.append("`");
                s
            },
            LoadInputCatalogError::SummaryIo { book_id, summary_path, message } => {
                let mut s = string_from("failed to read SUMMARY.md for `");
                s.append(book_id.as_str());
                s.append("` at ");
                s.append(summary_path.as_str());
                s.append(": ");
                s.append(message.as_str());
                s
            },
            LoadInputCatalogError::EmptySummary { book_id, summary_path } => {
                let mut s = string_from("canonical SUMMARY.md for `");
                s.append(book_id.as_str());
                s.append("` at ");
                s.append(summary_path.as_str());
                s.append(" is empty or has no chapter links");
                s
            },
            LoadInputCatalogError::RootBookNotConfigured { root_book_id } => {
                let mut s = string_from("configured root_book `");
                s.append(root_book_id.as_str());
                s.append("` is not present in `[[bookshelf.book]]`");
                s
            },
            LoadInputCatalogError::AuthoredBookshelfEntry { book_id, summary_path, line } => {
                let mut s = string_from("canonical SUMMARY.md for `");
                s.append(book_id.as_str());
                s.append("` at ");
                s.append(summary_path.as_str());
                s.append(" authors a forbidden `Bookshelf` entry on line ");
                s.append(format_decimal(*line).as_str());
                s
            },
        }
    }
}

/// Refuses a book id that an earlier book of the configuration already
/// has.
pub fn check_new_book_id(seen: &Vec<String>, book_id: &str) -> (r: Result<(), LoadInputCatalogError>)
    ensures
        seen@.map_values(|s: String| s@).contains(book_id@) ==> (r matches Err(
            LoadInputCatalogError::DuplicateBookId { book_id: b },
        ) && b@ == book_id@),
        !seen@.map_values(|s: String| s@).contains(book_id@) ==> r is Ok,
{
    let ghost ids = seen@.map_values(|s: String| s@);
    let mut i: usize = 0;
    while i < seen.len()
        invariant
            i <= seen.len(),
            ids == seen@.map_values(|s: String| s@),
            forall|j: int| 0 <= j < i ==> ids[j] != book_id@,
        decreases seen.len() - i,
    {
        if str_eq(seen[i].as_str(), book_id) {
            assert(ids[i as int] == book_id@);
            return Err(LoadInputCatalogError::DuplicateBookId { book_id: string_from(book_id) });
        }
        i += 1;
    }
    Ok(())
}

/// A book's summary path as configured, trimmed; refused when nothing is
/// left.
pub fn summary_entry(book_id: &str, summary: &str) -> (r: Result<String, LoadInputCatalogError>)
    ensures
        trimmed(summary@).len() == 0 ==> (r matches Err(LoadInputCatalogError::MissingSummary { book_id: b })
            && b@ == book_id@),
        trimmed(summary@).len() > 0 ==> (r matches Ok(s) && s@ == trimmed(summary@)),
{
    let t = trim_chars(&chars_of(summary));
    if t.len() == 0 {
        return Err(LoadInputCatalogError::MissingSummary { book_id: string_from(book_id) });
    }
    Ok(string_of(&t))
}

/// A configured book with the content root that its summary names.
pub fn input_book(
    book_id: &str,
    title: &str,
    description: Option<&str>,
    summary_path: &str,
    summary_contents: &str,
) -> (r: Result<InputBook, LoadInputCatalogError>)
    ensures
        match first_entry_line(lines_of(summary_contents@), 0) {
            Some(j) => match r {
                Err(LoadInputCatalogError::AuthoredBookshelfEntry { book_id: b, summary_path: p, line }) =>
                    b@ == book_id@ && p@ == summary_path@ && line == j + 1,
                _ => false,
            },
            None => match first_link_target(lines_of(summary_contents@), 0) {
                None => match r {
                    Err(LoadInputCatalogError::EmptySummary { book_id: b, summary_path: p }) =>
                        b@ == book_id@ && p@ == summary_path@,
                    _ => false,
                },
                Some(target) => match r {
                    Ok(book) => book.content_root@ == resolved_path(summary_dir(summary_path@), stripped_target(target))
                        && book.id@ == book_id@ && book.title@ == title@ && book.summary_path@ == summary_path@
                        && match (book.description, description) {
                        (Some(a), Some(b)) => a@ == b@,
                        (None, None) => true,
                        _ => false,
                    },
                    _ => false,
                },
            },
        },
{
    let content_root = match parse_summary_root(book_id, summary_path, summary_contents) {
        Err(e) => {
            return Err(e);
        },
        Ok(root) => root,
    };
    Ok(
        InputBook {
            id: string_from(book_id),
            title: string_from(title),
            description: match description {
                Some(d) => Some(string_from(d)),
                None => None,
            },
            summary_path: string_from(summary_path),
            content_root,
        },
    )
}

/// The catalog of the loaded books; refused when none of them is the
/// configured root book.
pub fn finish_input_catalog(config_path: &str, root_book: &str, books: Vec<InputBook>) -> (r: Result<
    InputCatalog,
    LoadInputCatalogError,
>)
    ensures
        (exists|i: int| 0 <= i < books.len() && (#[trigger] books@[i]).id@ == root_book@) ==> (r matches Ok(c)
            && c.config_path@ == config_path@ && c.root_book@ == root_book@ && c.books@ == books@),
        !(exists|i: int| 0 <= i < books.len() && (#[trigger] books@[i]).id@ == root_book@) ==> (r matches Err(
            LoadInputCatalogError::RootBookNotConfigured { root_book_id },
        ) && root_book_id@ == root_book@),
{
    let mut i: usize = 0;
    let mut found = false;
    while i < books.len()
        invariant
            i <= books.len(),
            found == exists|j: int| 0 <= j < i && (#[trigger] books@[j]).id@ == root_book@,
        decreases books.len() - i,
    {
        if str_eq(books[i].id.as_str(), root_book) {
            found = true;
        }
        i += 1;
    }
    if !found {
        return Err(LoadInputCatalogError::RootBookNotConfigured { root_book_id: string_from(root_book) });
    }
    Ok(InputCatalog { config_path: string_from(config_path), root_book: string_from(root_book), books })
}

} // verus!
