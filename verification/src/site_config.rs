//! The site builder's configuration file: a small TOML subset with a
//! `[bookshelf]` table naming the root book and one `[[bookshelf.book]]`
//! table per book, each value a quoted string.
use vstd::prelude::*;
use crate::paths::{
    components, cur_component, drop_markers, join_components, parent_component, parent_path, path_components,
    path_join, render_components,
};
use crate::paths::{is_dot_or_dotdot, join_path, parent_of};
use crate::text::{
    chars_of, copy_opt, copy_string, find_from, lines_of, opt_view, split_lines, str_eq, string_from,
    string_of, string_of_range, trim_chars, trimmed,
};

verus! {

/// The configuration of a bookshelf site.
#[derive(Debug, Clone, PartialEq, Eq)]
pub struct BookshelfConfig {
    pub config_path: String,
    pub config_dir: String,
    pub root_book: String,
    pub books: Vec<BookshelfBook>,
}

/// One configured book.
#[derive(Debug, Clone, PartialEq, Eq)]
pub struct BookshelfBook {
    pub id: String,
    pub title: String,
    pub description: Option<String>,
    pub summary_rel: String,
    pub summary_abs: String,
    pub book_root: String,
    pub book_src: String,
}

/// A book table as read: each key if it was given.
#[derive(Debug, Clone, PartialEq, Eq)]
pub struct RawBook {
    pub id: Option<String>,
    pub title: Option<String>,
    pub description: Option<String>,
    pub summary: Option<String>,
}

/// The configuration as read, before validation.
#[derive(Debug, Clone, PartialEq, Eq)]
pub struct RawConfig {
    pub root_book: Option<String>,
    pub books: Vec<RawBook>,
}

/// The table that the lines being read belong to.
#[derive(Debug, Clone, Copy, PartialEq, Eq, Structural)]
pub enum Section {
    Other,
    Bookshelf,
    BookshelfBook,
}

/// Why a configuration is refused.
#[derive(Debug, Clone, PartialEq, Eq)]
pub enum ConfigTextError {
    /// A line is neither a table header nor `key = value`.
    ExpectedKeyValue { line: usize },
    /// A value is not a quoted string.
    UnquotedValue { line: usize, key: String },
    /// A book key appeared without a book table being open.
    InternalParserState { line: usize },
    /// `bookshelf.root_book` is missing.
    MissingRootBook,
    /// No book is configured.
    EmptyCatalog,
    /// A required key of a book is missing.
    MissingKey { key: String },
    /// Two books have the same id.
    DuplicateId { id: String },
    /// A summary path is absolute.
    SummaryNotRelative { book_id: String, raw: String },
    /// A summary path does not end with `SUMMARY.md`.
    SummaryNotNamedSummary { book_id: String, raw: String },
    /// A summary path holds `.` or `..`.
    SummaryDotComponent { book_id: String, raw: String },
    /// A summary path has no source directory before `SUMMARY.md`.
    SummaryWithoutSourceDir { book_id: String, raw: String },
    /// The root book is not one of the configured books.
    RootBookNotDeclared { root_book: String },
}

/// A configuration error as plain values.
pub enum ConfigTextErrorView {
    ExpectedKeyValue { line: usize },
    UnquotedValue { line: usize, key: Seq<char> },
    InternalParserState { line: usize },
    MissingRootBook,
    EmptyCatalog,
    MissingKey { key: Seq<char> },
    DuplicateId { id: Seq<char> },
    SummaryNotRelative { book_id: Seq<char>, raw: Seq<char> },
    SummaryNotNamedSummary { book_id: Seq<char>, raw: Seq<char> },
    SummaryDotComponent { book_id: Seq<char>, raw: Seq<char> },
    SummaryWithoutSourceDir { book_id: Seq<char>, raw: Seq<char> },
    RootBookNotDeclared { root_book: Seq<char> },
}

impl View for ConfigTextError {
    type V = ConfigTextErrorView;

    open spec fn view(&self) -> ConfigTextErrorView {
        match self {
            ConfigTextError::ExpectedKeyValue { line } => ConfigTextErrorView::ExpectedKeyValue { line: *line },
            ConfigTextError::UnquotedValue { line, key } => ConfigTextErrorView::UnquotedValue {
                line: *line,
                key: key@,
            },
            ConfigTextError::InternalParserState { line } =>
                ConfigTextErrorView::InternalParserState { line: *line },
            ConfigTextError::MissingRootBook => ConfigTextErrorView::MissingRootBook,
            ConfigTextError::EmptyCatalog => ConfigTextErrorView::EmptyCatalog,
            ConfigTextError::MissingKey { key } => ConfigTextErrorView::MissingKey { key: key@ },
            ConfigTextError::DuplicateId { id } => ConfigTextErrorView::DuplicateId { id: id@ },
            ConfigTextError::SummaryNotRelative { book_id, raw } => ConfigTextErrorView::SummaryNotRelative {
                book_id: book_id@,
                raw: raw@,
            },
            ConfigTextError::SummaryNotNamedSummary { book_id, raw } =>
                ConfigTextErrorView::SummaryNotNamedSummary { book_id: book_id@, raw: raw@ },
            ConfigTextError::SummaryDotComponent { book_id, raw } =>
                ConfigTextErrorView::SummaryDotComponent { book_id: book_id@, raw: raw@ },
            ConfigTextError::SummaryWithoutSourceDir { book_id, raw } =>
                ConfigTextErrorView::SummaryWithoutSourceDir { book_id: book_id@, raw: raw@ },
            ConfigTextError::RootBookNotDeclared { root_book } =>
                ConfigTextErrorView::RootBookNotDeclared { root_book: root_book@ },
        }
    }
}

/// The table a header line opens, if the line is a header.
pub open spec fn section_of(line: Seq<char>) -> Option<Section> {
    if line == "[bookshelf]"@ {
        Some(Section::Bookshelf)
    } else if line == "[[bookshelf.book]]"@ {
        Some(Section::BookshelfBook)
    } else if line.len() > 0 && line[0] == '[' && line.last() == ']' {
        Some(Section::Other)
    } else {
        None
    }
}

/// The table that a header line opens, if the line is a header.
pub fn parse_section(line: &str) -> (r: Option<Section>)
    ensures
        r == section_of(line@),
{
    if str_eq(line, "[bookshelf]") {
        return Some(Section::Bookshelf);
    }
    if str_eq(line, "[[bookshelf.book]]") {
        return Some(Section::BookshelfBook);
    }
    let cs = chars_of(line);
    if cs.len() > 0 && cs[0] == '[' && cs[cs.len() - 1] == ']' {
        return Some(Section::Other);
    }
    None
}

/// The key and the unquoted value of a `key = "value"` line (the key and
/// value trimmed around the first `=`), or why the line is refused.
pub open spec fn key_value_of(line: Seq<char>, line_number: usize) -> Result<(Seq<char>, Seq<char>), ConfigTextErrorView> {
    match find_from(line, '=', 0) {
        None => Err(ConfigTextErrorView::ExpectedKeyValue { line: line_number }),
        Some(eq) => {
            let key = trimmed(line.take(eq));
            let raw_value = trimmed(line.skip(eq + 1));
            if raw_value.len() < 2 || raw_value[0] != '"' || raw_value.last() != '"' {
                Err(ConfigTextErrorView::UnquotedValue { line: line_number, key })
            } else {
                Ok((key, raw_value.subrange(1, raw_value.len() - 1)))
            }
        },
    }
}

/// Splits a `key = "value"` line into its key and unquoted value.
pub fn parse_key_value(line: &str, line_number: usize) -> (r: Result<(String, String), ConfigTextError>)
    ensures
        match key_value_of(line@, line_number) {
            Ok((k, v)) => r matches Ok((rk, rv)) && rk@ == k && rv@ == v,
            Err(e) => r matches Err(re) && re@ == e,
        },
{
    let cs = chars_of(line);
    let eq = match crate::text::find_char(&cs, '=', 0) {
        None => {
            return Err(ConfigTextError::ExpectedKeyValue { line: line_number });
        },
        Some(p) => p,
    };
    proof {
        crate::text::lemma_find_from(line@, '=', 0);
    }
    let key_part = crate::text::slice_chars(&cs, 0, eq);
    let value_part = crate::text::slice_chars(&cs, eq + 1, cs.len());
    assert(key_part@ =~= line@.take(eq as int));
    assert(value_part@ =~= line@.skip(eq + 1));
    let key = string_of(&trim_chars(&key_part));
    let raw_value = trim_chars(&value_part);
    let n = raw_value.len();
    if n < 2 || raw_value[0] != '"' || raw_value[n - 1] != '"' {
        return Err(ConfigTextError::UnquotedValue { line: line_number, key });
    }
    let value = string_of_range(&raw_value, 1, n - 1);
    Ok((key, value))
}

/// A book table with no keys yet.
pub open spec fn empty_book() -> RawBookView {
    RawBookView { id: None, title: None, description: None, summary: None }
}

/// A book table as plain values.
pub struct RawBookView {
    pub id: Option<Seq<char>>,
    pub title: Option<Seq<char>>,
    pub description: Option<Seq<char>>,
    pub summary: Option<Seq<char>>,
}

impl View for RawBook {
    type V = RawBookView;

    open spec fn view(&self) -> RawBookView {
        RawBookView {
            id: opt_view(self.id),
            title: opt_view(self.title),
            description: opt_view(self.description),
            summary: opt_view(self.summary),
        }
    }
}

/// What the reader knows after some lines: the root book if given, the
/// finished book tables, the open table and the book table being filled.
pub struct ParseState {
    pub root_book: Option<Seq<char>>,
    pub books: Seq<RawBookView>,
    pub section: Section,
    pub pending: Option<RawBookView>,
}

/// The reader before any line.
pub open spec fn start_state() -> ParseState {
    ParseState { root_book: None, books: Seq::empty(), section: Section::Other, pending: None }
}

/// A book table with `key` set to `value` (other keys are ignored).
pub open spec fn set_book_key(b: RawBookView, key: Seq<char>, value: Seq<char>) -> RawBookView {
    if key == "id"@ {
        RawBookView { id: Some(value), ..b }
    } else if key == "title"@ {
        RawBookView { title: Some(value), ..b }
    } else if key == "description"@ {
        RawBookView { description: Some(value), ..b }
    } else if key == "summary"@ {
        RawBookView { summary: Some(value), ..b }
    } else {
        b
    }
}

/// The reader after one more line, the `line_number`-th.
pub open spec fn parse_step(st: ParseState, line: Seq<char>, line_number: usize) -> Result<ParseState, ConfigTextErrorView> {
    let t = trimmed(line);
    if t.len() == 0 || t[0] == '#' {
        Ok(st)
    } else {
        match section_of(t) {
            Some(s) => if s == Section::BookshelfBook {
                let books = match st.pending {
                    Some(b) => st.books.push(b),
                    None => st.books,
                };
                Ok(ParseState { books, section: s, pending: Some(empty_book()), ..st })
            } else {
                Ok(ParseState { section: s, ..st })
            },
            None => match key_value_of(t, line_number) {
                Err(e) => Err(e),
                Ok((key, value)) => match st.section {
                    Section::Bookshelf => if key == "root_book"@ {
                        Ok(ParseState { root_book: Some(value), ..st })
                    } else {
                        Ok(st)
                    },
                    Section::BookshelfBook => match st.pending {
                        None => Err(ConfigTextErrorView::InternalParserState { line: line_number }),
                        Some(b) => Ok(ParseState { pending: Some(set_book_key(b, key, value)), ..st }),
                    },
                    Section::Other => Ok(st),
                },
            },
        }
    }
}

/// The reader after the first `n` lines.
pub open spec fn parse_lines(ls: Seq<Seq<char>>, n: int) -> Result<ParseState, ConfigTextErrorView>
    decreases n,
{
    if n <= 0 {
        Ok(start_state())
    } else {
        match parse_lines(ls, n - 1) {
            Err(e) => Err(e),
            Ok(st) => parse_step(st, ls[n - 1], (n) as usize),
        }
    }
}

/// The configuration as read from the text, before validation.
pub open spec fn raw_config_of(content: Seq<char>) -> Result<(Option<Seq<char>>, Seq<RawBookView>), ConfigTextErrorView> {
    let ls = lines_of(content);
    match parse_lines(ls, ls.len() as int) {
        Err(e) => Err(e),
        Ok(st) => Ok(
            (
                st.root_book,
                match st.pending {
                    Some(b) => st.books.push(b),
                    None => st.books,
                },
            ),
        ),
    }
}

/// The reader's state as plain values.
pub open spec fn state_of(root_book: Option<String>, books: Seq<RawBook>, section: Section, pending: Option<RawBook>) -> ParseState {
    ParseState {
        root_book: opt_view(root_book),
        books: books.map_values(|b: RawBook| b@),
        section,
        pending: match pending {
            Some(b) => Some(b@),
            None => None,
        },
    }
}

fn set_key(book: &mut RawBook, key: &str, value: String)
    ensures
        final(book)@ == set_book_key(old(book)@, key@, value@),
{
    if str_eq(key, "id") {
        book.id = Some(value);
    } else if str_eq(key, "title") {
        book.title = Some(value);
    } else if str_eq(key, "description") {
        book.description = Some(value);
    } else if str_eq(key, "summary") {
        book.summary = Some(value);
    }
}

/// Reads the tables and keys of a configuration text.
pub fn parse_raw_config(content: &str) -> (r: Result<RawConfig, ConfigTextError>)
    ensures
        match raw_config_of(content@) {
            Ok((root, books)) => r matches Ok(c) && opt_view(c.root_book) == root && c.books@.map_values(
                |b: RawBook| b@,
            ) == books,
            Err(e) => r matches Err(re) && re@ == e,
        },
{
    let chars = chars_of(content);
    let lines = split_lines(&chars);
    let ghost ls = lines.deep_view();
    let mut root_book: Option<String> = None;
    let mut books: Vec<RawBook> = Vec::new();
    let mut section = Section::Other;
    let mut pending: Option<RawBook> = None;
    let mut idx: usize = 0;
    assert(books@.map_values(|b: RawBook| b@) =~= Seq::<RawBookView>::empty());
    while idx < lines.len()
        invariant
            idx <= lines.len(),
            ls == lines.deep_view(),
            ls == lines_of(content@),
            parse_lines(ls, idx as int) == Ok::<ParseState, ConfigTextErrorView>(
                state_of(root_book, books@, section, pending),
            ),
        decreases lines.len() - idx,
    {
        let line_number = idx + 1;
        assert(lines[idx as int]@ =~= ls[idx as int]);
        let line = string_of(&trim_chars(&lines[idx]));
        let ghost st = state_of(root_book, books@, section, pending);
        if line.as_str().unicode_len() == 0 || line.as_str().get_char(0) == '#' {
            idx += 1;
            continue;
        }
        match parse_section(line.as_str()) {
            Some(parsed) => {
                if parsed == Section::BookshelfBook {
                    match pending {
                        Some(b) => {
                            let ghost before = books@.map_values(|b: RawBook| b@);
                            books.push(b);
                            assert(books@.map_values(|b: RawBook| b@) =~= before.push(b@));
                        },
                        None => {},
                    }
                    pending = Some(RawBook { id: None, title: None, description: None, summary: None });
                }
                section = parsed;
                idx += 1;
                continue;
            },
            None => {},
        }
        let (key, value) = match parse_key_value(line.as_str(), line_number) {
            Err(e) => {
                proof {
                    lemma_parse_err(ls, idx as int + 1, ls.len() as int);
                }
                return Err(e);
            },
            Ok(kv) => kv,
        };
        match section {
            Section::Bookshelf => {
                if str_eq(key.as_str(), "root_book") {
                    root_book = Some(value);
                }
            },
            Section::BookshelfBook => {
                match pending {
                    None => {
                        proof {
                            lemma_parse_err(ls, idx as int + 1, ls.len() as int);
                        }
                        return Err(ConfigTextError::InternalParserState { line: line_number });
                    },
                    Some(mut b) => {
                        set_key(&mut b, key.as_str(), value);
                        pending = Some(b);
                    },
                }
            },
            Section::Other => {},
        }
        idx += 1;
    }
    assert(parse_lines(ls, ls.len() as int) == Ok::<ParseState, ConfigTextErrorView>(
        state_of(root_book, books@, section, pending),
    ));
    match pending {
        Some(b) => {
            let ghost before = books@.map_values(|b: RawBook| b@);
            books.push(b);
            assert(books@.map_values(|b: RawBook| b@) =~= before.push(b@));
        },
        None => {},
    }
    Ok(RawConfig { root_book, books })
}

proof fn lemma_parse_err(ls: Seq<Seq<char>>, a: int, b: int)
    requires
        0 <= a <= b,
        parse_lines(ls, a) is Err,
    ensures
        parse_lines(ls, b) == parse_lines(ls, a),
    decreases b - a,
{
    if a < b {
        lemma_parse_err(ls, a, b - 1);
    }
}

/// A configured book as plain values.
pub struct BookView {
    pub id: Seq<char>,
    pub title: Seq<char>,
    pub description: Option<Seq<char>>,
    pub summary_rel: Seq<char>,
    pub summary_abs: Seq<char>,
    pub book_root: Seq<char>,
    pub book_src: Seq<char>,
}

impl View for BookshelfBook {
    type V = BookView;

    open spec fn view(&self) -> BookView {
        BookView {
            id: self.id@,
            title: self.title@,
            description: opt_view(self.description),
            summary_rel: self.summary_rel@,
            summary_abs: self.summary_abs@,
            book_root: self.book_root@,
            book_src: self.book_src@,
        }
    }
}

/// The verdict on a book's summary path: its names joined, when it is
/// relative, ends with `SUMMARY.md`, has no `.` or `..` and lies in a
/// source directory.
pub open spec fn summary_check(book_id: Seq<char>, raw: Seq<char>) -> Result<Seq<char>, ConfigTextErrorView> {
    let cs = components(raw);
    let names = drop_markers(cs);
    if raw.len() > 0 && raw[0] == '/' {
        Err(ConfigTextErrorView::SummaryNotRelative { book_id, raw })
    } else if !(raw.len() >= 10 && raw.skip(raw.len() - 10) == "SUMMARY.md"@) {
        Err(ConfigTextErrorView::SummaryNotNamedSummary { book_id, raw })
    } else if cs.contains(cur_component()) || cs.contains(parent_component()) {
        Err(ConfigTextErrorView::SummaryDotComponent { book_id, raw })
    } else if names.len() < 2 {
        Err(ConfigTextErrorView::SummaryWithoutSourceDir { book_id, raw })
    } else {
        Ok(join_components(names))
    }
}

/// Normalizes a book's summary path.
pub fn normalize_summary_rel_path(book_id: &str, raw_path: &str) -> (r: Result<String, ConfigTextError>)
    ensures
        match summary_check(book_id@, raw_path@) {
            Ok(p) => r matches Ok(s) && s@ == p,
            Err(e) => r matches Err(re) && re@ == e,
        },
{
    let raw = chars_of(raw_path);
    if raw.len() > 0 && raw[0] == '/' {
        return Err(ConfigTextError::SummaryNotRelative { book_id: string_from(book_id), raw: string_from(raw_path) });
    }
    let n = raw.len();
    let named = n >= 10 && str_eq(string_of_range(&raw, n - 10, n).as_str(), "SUMMARY.md");
    proof {
        if n >= 10 {
            assert(raw@.subrange(n - 10, n as int) =~= raw_path@.skip(n - 10));
        }
    }
    if !named {
        return Err(
            ConfigTextError::SummaryNotNamedSummary { book_id: string_from(book_id), raw: string_from(raw_path) },
        );
    }
    let cs = path_components(&raw);
    let ghost all = cs.deep_view();
    let mut names: Vec<String> = Vec::new();
    let mut i: usize = 0;
    while i < cs.len()
        invariant
            i <= cs.len(),
            all == cs.deep_view(),
            all == components(raw_path@),
            !(raw_path@.len() > 0 && raw_path@[0] == '/'),
            raw_path@.len() >= 10 && raw_path@.skip(raw_path@.len() - 10) == "SUMMARY.md"@,
            names.deep_view() == drop_markers(all.take(i as int)),
            forall|j: int| 0 <= j < i ==> all[j] != cur_component() && all[j] != parent_component(),
        decreases cs.len() - i,
    {
        assert(all.take(i + 1).drop_last() =~= all.take(i as int));
        assert(all[i as int] == cs@[i as int]@);
        let (dot, dotdot) = is_dot_or_dotdot(&cs[i]);
        if dot || dotdot {
            assert(all.contains(all[i as int]));
            return Err(
                ConfigTextError::SummaryDotComponent { book_id: string_from(book_id), raw: string_from(raw_path) },
            );
        }
        let is_root_component = {
            let m = cs[i].as_str().unicode_len();
            m == 1 && cs[i].as_str().get_char(0) == '/'
        };
        if is_root_component {
            assert(cs@[i as int]@ =~= crate::paths::root_component());
        } else {
            assert(cs@[i as int]@ != crate::paths::root_component());
            let ghost before = names.deep_view();
            names.push(copy_string(&cs[i]));
            assert(names.deep_view() =~= before.push(all[i as int]));
        }
        i += 1;
    }
    assert(all.take(cs.len() as int) =~= all);
    assert(!all.contains(cur_component()) && !all.contains(parent_component()));
    if names.len() < 2 {
        return Err(
            ConfigTextError::SummaryWithoutSourceDir { book_id: string_from(book_id), raw: string_from(raw_path) },
        );
    }
    Ok(render_components(&names))
}

/// The value of a required key, or the error naming the key.
pub fn required(value: &Option<String>, key: &str) -> (r: Result<String, ConfigTextError>)
    ensures
        match value {
            Some(v) => r matches Ok(s) && s@ == v@,
            None => r matches Err(e) && e@ == (ConfigTextErrorView::MissingKey { key: key@ }),
        },
{
    match value {
        Some(v) => Ok(copy_string(v)),
        None => Err(ConfigTextError::MissingKey { key: string_from(key) }),
    }
}

/// The ids of books.
pub open spec fn ids_of(bs: Seq<BookView>) -> Seq<Seq<char>> {
    bs.map_values(|b: BookView| b.id)
}

/// The book of a raw book table, given the books accepted before it.
pub open spec fn book_step(r: RawBookView, config_dir: Seq<char>, bs: Seq<BookView>) -> Result<BookView, ConfigTextErrorView> {
    match r.id {
        None => Err(ConfigTextErrorView::MissingKey { key: "bookshelf.book.id"@ }),
        Some(id) => match r.title {
            None => Err(ConfigTextErrorView::MissingKey { key: "bookshelf.book.title"@ }),
            Some(title) => match r.summary {
                None => Err(ConfigTextErrorView::MissingKey { key: "bookshelf.book.summary"@ }),
                Some(summary) => if ids_of(bs).contains(id) {
                    Err(ConfigTextErrorView::DuplicateId { id })
                } else {
                    match summary_check(id, summary) {
                        Err(e) => Err(e),
                        Ok(rel) => Ok(
                            BookView {
                                id,
                                title,
                                description: r.description,
                                summary_rel: rel,
                                summary_abs: path_join(config_dir, rel),
                                book_root: config_dir,
                                book_src: match parent_path(rel) {
                                    Some(p) => p,
                                    None => Seq::empty(),
                                },
                            },
                        ),
                    }
                },
            },
        },
    }
}

/// The first `n` book tables validated.
pub open spec fn books_prefix(raws: Seq<RawBookView>, config_dir: Seq<char>, n: int) -> Result<Seq<BookView>, ConfigTextErrorView>
    decreases n,
{
    if n <= 0 {
        Ok(Seq::empty())
    } else {
        match books_prefix(raws, config_dir, n - 1) {
            Err(e) => Err(e),
            Ok(bs) => match book_step(raws[n - 1], config_dir, bs) {
                Err(e) => Err(e),
                Ok(b) => Ok(bs.push(b)),
            },
        }
    }
}

/// A configuration as plain values.
pub struct ConfigView {
    pub config_path: Seq<char>,
    pub config_dir: Seq<char>,
    pub root_book: Seq<char>,
    pub books: Seq<BookView>,
}

impl View for BookshelfConfig {
    type V = ConfigView;

    open spec fn view(&self) -> ConfigView {
        ConfigView {
            config_path: self.config_path@,
            config_dir: self.config_dir@,
            root_book: self.root_book@,
            books: self.books@.map_values(|b: BookshelfBook| b@),
        }
    }
}

/// The verdict on the raw configuration.
pub open spec fn config_check(
    root_book: Option<Seq<char>>,
    raws: Seq<RawBookView>,
    config_path: Seq<char>,
    config_dir: Seq<char>,
) -> Result<ConfigView, ConfigTextErrorView> {
    match root_book {
        None => Err(ConfigTextErrorView::MissingRootBook),
        Some(root) => if raws.len() == 0 {
            Err(ConfigTextErrorView::EmptyCatalog)
        } else {
            match books_prefix(raws, config_dir, raws.len() as int) {
                Err(e) => Err(e),
                Ok(bs) => if !ids_of(bs).contains(root) {
                    Err(ConfigTextErrorView::RootBookNotDeclared { root_book: root })
                } else {
                    Ok(ConfigView { config_path, config_dir, root_book: root, books: bs })
                },
            }
        },
    }
}

/// The configuration of a text, or the first reason it is refused.
pub open spec fn config_of_text(content: Seq<char>, config_path: Seq<char>, config_dir: Seq<char>) -> Result<
    ConfigView,
    ConfigTextErrorView,
> {
    match raw_config_of(content) {
        Err(e) => Err(e),
        Ok((root, raws)) => config_check(root, raws, config_path, config_dir),
    }
}

fn contains_book_id(books: &Vec<BookshelfBook>, id: &str) -> (r: bool)
    ensures
        r == ids_of(books@.map_values(|b: BookshelfBook| b@)).contains(id@),
{
    let ghost ids = ids_of(books@.map_values(|b: BookshelfBook| b@));
    let mut i: usize = 0;
    while i < books.len()
        invariant
            i <= books.len(),
            ids == ids_of(books@.map_values(|b: BookshelfBook| b@)),
            forall|j: int| 0 <= j < i ==> ids[j] != id@,
        decreases books.len() - i,
    {
        assert(ids[i as int] == books@[i as int].id@);
        if str_eq(books[i].id.as_str(), id) {
            return true;
        }
        i += 1;
    }
    false
}

fn book_of(raw: &RawBook, config_dir: &str, books: &Vec<BookshelfBook>) -> (r: Result<BookshelfBook, ConfigTextError>)
    ensures
        match book_step(raw@, config_dir@, books@.map_values(|b: BookshelfBook| b@)) {
            Ok(b) => r matches Ok(x) && x@ == b,
            Err(e) => r matches Err(re) && re@ == e,
        },
{
    let id = match required(&raw.id, "bookshelf.book.id") {
        Err(e) => {
            return Err(e);
        },
        Ok(v) => v,
    };
    let title = match required(&raw.title, "bookshelf.book.title") {
        Err(e) => {
            return Err(e);
        },
        Ok(v) => v,
    };
    let summary = match required(&raw.summary, "bookshelf.book.summary") {
        Err(e) => {
            return Err(e);
        },
        Ok(v) => v,
    };
    if contains_book_id(books, id.as_str()) {
        return Err(ConfigTextError::DuplicateId { id });
    }
    let summary_rel = match normalize_summary_rel_path(id.as_str(), summary.as_str()) {
        Err(e) => {
            return Err(e);
        },
        Ok(p) => p,
    };
    let book_src = match parent_of(summary_rel.as_str()) {
        Some(p) => p,
        None => String::new(),
    };
    let summary_abs = join_path(config_dir, summary_rel.as_str());
    Ok(
        BookshelfBook {
            id,
            title,
            description: copy_opt(&raw.description),
            summary_rel,
            summary_abs,
            book_root: string_from(config_dir),
            book_src,
        },
    )
}

/// Validates the raw configuration: the root book is named, books are
/// configured, each has an id, title and summary, ids are distinct,
/// summary paths are well formed, and the root book is one of the books.
pub fn validate_and_build(raw: &RawConfig, config_path: &str, config_dir: &str) -> (r: Result<
    BookshelfConfig,
    ConfigTextError,
>)
    ensures
        match config_check(opt_view(raw.root_book), raw.books@.map_values(|b: RawBook| b@), config_path@, config_dir@) {
            Ok(c) => r matches Ok(x) && x@ == c,
            Err(e) => r matches Err(re) && re@ == e,
        },
{
    let root_book = match &raw.root_book {
        None => {
            return Err(ConfigTextError::MissingRootBook);
        },
        Some(r) => copy_string(r),
    };
    if raw.books.len() == 0 {
        return Err(ConfigTextError::EmptyCatalog);
    }
    let ghost raws = raw.books@.map_values(|b: RawBook| b@);
    let mut books: Vec<BookshelfBook> = Vec::new();
    let mut i: usize = 0;
    assert(books@.map_values(|b: BookshelfBook| b@) =~= Seq::<BookView>::empty());
    while i < raw.books.len()
        invariant
            i <= raw.books.len(),
            raws == raw.books@.map_values(|b: RawBook| b@),
            raw.root_book is Some,
            root_book@ == raw.root_book->Some_0@,
            raw.books.len() > 0,
            books_prefix(raws, config_dir@, i as int) == Ok::<Seq<BookView>, ConfigTextErrorView>(
                books@.map_values(|b: BookshelfBook| b@),
            ),
        decreases raw.books.len() - i,
    {
        assert(raws[i as int] == raw.books@[i as int]@);
        match book_of(&raw.books[i], config_dir, &books) {
            Err(e) => {
                proof {
                    lemma_books_err(raws, config_dir@, i as int + 1, raws.len() as int);
                }
                return Err(e);
            },
            Ok(b) => {
                let ghost before = books@.map_values(|b: BookshelfBook| b@);
                books.push(b);
                assert(books@.map_values(|b: BookshelfBook| b@) =~= before.push(b@));
            },
        }
        i += 1;
    }
    if !contains_book_id(&books, root_book.as_str()) {
        return Err(ConfigTextError::RootBookNotDeclared { root_book });
    }
    Ok(BookshelfConfig { config_path: string_from(config_path), config_dir: string_from(config_dir), root_book, books })
}

proof fn lemma_books_err(raws: Seq<RawBookView>, config_dir: Seq<char>, a: int, b: int)
    requires
        0 <= a <= b,
        books_prefix(raws, config_dir, a) is Err,
    ensures
        books_prefix(raws, config_dir, b) == books_prefix(raws, config_dir, a),
    decreases b - a,
{
    if a < b {
        lemma_books_err(raws, config_dir, a, b - 1);
    }
}

/// Reads and validates a configuration text.
pub fn parse_bookshelf_config_text(content: &str, config_path: &str, config_dir: &str) -> (r: Result<
    BookshelfConfig,
    ConfigTextError,
>)
    ensures
        match config_of_text(content@, config_path@, config_dir@) {
            Ok(c) => r matches Ok(x) && x@ == c,
            Err(e) => r matches Err(re) && re@ == e,
        },
{
    match parse_raw_config(content) {
        Err(e) => Err(e),
        Ok(raw) => validate_and_build(&raw, config_path, config_dir),
    }
}

} // verus!
