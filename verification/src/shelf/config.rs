//! Validation of a bookshelf configuration: book ids, relative paths,
//! distinct output roots, and categories that list every book once.
use vstd::prelude::*;
use crate::paths::{
    components, cur_component, drop_markers, join_components, parent_component, path_components,
    render_components, root_component,
};
use crate::paths::{is_dot_or_dotdot, same_path};
use crate::text::{chars_of, copy_string, str_eq, string_from, trim_chars, trimmed, string_of};

verus! {

/// Why a bookshelf configuration is refused.
#[derive(Debug, Clone, PartialEq, Eq)]
pub enum ConfigError {
    /// An id is empty.
    EmptyId { key: String },
    /// An id holds a character other than ASCII letters, digits, `-`, `_`, `.`.
    InvalidId { key: String },
    /// A path is empty.
    EmptyPath { book_id: String, noun: String },
    /// A path is absolute.
    AbsolutePath { book_id: String, noun: String, raw: String },
    /// A path climbs with `..`.
    ParentDirInPath { book_id: String, noun: String, raw: String },
    /// A source directory names `SUMMARY.md`.
    SummaryFileAsSource { book_id: String, noun: String, raw: String },
    /// A file path names the configuration root itself.
    FilePathIsRoot { book_id: String, noun: String },
    /// The asset directory is the configuration root itself.
    AssetDirIsRoot,
    /// A book's output root is the site root.
    OutputRootIsSiteRoot { key: String, path: String },
    /// Two books share an output root.
    DuplicateOutputRoot { candidate: String },
    /// One book's output root lies inside another's.
    OverlappingOutputRoot { candidate: String, existing: String },
    /// A title is missing.
    MissingTitle { key: String },
    /// A title is empty.
    EmptyTitle { key: String },
    /// Two books have the same id.
    DuplicateBookId { id: String },
    /// A book entry could not be read.
    InvalidBookEntry { message: String },
    /// No category is defined.
    NoCategories,
    /// A category's title is blank.
    EmptyCategoryTitle,
    /// A category lists no book.
    EmptyCategory { title: String },
    /// A category lists an unknown book.
    UnknownCategoryBook { title: String, book_id: String },
    /// A book is listed by two categories.
    BookInTwoCategories { book_id: String },
    /// A book is listed by no category.
    UncategorizedBook { book_id: String },
}

/// A configuration error as plain values.
pub enum ConfigErrorView {
    EmptyId { key: Seq<char> },
    InvalidId { key: Seq<char> },
    EmptyPath { book_id: Seq<char>, noun: Seq<char> },
    AbsolutePath { book_id: Seq<char>, noun: Seq<char>, raw: Seq<char> },
    ParentDirInPath { book_id: Seq<char>, noun: Seq<char>, raw: Seq<char> },
    SummaryFileAsSource { book_id: Seq<char>, noun: Seq<char>, raw: Seq<char> },
    FilePathIsRoot { book_id: Seq<char>, noun: Seq<char> },
    AssetDirIsRoot,
    OutputRootIsSiteRoot { key: Seq<char>, path: Seq<char> },
    DuplicateOutputRoot { candidate: Seq<char> },
    OverlappingOutputRoot { candidate: Seq<char>, existing: Seq<char> },
    MissingTitle { key: Seq<char> },
    EmptyTitle { key: Seq<char> },
    DuplicateBookId { id: Seq<char> },
    InvalidBookEntry { message: Seq<char> },
    NoCategories,
    EmptyCategoryTitle,
    EmptyCategory { title: Seq<char> },
    UnknownCategoryBook { title: Seq<char>, book_id: Seq<char> },
    BookInTwoCategories { book_id: Seq<char> },
    UncategorizedBook { book_id: Seq<char> },
}

impl View for ConfigError {
    type V = ConfigErrorView;

    open spec fn view(&self) -> ConfigErrorView {
        match self {
            ConfigError::EmptyId { key } => ConfigErrorView::EmptyId { key: key@ },
            ConfigError::InvalidId { key } => ConfigErrorView::InvalidId { key: key@ },
            ConfigError::EmptyPath { book_id, noun } => ConfigErrorView::EmptyPath {
                book_id: book_id@,
                noun: noun@,
            },
            ConfigError::AbsolutePath { book_id, noun, raw } => ConfigErrorView::AbsolutePath {
                book_id: book_id@,
                noun: noun@,
                raw: raw@,
            },
            ConfigError::ParentDirInPath { book_id, noun, raw } => ConfigErrorView::ParentDirInPath {
                book_id: book_id@,
                noun: noun@,
                raw: raw@,
            },
            ConfigError::SummaryFileAsSource { book_id, noun, raw } =>
                ConfigErrorView::SummaryFileAsSource { book_id: book_id@, noun: noun@, raw: raw@ },
            ConfigError::FilePathIsRoot { book_id, noun } => ConfigErrorView::FilePathIsRoot {
                book_id: book_id@,
                noun: noun@,
            },
            ConfigError::AssetDirIsRoot => ConfigErrorView::AssetDirIsRoot,
            ConfigError::OutputRootIsSiteRoot { key, path } => ConfigErrorView::OutputRootIsSiteRoot {
                key: key@,
                path: path@,
            },
            ConfigError::DuplicateOutputRoot { candidate } =>
                ConfigErrorView::DuplicateOutputRoot { candidate: candidate@ },
            ConfigError::OverlappingOutputRoot { candidate, existing } =>
                ConfigErrorView::OverlappingOutputRoot { candidate: candidate@, existing: existing@ },
            ConfigError::MissingTitle { key } => ConfigErrorView::MissingTitle { key: key@ },
            ConfigError::EmptyTitle { key } => ConfigErrorView::EmptyTitle { key: key@ },
            ConfigError::DuplicateBookId { id } => ConfigErrorView::DuplicateBookId { id: id@ },
            ConfigError::InvalidBookEntry { message } => ConfigErrorView::InvalidBookEntry { message: message@ },
            ConfigError::NoCategories => ConfigErrorView::NoCategories,
            ConfigError::EmptyCategoryTitle => ConfigErrorView::EmptyCategoryTitle,
            ConfigError::EmptyCategory { title } => ConfigErrorView::EmptyCategory { title: title@ },
            ConfigError::UnknownCategoryBook { title, book_id } => ConfigErrorView::UnknownCategoryBook {
                title: title@,
                book_id: book_id@,
            },
            ConfigError::BookInTwoCategories { book_id } =>
                ConfigErrorView::BookInTwoCategories { book_id: book_id@ },
            ConfigError::UncategorizedBook { book_id } => ConfigErrorView::UncategorizedBook { book_id: book_id@ },
        }
    }
}

/// A character allowed in a book id.
pub open spec fn id_char(c: char) -> bool {
    ('a' <= c && c <= 'z') || ('A' <= c && c <= 'Z') || ('0' <= c && c <= '9') || c == '-' || c == '_' || c == '.'
}

/// The verdict on a book id.
pub open spec fn book_id_check(id: Seq<char>, key: Seq<char>) -> Result<(), ConfigErrorView> {
    if id.len() == 0 {
        Err(ConfigErrorView::EmptyId { key })
    } else if !(forall|i: int| 0 <= i < id.len() ==> id_char(#[trigger] id[i])) {
        Err(ConfigErrorView::InvalidId { key })
    } else {
        Ok(())
    }
}

/// Checks that a book id is not empty and uses only ASCII letters, digits,
/// `-`, `_` and `.`.
pub fn validate_book_id(id: &str, key: &str) -> (r: Result<(), ConfigError>)
    ensures
        match book_id_check(id@, key@) {
            Ok(()) => r is Ok,
            Err(v) => r matches Err(e) && e@ == v,
        },
{
    let cs = chars_of(id);
    if cs.len() == 0 {
        return Err(ConfigError::EmptyId { key: string_from(key) });
    }
    let mut i: usize = 0;
    while i < cs.len()
        invariant
            i <= cs.len(),
            cs@ == id@,
            forall|j: int| 0 <= j < i ==> id_char(#[trigger] cs@[j]),
        decreases cs.len() - i,
    {
        let c = cs[i];
        let ok = ('a' <= c && c <= 'z') || ('A' <= c && c <= 'Z') || ('0' <= c && c <= '9') || c == '-' || c == '_'
            || c == '.';
        if !ok {
            assert(!id_char(id@[i as int]));
            return Err(ConfigError::InvalidId { key: string_from(key) });
        }
        i += 1;
    }
    Ok(())
}

/// Some component of `cs` is `..`.
pub open spec fn has_parent_step(cs: Seq<Seq<char>>) -> bool {
    exists|i: int| 0 <= i < cs.len() && #[trigger] cs[i] == parent_component()
}

/// Some component of `cs` is `.`.
pub open spec fn has_cur_step(cs: Seq<Seq<char>>) -> bool {
    exists|i: int| 0 <= i < cs.len() && #[trigger] cs[i] == cur_component()
}

/// A relative directory path normalized to its names, `.` for the
/// configuration root itself; refused when empty, absolute, climbing with
/// `..`, or (when asked) naming `SUMMARY.md`.
pub open spec fn rel_dir_check(
    book_id: Seq<char>,
    raw: Seq<char>,
    noun: Seq<char>,
    reject_summary_file: bool,
) -> Result<Seq<char>, ConfigErrorView> {
    let cs = components(raw);
    let names = drop_markers(cs);
    if raw.len() == 0 {
        Err(ConfigErrorView::EmptyPath { book_id, noun })
    } else if raw[0] == '/' {
        Err(ConfigErrorView::AbsolutePath { book_id, noun, raw })
    } else if has_parent_step(cs) {
        Err(ConfigErrorView::ParentDirInPath { book_id, noun, raw })
    } else if names.len() == 0 && !has_cur_step(cs) {
        Err(ConfigErrorView::EmptyPath { book_id, noun })
    } else if reject_summary_file && names.len() > 0 && names.last() == "SUMMARY.md"@ {
        Err(ConfigErrorView::SummaryFileAsSource { book_id, noun, raw })
    } else if names.len() == 0 {
        Ok(cur_component())
    } else {
        Ok(join_components(names))
    }
}

/// Normalizes a relative directory path of the configuration.
pub fn normalize_rel_dir_path(book_id: &str, raw_path: &str, noun: &str, reject_summary_file: bool) -> (r: Result<
    String,
    ConfigError,
>)
    ensures
        match rel_dir_check(book_id@, raw_path@, noun@, reject_summary_file) {
            Ok(p) => r matches Ok(s) && s@ == p,
            Err(v) => r matches Err(e) && e@ == v,
        },
{
    let raw = chars_of(raw_path);
    if raw.len() == 0 {
        return Err(ConfigError::EmptyPath { book_id: string_from(book_id), noun: string_from(noun) });
    }
    if raw[0] == '/' {
        return Err(
            ConfigError::AbsolutePath {
                book_id: string_from(book_id),
                noun: string_from(noun),
                raw: string_from(raw_path),
            },
        );
    }
    let cs = path_components(&raw);
    let ghost all = cs.deep_view();
    let mut names: Vec<String> = Vec::new();
    let mut saw_curdir = false;
    let mut i: usize = 0;
    while i < cs.len()
        invariant
            i <= cs.len(),
            all == cs.deep_view(),
            all == components(raw_path@),
            raw@ == raw_path@,
            raw@.len() > 0 && raw@[0] != '/',
            names.deep_view() == drop_markers(all.take(i as int)),
            saw_curdir == has_cur_step(all.take(i as int)),
            !has_parent_step(all.take(i as int)),
        decreases cs.len() - i,
    {
        let ghost pre = all.take(i as int);
        let ghost now = all.take(i + 1);
        assert(now.drop_last() =~= pre);
        assert(now.last() == all[i as int]);
        assert(all[i as int] == cs@[i as int]@);
        let (dot, dotdot) = is_dot_or_dotdot(&cs[i]);
        if dotdot {
            assert(has_parent_step(all));
            return Err(
                ConfigError::ParentDirInPath {
                    book_id: string_from(book_id),
                    noun: string_from(noun),
                    raw: string_from(raw_path),
                },
            );
        }
        assert(has_cur_step(now) == (has_cur_step(pre) || dot)) by {
            if has_cur_step(now) && !dot {
                let j = choose|j: int| 0 <= j < now.len() && #[trigger] now[j] == cur_component();
                assert(pre[j] == now[j]);
            }
            if has_cur_step(pre) {
                let j = choose|j: int| 0 <= j < pre.len() && #[trigger] pre[j] == cur_component();
                assert(now[j] == pre[j]);
            }
        }
        assert(!has_parent_step(now)) by {
            if has_parent_step(now) {
                let j = choose|j: int| 0 <= j < now.len() && #[trigger] now[j] == parent_component();
                if j < pre.len() {
                    assert(pre[j] == now[j]);
                }
            }
        }
        if dot {
            saw_curdir = true;
        } else {
            let is_root_component = {
                let n = cs[i].as_str().unicode_len();
                n == 1 && cs[i].as_str().get_char(0) == '/'
            };
            if is_root_component {
                assert(cs@[i as int]@ =~= root_component());
            } else {
                assert(cs@[i as int]@ != root_component());
                let ghost before = names.deep_view();
                names.push(copy_string(&cs[i]));
                assert(names.deep_view() =~= before.push(all[i as int]));
            }
        }
        i += 1;
    }
    assert(all.take(cs.len() as int) =~= all);
    if names.len() == 0 {
        if !saw_curdir {
            return Err(ConfigError::EmptyPath { book_id: string_from(book_id), noun: string_from(noun) });
        }
        let mut dot = String::new();
        crate::text::push_char(&mut dot, '.');
        assert(dot@ =~= cur_component());
        return Ok(dot);
    }
    if reject_summary_file {
        let last = &names[names.len() - 1];
        assert(names.deep_view().last() == last@);
        if str_eq(last.as_str(), "SUMMARY.md") {
            return Err(
                ConfigError::SummaryFileAsSource {
                    book_id: string_from(book_id),
                    noun: string_from(noun),
                    raw: string_from(raw_path),
                },
            );
        }
    }
    Ok(render_components(&names))
}

/// A relative file path: as a directory path, but not the root itself.
pub open spec fn rel_file_check(book_id: Seq<char>, raw: Seq<char>, noun: Seq<char>) -> Result<Seq<char>, ConfigErrorView> {
    match rel_dir_check(book_id, raw, noun, false) {
        Err(e) => Err(e),
        Ok(p) => if components(p) == seq![cur_component()] {
            Err(ConfigErrorView::FilePathIsRoot { book_id, noun })
        } else {
            Ok(p)
        },
    }
}

fn is_dot_path(p: &str) -> (r: bool)
    ensures
        r == (components(p@) == seq![cur_component()]),
{
    let mut dot = String::new();
    crate::text::push_char(&mut dot, '.');
    proof {
        assert(dot@ =~= seq!['.']);
        assert(components(dot@) =~= seq![cur_component()]) by {
            reveal_with_fuel(crate::paths::scan_path, 3);
        }
    }
    same_path(p, dot.as_str())
}

/// Normalizes a relative file path below the configuration root.
pub fn normalize_rel_file_path(book_id: &str, raw_path: &str, noun: &str) -> (r: Result<String, ConfigError>)
    ensures
        match rel_file_check(book_id@, raw_path@, noun@) {
            Ok(p) => r matches Ok(s) && s@ == p,
            Err(v) => r matches Err(e) && e@ == v,
        },
{
    let normalized = match normalize_rel_dir_path(book_id, raw_path, noun, false) {
        Err(e) => {
            return Err(e);
        },
        Ok(p) => p,
    };
    if is_dot_path(normalized.as_str()) {
        return Err(ConfigError::FilePathIsRoot { book_id: string_from(book_id), noun: string_from(noun) });
    }
    Ok(normalized)
}

/// The normalized cover path, when one is set.
pub fn normalize_optional_cover_path(raw_path: Option<&str>, key: &str) -> (r: Result<Option<String>, ConfigError>)
    ensures
        match raw_path {
            None => r matches Ok(None),
            Some(p) => match rel_file_check("bookshelf"@, p@, key@) {
                Ok(q) => r matches Ok(Some(s)) && s@ == q,
                Err(v) => r matches Err(e) && e@ == v,
            },
        },
{
    match raw_path {
        None => Ok(None),
        Some(p) => match normalize_rel_file_path("bookshelf", p, key) {
            Ok(q) => Ok(Some(q)),
            Err(e) => Err(e),
        },
    }
}

/// Normalizes the root book's source directory.
pub fn normalize_root_source_rel_path(raw_path: &str) -> (r: Result<String, ConfigError>)
    ensures
        match rel_dir_check("root book"@, raw_path@, "src path"@, true) {
            Ok(p) => r matches Ok(s) && s@ == p,
            Err(v) => r matches Err(e) && e@ == v,
        },
{
    normalize_rel_dir_path("root book", raw_path, "src path", true)
}

/// Normalizes a child book's source directory.
pub fn normalize_child_source_rel_path(raw_path: &str) -> (r: Result<String, ConfigError>)
    ensures
        match rel_dir_check("bookshelf.book"@, raw_path@, "src path"@, true) {
            Ok(p) => r matches Ok(s) && s@ == p,
            Err(v) => r matches Err(e) && e@ == v,
        },
{
    normalize_rel_dir_path("bookshelf.book", raw_path, "src path", true)
}

/// The asset directory: a relative directory below the configuration root.
pub open spec fn asset_dir_check(raw: Seq<char>) -> Result<Seq<char>, ConfigErrorView> {
    match rel_dir_check("bookshelf"@, raw, "asset-dir path"@, false) {
        Err(e) => Err(e),
        Ok(p) => if components(p) == seq![cur_component()] {
            Err(ConfigErrorView::AssetDirIsRoot)
        } else {
            Ok(p)
        },
    }
}

/// Normalizes the directory of the generated assets.
pub fn normalize_bookshelf_asset_dir_path(raw_path: &str) -> (r: Result<String, ConfigError>)
    ensures
        match asset_dir_check(raw_path@) {
            Ok(p) => r matches Ok(s) && s@ == p,
            Err(v) => r matches Err(e) && e@ == v,
        },
{
    let normalized = match normalize_rel_dir_path("bookshelf", raw_path, "asset-dir path", false) {
        Err(e) => {
            return Err(e);
        },
        Ok(p) => p,
    };
    if is_dot_path(normalized.as_str()) {
        return Err(ConfigError::AssetDirIsRoot);
    }
    Ok(normalized)
}

/// The default directory of the generated assets.
pub fn default_bookshelf_asset_dir() -> (r: String)
    ensures
        r@ == ".mdbook/bookshelf"@,
{
    string_from(".mdbook/bookshelf")
}

/// Refuses an output root that is the site root itself.
pub fn validate_canonical_output_root(output_rel: &str, key: &str) -> (r: Result<(), ConfigError>)
    ensures
        components(output_rel@) == seq![cur_component()] ==> (r matches Err(e) && e@
            == (ConfigErrorView::OutputRootIsSiteRoot { key: key@, path: output_rel@ })),
        components(output_rel@) != seq![cur_component()] ==> r is Ok,
{
    if is_dot_path(output_rel) {
        return Err(ConfigError::OutputRootIsSiteRoot { key: string_from(key), path: string_from(output_rel) });
    }
    Ok(())
}

/// `ancestor` is a proper ancestor of `path`: its components are a proper
/// prefix of `path`'s.
pub open spec fn ancestor_of(ancestor: Seq<char>, path: Seq<char>) -> bool {
    components(ancestor) != components(path) && components(ancestor).is_prefix_of(components(path))
}

/// Whether `ancestor` is a proper ancestor of `path`.
pub fn is_ancestor(ancestor: &str, path: &str) -> (r: bool)
    ensures
        r == ancestor_of(ancestor@, path@),
{
    if same_path(ancestor, path) {
        return false;
    }
    let a = path_components(&chars_of(ancestor));
    let p = path_components(&chars_of(path));
    if a.len() > p.len() {
        return false;
    }
    let mut i: usize = 0;
    while i < a.len()
        invariant
            i <= a.len() <= p.len(),
            a.deep_view() == components(ancestor@),
            p.deep_view() == components(path@),
            forall|j: int| 0 <= j < i ==> a.deep_view()[j] == p.deep_view()[j],
        decreases a.len() - i,
    {
        if !str_eq(a[i].as_str(), p[i].as_str()) {
            assert(a.deep_view()[i as int] != p.deep_view()[i as int]);
            return false;
        }
        i += 1;
    }
    assert(a.deep_view() =~= p.deep_view().subrange(0, a.len() as int));
    true
}

/// Whether one path is a proper ancestor of the other.
pub fn is_ancestor_or_descendant(left: &str, right: &str) -> (r: bool)
    ensures
        r == (ancestor_of(left@, right@) || ancestor_of(right@, left@)),
{
    is_ancestor(left, right) || is_ancestor(right, left)
}

/// The first of `existing` that clashes with `candidate`, or none.
pub open spec fn root_clash(candidate: Seq<char>, existing: Seq<Seq<char>>) -> Result<(), ConfigErrorView>
    decreases existing.len(),
{
    if existing.len() == 0 {
        Ok(())
    } else if components(existing[0]) == components(candidate) {
        Err(ConfigErrorView::DuplicateOutputRoot { candidate })
    } else if ancestor_of(existing[0], candidate) || ancestor_of(candidate, existing[0]) {
        Err(ConfigErrorView::OverlappingOutputRoot { candidate, existing: existing[0] })
    } else {
        root_clash(candidate, existing.subrange(1, existing.len() as int))
    }
}

/// Refuses an output root that is, contains or lies in an existing one.
pub fn ensure_output_root_available(candidate: &str, existing_roots: &Vec<String>) -> (r: Result<(), ConfigError>)
    ensures
        match root_clash(candidate@, existing_roots.deep_view()) {
            Ok(()) => r is Ok,
            Err(v) => r matches Err(e) && e@ == v,
        },
{
    let ghost all = existing_roots.deep_view();
    let mut i: usize = 0;
    assert(all.subrange(0, all.len() as int) =~= all);
    while i < existing_roots.len()
        invariant
            i <= existing_roots.len(),
            all == existing_roots.deep_view(),
            root_clash(candidate@, all) == root_clash(candidate@, all.subrange(i as int, all.len() as int)),
        decreases existing_roots.len() - i,
    {
        let ghost rest = all.subrange(i as int, all.len() as int);
        assert(rest[0] == existing_roots@[i as int]@);
        assert(rest.subrange(1, rest.len() as int) =~= all.subrange(i + 1, all.len() as int));
        let existing = &existing_roots[i];
        if same_path(existing.as_str(), candidate) {
            return Err(ConfigError::DuplicateOutputRoot { candidate: string_from(candidate) });
        }
        if is_ancestor_or_descendant(existing.as_str(), candidate) {
            return Err(
                ConfigError::OverlappingOutputRoot { candidate: string_from(candidate), existing: copy_string(existing) },
            );
        }
        i += 1;
    }
    Ok(())
}

/// No two of `roots` are the same path or one inside the other.
pub open spec fn roots_disjoint(roots: Seq<Seq<char>>) -> bool {
    forall|i: int, j: int|
        0 <= i < j < roots.len() ==> components(#[trigger] roots[i]) != components(#[trigger] roots[j])
            && !ancestor_of(roots[i], roots[j]) && !ancestor_of(roots[j], roots[i])
}

/// A candidate that passes the check clashes with none of the roots.
pub proof fn lemma_root_clash_ok(candidate: Seq<char>, existing: Seq<Seq<char>>)
    requires
        root_clash(candidate, existing) is Ok,
    ensures
        forall|i: int| 0 <= i < existing.len() ==> components(#[trigger] existing[i]) != components(candidate)
            && !ancestor_of(existing[i], candidate) && !ancestor_of(candidate, existing[i]),
    decreases existing.len(),
{
    if existing.len() > 0 {
        let rest = existing.subrange(1, existing.len() as int);
        lemma_root_clash_ok(candidate, rest);
        assert forall|i: int| 0 <= i < existing.len() implies components(#[trigger] existing[i]) != components(candidate)
            && !ancestor_of(existing[i], candidate) && !ancestor_of(candidate, existing[i]) by {
            if i > 0 {
                assert(existing[i] == rest[i - 1]);
            }
        }
    }
}

/// The verdict on a title.
pub open spec fn title_check(title: Option<Seq<char>>, key: Seq<char>) -> Result<(), ConfigErrorView> {
    match title {
        Some(t) => if t.len() > 0 {
            Ok(())
        } else {
            Err(ConfigErrorView::EmptyTitle { key })
        },
        None => Err(ConfigErrorView::MissingTitle { key }),
    }
}

/// Checks that a book has a title and that it is not empty.
pub fn validate_book_title(title: Option<&str>, key: &str) -> (r: Result<(), ConfigError>)
    ensures
        match title_check(
            match title {
                Some(t) => Some(t@),
                None => None,
            },
            key@,
        ) {
            Ok(()) => r is Ok,
            Err(v) => r matches Err(e) && e@ == v,
        },
{
    match title {
        Some(t) => if t.unicode_len() > 0 {
            Ok(())
        } else {
            Err(ConfigError::EmptyTitle { key: string_from(key) })
        },
        None => Err(ConfigError::MissingTitle { key: string_from(key) }),
    }
}

/// A category as written in the configuration.
#[derive(Debug, Clone, PartialEq, Eq)]
pub struct RawCategory {
    pub title: String,
    pub books: Vec<String>,
}

/// A category of the Bookshelf page and the books it lists, in order.
#[derive(Debug, Clone, PartialEq, Eq)]
pub struct BookshelfCategory {
    pub title: String,
    pub book_ids: Vec<String>,
}

/// A category as plain values.
pub struct CategoryView {
    pub title: Seq<char>,
    pub book_ids: Seq<Seq<char>>,
}

impl View for RawCategory {
    type V = CategoryView;

    open spec fn view(&self) -> CategoryView {
        CategoryView { title: self.title@, book_ids: self.books.deep_view() }
    }
}

impl View for BookshelfCategory {
    type V = CategoryView;

    open spec fn view(&self) -> CategoryView {
        CategoryView { title: self.title@, book_ids: self.book_ids.deep_view() }
    }
}

/// The books of a category checked one by one against the known ids and
/// the ids already placed: the placed ids afterwards, or the first refusal.
pub open spec fn category_books_check(
    title: Seq<char>,
    books: Seq<Seq<char>>,
    known: Seq<Seq<char>>,
    assigned: Seq<Seq<char>>,
    j: int,
) -> Result<Seq<Seq<char>>, ConfigErrorView>
    decreases j,
{
    if j <= 0 {
        Ok(assigned)
    } else {
        match category_books_check(title, books, known, assigned, j - 1) {
            Err(e) => Err(e),
            Ok(a) => {
                let id = books[j - 1];
                if !known.contains(id) {
                    Err(ConfigErrorView::UnknownCategoryBook { title, book_id: id })
                } else if a.contains(id) {
                    Err(ConfigErrorView::BookInTwoCategories { book_id: id })
                } else {
                    Ok(a.push(id))
                }
            },
        }
    }
}

/// The first `k` categories checked: the categories with trimmed titles
/// and the ids they placed, or the first refusal.
pub open spec fn categories_prefix(cats: Seq<CategoryView>, known: Seq<Seq<char>>, k: int) -> Result<
    (Seq<CategoryView>, Seq<Seq<char>>),
    ConfigErrorView,
>
    decreases k,
{
    if k <= 0 {
        Ok((Seq::empty(), Seq::empty()))
    } else {
        match categories_prefix(cats, known, k - 1) {
            Err(e) => Err(e),
            Ok((out, assigned)) => {
                let c = cats[k - 1];
                let t = trimmed(c.title);
                if t.len() == 0 {
                    Err(ConfigErrorView::EmptyCategoryTitle)
                } else if c.book_ids.len() == 0 {
                    Err(ConfigErrorView::EmptyCategory { title: t })
                } else {
                    match category_books_check(t, c.book_ids, known, assigned, c.book_ids.len() as int) {
                        Err(e) => Err(e),
                        Ok(a) => Ok((out.push(CategoryView { title: t, book_ids: c.book_ids }), a)),
                    }
                }
            },
        }
    }
}

/// The first id of `all` that is not in `assigned`.
pub open spec fn first_unassigned(all: Seq<Seq<char>>, assigned: Seq<Seq<char>>) -> Option<Seq<char>>
    decreases all.len(),
{
    if all.len() == 0 {
        None
    } else if !assigned.contains(all[0]) {
        Some(all[0])
    } else {
        first_unassigned(all.subrange(1, all.len() as int), assigned)
    }
}

/// The verdict on the categories: at least one, each with a title and at
/// least one known book, and every book in exactly one of them.
pub open spec fn categories_check(cats: Seq<CategoryView>, all: Seq<Seq<char>>) -> Result<
    Seq<CategoryView>,
    ConfigErrorView,
> {
    if cats.len() == 0 {
        Err(ConfigErrorView::NoCategories)
    } else {
        match categories_prefix(cats, all, cats.len() as int) {
            Err(e) => Err(e),
            Ok((out, assigned)) => match first_unassigned(all, assigned) {
                Some(id) => Err(ConfigErrorView::UncategorizedBook { book_id: id }),
                None => Ok(out),
            },
        }
    }
}

fn contains_id(v: &Vec<String>, id: &str) -> (r: bool)
    ensures
        r == v.deep_view().contains(id@),
{
    let mut i: usize = 0;
    while i < v.len()
        invariant
            i <= v.len(),
            forall|j: int| 0 <= j < i ==> v.deep_view()[j] != id@,
        decreases v.len() - i,
    {
        if str_eq(v[i].as_str(), id) {
            assert(v.deep_view()[i as int] == id@);
            return true;
        }
        i += 1;
    }
    false
}

/// Checks the categories against the ids of all books and returns them
/// with trimmed titles.
pub fn validate_categories(categories: &Vec<RawCategory>, all_book_ids: &Vec<String>) -> (r: Result<
    Vec<BookshelfCategory>,
    ConfigError,
>)
    ensures
        match categories_check(categories@.map_values(|c: RawCategory| c@), all_book_ids.deep_view()) {
            Ok(cs) => r matches Ok(out) && out@.map_values(|c: BookshelfCategory| c@) == cs,
            Err(v) => r matches Err(e) && e@ == v,
        },
{
    let ghost cats = categories@.map_values(|c: RawCategory| c@);
    let ghost known = all_book_ids.deep_view();
    if categories.len() == 0 {
        return Err(ConfigError::NoCategories);
    }
    let mut output: Vec<BookshelfCategory> = Vec::new();
    let mut assigned: Vec<String> = Vec::new();
    let mut k: usize = 0;
    assert(output@.map_values(|c: BookshelfCategory| c@) =~= Seq::<CategoryView>::empty());
    assert(assigned.deep_view() =~= Seq::<Seq<char>>::empty());
    while k < categories.len()
        invariant
            k <= categories.len(),
            cats == categories@.map_values(|c: RawCategory| c@),
            known == all_book_ids.deep_view(),
            categories_prefix(cats, known, k as int) == Ok::<(Seq<CategoryView>, Seq<Seq<char>>), ConfigErrorView>(
                (output@.map_values(|c: BookshelfCategory| c@), assigned.deep_view()),
            ),
        decreases categories.len() - k,
    {
        let raw = &categories[k];
        assert(cats[k as int] == raw@);
        let title = string_of(&trim_chars(&chars_of(raw.title.as_str())));
        if title.as_str().unicode_len() == 0 {
            proof {
                lemma_categories_err(cats, known, k as int + 1, cats.len() as int);
            }
            return Err(ConfigError::EmptyCategoryTitle);
        }
        if raw.books.len() == 0 {
            proof {
                lemma_categories_err(cats, known, k as int + 1, cats.len() as int);
            }
            return Err(ConfigError::EmptyCategory { title });
        }
        let ghost start = assigned.deep_view();
        let mut book_ids: Vec<String> = Vec::new();
        let mut j: usize = 0;
        while j < raw.books.len()
            invariant
                j <= raw.books.len(),
                k < categories.len(),
                raw == categories@[k as int],
                title@ == trimmed(raw.title@),
                known == all_book_ids.deep_view(),
                cats == categories@.map_values(|c: RawCategory| c@),
                cats[k as int] == raw@,
                trimmed(raw.title@).len() > 0,
                raw.books.len() > 0,
                categories_prefix(cats, known, k as int) == Ok::<(Seq<CategoryView>, Seq<Seq<char>>), ConfigErrorView>(
                    (output@.map_values(|c: BookshelfCategory| c@), start),
                ),
                category_books_check(title@, raw.books.deep_view(), known, start, j as int) == Ok::<
                    Seq<Seq<char>>,
                    ConfigErrorView,
                >(assigned.deep_view()),
                book_ids.deep_view() == raw.books.deep_view().take(j as int),
            decreases raw.books.len() - j,
        {
            let book_id = &raw.books[j];
            assert(raw.books.deep_view()[j as int] == book_id@);
            if !contains_id(all_book_ids, book_id.as_str()) {
                proof {
                    lemma_books_err(title@, raw.books.deep_view(), known, start, j as int + 1, raw.books.len() as int);
                    lemma_categories_err(cats, known, k as int + 1, cats.len() as int);
                }
                return Err(ConfigError::UnknownCategoryBook { title, book_id: copy_string(book_id) });
            }
            if contains_id(&assigned, book_id.as_str()) {
                proof {
                    lemma_books_err(title@, raw.books.deep_view(), known, start, j as int + 1, raw.books.len() as int);
                    lemma_categories_err(cats, known, k as int + 1, cats.len() as int);
                }
                return Err(ConfigError::BookInTwoCategories { book_id: copy_string(book_id) });
            }
            let ghost before = assigned.deep_view();
            let ghost ids_before = book_ids.deep_view();
            assigned.push(copy_string(book_id));
            book_ids.push(copy_string(book_id));
            assert(assigned.deep_view() =~= before.push(book_id@));
            assert(book_ids.deep_view() =~= ids_before.push(book_id@));
            assert(raw.books.deep_view().take(j + 1) =~= raw.books.deep_view().take(j as int).push(book_id@));
            j += 1;
        }
        assert(raw.books.deep_view().take(raw.books.len() as int) =~= raw.books.deep_view());
        let ghost out_before = output@.map_values(|c: BookshelfCategory| c@);
        let category = BookshelfCategory { title, book_ids };
        output.push(category);
        assert(output@.map_values(|c: BookshelfCategory| c@) =~= out_before.push(
            CategoryView { title: trimmed(raw.title@), book_ids: raw.books.deep_view() },
        ));
        k += 1;
    }
    let ghost placed = assigned.deep_view();
    let ghost outs = output@.map_values(|c: BookshelfCategory| c@);
    let mut i: usize = 0;
    assert(known.subrange(0, known.len() as int) =~= known);
    while i < all_book_ids.len()
        invariant
            i <= all_book_ids.len(),
            known == all_book_ids.deep_view(),
            placed == assigned.deep_view(),
            outs == output@.map_values(|c: BookshelfCategory| c@),
            cats == categories@.map_values(|c: RawCategory| c@),
            cats.len() > 0,
            categories_prefix(cats, known, cats.len() as int) == Ok::<(Seq<CategoryView>, Seq<Seq<char>>), ConfigErrorView>(
                (outs, placed),
            ),
            first_unassigned(known, placed) == first_unassigned(known.subrange(i as int, known.len() as int), placed),
        decreases all_book_ids.len() - i,
    {
        let ghost rest = known.subrange(i as int, known.len() as int);
        assert(rest[0] == all_book_ids@[i as int]@);
        assert(rest.subrange(1, rest.len() as int) =~= known.subrange(i + 1, known.len() as int));
        if !contains_id(&assigned, all_book_ids[i].as_str()) {
            return Err(ConfigError::UncategorizedBook { book_id: copy_string(&all_book_ids[i]) });
        }
        i += 1;
    }
    Ok(output)
}

proof fn lemma_books_err(
    title: Seq<char>,
    books: Seq<Seq<char>>,
    known: Seq<Seq<char>>,
    assigned: Seq<Seq<char>>,
    a: int,
    b: int,
)
    requires
        0 <= a <= b,
        category_books_check(title, books, known, assigned, a) is Err,
    ensures
        category_books_check(title, books, known, assigned, b) == category_books_check(title, books, known, assigned, a),
    decreases b - a,
{
    if a < b {
        lemma_books_err(title, books, known, assigned, a, b - 1);
    }
}

proof fn lemma_categories_err(cats: Seq<CategoryView>, known: Seq<Seq<char>>, a: int, b: int)
    requires
        0 <= a <= b,
        categories_prefix(cats, known, a) is Err,
    ensures
        categories_prefix(cats, known, b) == categories_prefix(cats, known, a),
    decreases b - a,
{
    if a < b {
        lemma_categories_err(cats, known, a, b - 1);
    }
}

/// The book ids of categories, one category after another.
pub open spec fn all_listed(cs: Seq<CategoryView>) -> Seq<Seq<char>>
    decreases cs.len(),
{
    if cs.len() == 0 {
        Seq::empty()
    } else {
        all_listed(cs.drop_last()) + cs.last().book_ids
    }
}

proof fn lemma_category_books(
    title: Seq<char>,
    books: Seq<Seq<char>>,
    known: Seq<Seq<char>>,
    assigned: Seq<Seq<char>>,
    j: int,
)
    requires
        0 <= j <= books.len(),
        assigned.no_duplicates(),
        forall|x: Seq<char>| assigned.contains(x) ==> known.contains(x),
    ensures
        category_books_check(title, books, known, assigned, j) matches Ok(a) ==> {
            &&& a == assigned + books.take(j)
            &&& a.no_duplicates()
            &&& forall|x: Seq<char>| a.contains(x) ==> known.contains(x)
        },
    decreases j,
{
    if j > 0 {
        lemma_category_books(title, books, known, assigned, j - 1);
        if let Ok(a) = category_books_check(title, books, known, assigned, j - 1) {
            let id = books[j - 1];
            if known.contains(id) && !a.contains(id) {
                let a2 = a.push(id);
                assert(books.take(j) =~= books.take(j - 1).push(id));
                assert(a2 =~= assigned + books.take(j));
                assert forall|x: Seq<char>| a2.contains(x) implies known.contains(x) by {
                    if x != id {
                        let i = choose|i: int| 0 <= i < a2.len() && a2[i] == x;
                        assert(a[i] == x);
                    }
                }
                assert(a2.no_duplicates()) by {
                    assert forall|p: int, q: int| 0 <= p < a2.len() && 0 <= q < a2.len() && p != q implies a2[p] != a2[q] by {
                        if q == a.len() {
                            assert(a.contains(a2[p]) ==> a2[p] != id);
                            assert(a[p] == a2[p]);
                        } else if p == a.len() {
                            assert(a[q] == a2[q]);
                        }
                    }
                }
            }
        }
    } else {
        assert(assigned + books.take(0) =~= assigned);
    }
}

proof fn lemma_categories_prefix(cats: Seq<CategoryView>, known: Seq<Seq<char>>, k: int)
    requires
        0 <= k <= cats.len(),
    ensures
        categories_prefix(cats, known, k) matches Ok((out, a)) ==> {
            &&& a == all_listed(out)
            &&& a.no_duplicates()
            &&& forall|x: Seq<char>| a.contains(x) ==> known.contains(x)
        },
    decreases k,
{
    if k > 0 {
        lemma_categories_prefix(cats, known, k - 1);
        if let Ok((out, assigned)) = categories_prefix(cats, known, k - 1) {
            let c = cats[k - 1];
            let t = trimmed(c.title);
            lemma_category_books(t, c.book_ids, known, assigned, c.book_ids.len() as int);
            assert(c.book_ids.take(c.book_ids.len() as int) =~= c.book_ids);
            let out2 = out.push(CategoryView { title: t, book_ids: c.book_ids });
            assert(out2.drop_last() =~= out);
        }
    } else {
        assert(all_listed(Seq::<CategoryView>::empty()) =~= Seq::<Seq<char>>::empty());
        assert(Seq::<Seq<char>>::empty().no_duplicates());
    }
}

proof fn lemma_first_unassigned_none(all: Seq<Seq<char>>, assigned: Seq<Seq<char>>)
    requires
        first_unassigned(all, assigned) is None,
    ensures
        forall|x: Seq<char>| all.contains(x) ==> assigned.contains(x),
    decreases all.len(),
{
    if all.len() > 0 {
        let rest = all.subrange(1, all.len() as int);
        lemma_first_unassigned_none(rest, assigned);
        assert forall|x: Seq<char>| all.contains(x) implies assigned.contains(x) by {
            let i = choose|i: int| 0 <= i < all.len() && all[i] == x;
            if i > 0 {
                assert(rest[i - 1] == x);
            }
        }
    }
}

/// Accepted categories list every book of the site exactly once: no id
/// appears twice, every book's id appears, and no other id does.
pub proof fn lemma_categories_partition(cats: Seq<CategoryView>, all: Seq<Seq<char>>)
    ensures
        categories_check(cats, all) matches Ok(out) ==> {
            &&& all_listed(out).no_duplicates()
            &&& forall|id: Seq<char>| all.contains(id) <==> all_listed(out).contains(id)
        },
{
    if cats.len() > 0 {
        lemma_categories_prefix(cats, all, cats.len() as int);
        if let Ok((out, assigned)) = categories_prefix(cats, all, cats.len() as int) {
            if first_unassigned(all, assigned) is None {
                lemma_first_unassigned_none(all, assigned);
            }
        }
    }
}

/// A book entry of the configuration, as read: its id, cover, and the
/// title and source directory it sets (the root book's otherwise).
#[derive(Debug, Clone, PartialEq, Eq)]
pub struct RawChildBook {
    pub id: String,
    pub cover: Option<String>,
    pub title: Option<String>,
    pub src: Option<String>,
}

/// The `[bookshelf]` table as read; a book entry that could not be read
/// holds the reason.
#[derive(Debug, Clone, PartialEq, Eq)]
pub struct RawShelf {
    pub root_book_id: String,
    pub root_book_cover: Option<String>,
    pub asset_dir: String,
    pub books: Vec<Result<RawChildBook, String>>,
    pub categories: Vec<RawCategory>,
}

/// A validated book: its id, normalized source directory and cover.
#[derive(Debug, Clone, PartialEq, Eq)]
pub struct ValidatedBook {
    pub id: String,
    pub source_rel: String,
    pub cover: Option<String>,
}

/// A validated bookshelf configuration.
#[derive(Debug, Clone, PartialEq, Eq)]
pub struct ValidatedShelf {
    pub root_book_id: String,
    pub root_book_cover: Option<String>,
    pub root_source_rel: String,
    pub asset_dir: String,
    pub books: Vec<ValidatedBook>,
    pub categories: Vec<BookshelfCategory>,
}

/// A book entry as plain values.
pub struct RawChildView {
    pub id: Seq<char>,
    pub cover: Option<Seq<char>>,
    pub title: Option<Seq<char>>,
    pub src: Option<Seq<char>>,
}

impl View for RawChildBook {
    type V = RawChildView;

    open spec fn view(&self) -> RawChildView {
        RawChildView {
            id: self.id@,
            cover: crate::text::opt_view(self.cover),
            title: crate::text::opt_view(self.title),
            src: crate::text::opt_view(self.src),
        }
    }
}

/// A book entry, or the reason it could not be read, as plain values.
pub open spec fn entry_view(e: Result<RawChildBook, String>) -> Result<RawChildView, Seq<char>> {
    match e {
        Ok(b) => Ok(b@),
        Err(m) => Err(m@),
    }
}

/// A validated book as plain values.
pub struct ValidatedBookView {
    pub id: Seq<char>,
    pub source_rel: Seq<char>,
    pub cover: Option<Seq<char>>,
}

impl View for ValidatedBook {
    type V = ValidatedBookView;

    open spec fn view(&self) -> ValidatedBookView {
        ValidatedBookView { id: self.id@, source_rel: self.source_rel@, cover: crate::text::opt_view(self.cover) }
    }
}

/// A validated configuration as plain values.
pub struct ValidatedShelfView {
    pub root_book_id: Seq<char>,
    pub root_book_cover: Option<Seq<char>>,
    pub root_source_rel: Seq<char>,
    pub asset_dir: Seq<char>,
    pub books: Seq<ValidatedBookView>,
    pub categories: Seq<CategoryView>,
}

impl View for ValidatedShelf {
    type V = ValidatedShelfView;

    open spec fn view(&self) -> ValidatedShelfView {
        ValidatedShelfView {
            root_book_id: self.root_book_id@,
            root_book_cover: crate::text::opt_view(self.root_book_cover),
            root_source_rel: self.root_source_rel@,
            asset_dir: self.asset_dir@,
            books: self.books@.map_values(|b: ValidatedBook| b@),
            categories: self.categories@.map_values(|c: BookshelfCategory| c@),
        }
    }
}

/// The verdict on an optional cover path.
pub open spec fn cover_check(cover: Option<Seq<char>>, key: Seq<char>) -> Result<Option<Seq<char>>, ConfigErrorView> {
    match cover {
        None => Ok(None),
        Some(p) => match rel_file_check("bookshelf"@, p, key) {
            Ok(q) => Ok(Some(q)),
            Err(e) => Err(e),
        },
    }
}

/// The verdict on one book entry, given the books, ids and output roots
/// accepted before it.
pub open spec fn child_step(
    b: RawChildView,
    root_title: Seq<char>,
    root_src: Seq<char>,
    vs: Seq<ValidatedBookView>,
    ids: Seq<Seq<char>>,
    roots: Seq<Seq<char>>,
) -> Result<(Seq<ValidatedBookView>, Seq<Seq<char>>, Seq<Seq<char>>), ConfigErrorView> {
    match book_id_check(b.id, "bookshelf.book.id"@) {
        Err(e) => Err(e),
        Ok(_) => if ids.contains(b.id) {
            Err(ConfigErrorView::DuplicateBookId { id: b.id })
        } else {
            let title = match b.title {
                Some(t) => t,
                None => root_title,
            };
            match title_check(Some(title), "bookshelf.book.title"@) {
                Err(e) => Err(e),
                Ok(_) => {
                    let raw_src = match b.src {
                        Some(s) => s,
                        None => root_src,
                    };
                    match rel_dir_check("bookshelf.book"@, raw_src, "src path"@, true) {
                        Err(e) => Err(e),
                        Ok(src) => if components(src) == seq![cur_component()] {
                            Err(ConfigErrorView::OutputRootIsSiteRoot { key: "bookshelf.book.src"@, path: src })
                        } else {
                            match root_clash(src, roots) {
                                Err(e) => Err(e),
                                Ok(_) => match cover_check(b.cover, "bookshelf.book.cover"@) {
                                    Err(e) => Err(e),
                                    Ok(cover) => Ok(
                                        (
                                            vs.push(ValidatedBookView { id: b.id, source_rel: src, cover }),
                                            ids.push(b.id),
                                            roots.push(src),
                                        ),
                                    ),
                                },
                            }
                        },
                    }
                },
            }
        },
    }
}

/// The first `n` book entries checked: the accepted books, all ids so far
/// (the root book's first) and all output roots so far (the root's first).
pub open spec fn children_prefix(
    books: Seq<Result<RawChildView, Seq<char>>>,
    root_title: Seq<char>,
    root_src: Seq<char>,
    root_id: Seq<char>,
    n: int,
) -> Result<(Seq<ValidatedBookView>, Seq<Seq<char>>, Seq<Seq<char>>), ConfigErrorView>
    decreases n,
{
    if n <= 0 {
        Ok((Seq::empty(), seq![root_id], seq![root_src]))
    } else {
        match children_prefix(books, root_title, root_src, root_id, n - 1) {
            Err(e) => Err(e),
            Ok((vs, ids, roots)) => match books[n - 1] {
                Err(m) => Err(ConfigErrorView::InvalidBookEntry { message: m }),
                Ok(b) => child_step(b, root_title, root_src, vs, ids, roots),
            },
        }
    }
}

/// The verdict on a whole configuration, given the root book's title and
/// source directory.
pub open spec fn shelf_check(
    raw: RawShelf,
    root_title: Option<Seq<char>>,
    root_src: Seq<char>,
) -> Result<ValidatedShelfView, ConfigErrorView> {
    match title_check(root_title, "book.title"@) {
        Err(e) => Err(e),
        Ok(_) => match rel_dir_check("root book"@, root_src, "src path"@, true) {
            Err(e) => Err(e),
            Ok(rs) => if components(rs) == seq![cur_component()] {
                Err(ConfigErrorView::OutputRootIsSiteRoot { key: "book.src"@, path: rs })
            } else {
                match book_id_check(raw.root_book_id@, "bookshelf.root-book-id"@) {
                    Err(e) => Err(e),
                    Ok(_) => match cover_check(
                        crate::text::opt_view(raw.root_book_cover),
                        "bookshelf.root-book.cover"@,
                    ) {
                        Err(e) => Err(e),
                        Ok(rc) => match asset_dir_check(raw.asset_dir@) {
                            Err(e) => Err(e),
                            Ok(ad) => {
                                let entries = raw.books@.map_values(|e: Result<RawChildBook, String>| entry_view(e));
                                match children_prefix(
                                    entries,
                                    root_title->Some_0,
                                    rs,
                                    raw.root_book_id@,
                                    entries.len() as int,
                                ) {
                                    Err(e) => Err(e),
                                    Ok((vs, ids, roots)) => match categories_check(
                                        raw.categories@.map_values(|c: RawCategory| c@),
                                        ids,
                                    ) {
                                        Err(e) => Err(e),
                                        Ok(cs) => Ok(
                                            ValidatedShelfView {
                                                root_book_id: raw.root_book_id@,
                                                root_book_cover: rc,
                                                root_source_rel: rs,
                                                asset_dir: ad,
                                                books: vs,
                                                categories: cs,
                                            },
                                        ),
                                    },
                                }
                            },
                        },
                    },
                }
            },
        },
    }
}

fn opt_str(o: &Option<String>) -> (r: Option<&str>)
    ensures
        match r {
            Some(s) => o is Some && s@ == o->Some_0@,
            None => o is None,
        },
{
    match o {
        Some(s) => Some(s.as_str()),
        None => None,
    }
}

fn child_book(
    b: &RawChildBook,
    root_title: &str,
    root_src: &str,
    books: &mut Vec<ValidatedBook>,
    ids: &mut Vec<String>,
    roots: &mut Vec<String>,
) -> (r: Result<(), ConfigError>)
    ensures
        match child_step(
            b@,
            root_title@,
            root_src@,
            old(books)@.map_values(|v: ValidatedBook| v@),
            old(ids).deep_view(),
            old(roots).deep_view(),
        ) {
            Ok((vs, is, rs)) => r is Ok && final(books)@.map_values(|v: ValidatedBook| v@) == vs
                && final(ids).deep_view() == is && final(roots).deep_view() == rs,
            Err(v) => r matches Err(e) && e@ == v,
        },
{
    match validate_book_id(b.id.as_str(), "bookshelf.book.id") {
        Err(e) => {
            return Err(e);
        },
        Ok(()) => {},
    }
    if contains_id(ids, b.id.as_str()) {
        return Err(ConfigError::DuplicateBookId { id: copy_string(&b.id) });
    }
    let title = match &b.title {
        Some(t) => t.as_str(),
        None => root_title,
    };
    match validate_book_title(Some(title), "bookshelf.book.title") {
        Err(e) => {
            return Err(e);
        },
        Ok(()) => {},
    }
    let raw_src = match &b.src {
        Some(s) => s.as_str(),
        None => root_src,
    };
    let source_rel = match normalize_child_source_rel_path(raw_src) {
        Err(e) => {
            return Err(e);
        },
        Ok(p) => p,
    };
    match validate_canonical_output_root(source_rel.as_str(), "bookshelf.book.src") {
        Err(e) => {
            return Err(e);
        },
        Ok(()) => {},
    }
    match ensure_output_root_available(source_rel.as_str(), roots) {
        Err(e) => {
            return Err(e);
        },
        Ok(()) => {},
    }
    let cover = match normalize_optional_cover_path(opt_str(&b.cover), "bookshelf.book.cover") {
        Err(e) => {
            return Err(e);
        },
        Ok(c) => c,
    };
    let ghost vs0 = books@.map_values(|v: ValidatedBook| v@);
    let ghost is0 = ids.deep_view();
    let ghost rs0 = roots.deep_view();
    ids.push(copy_string(&b.id));
    roots.push(copy_string(&source_rel));
    let v = ValidatedBook { id: copy_string(&b.id), source_rel, cover };
    books.push(v);
    assert(books@.map_values(|v: ValidatedBook| v@) =~= vs0.push(v@));
    assert(ids.deep_view() =~= is0.push(b.id@));
    assert(roots.deep_view() =~= rs0.push(v.source_rel@));
    Ok(())
}

/// Validates a bookshelf configuration, given the root book's title and
/// source directory: every id, path and category is checked in the order
/// of the configuration, and the first problem is reported.
pub fn validate_and_build(raw: &RawShelf, root_title: Option<&str>, root_src: &str) -> (r: Result<
    ValidatedShelf,
    ConfigError,
>)
    ensures
        match shelf_check(
            *raw,
            match root_title {
                Some(t) => Some(t@),
                None => None,
            },
            root_src@,
        ) {
            Ok(v) => r matches Ok(s) && s@ == v,
            Err(v) => r matches Err(e) && e@ == v,
        },
{
    match validate_book_title(root_title, "book.title") {
        Err(e) => {
            return Err(e);
        },
        Ok(()) => {},
    }
    let title = match root_title {
        Some(t) => t,
        None => {
            return Err(ConfigError::MissingTitle { key: string_from("book.title") });
        },
    };
    let root_source_rel = match normalize_root_source_rel_path(root_src) {
        Err(e) => {
            return Err(e);
        },
        Ok(p) => p,
    };
    match validate_canonical_output_root(root_source_rel.as_str(), "book.src") {
        Err(e) => {
            return Err(e);
        },
        Ok(()) => {},
    }
    match validate_book_id(raw.root_book_id.as_str(), "bookshelf.root-book-id") {
        Err(e) => {
            return Err(e);
        },
        Ok(()) => {},
    }
    let root_book_cover = match normalize_optional_cover_path(opt_str(&raw.root_book_cover), "bookshelf.root-book.cover") {
        Err(e) => {
            return Err(e);
        },
        Ok(c) => c,
    };
    let asset_dir = match normalize_bookshelf_asset_dir_path(raw.asset_dir.as_str()) {
        Err(e) => {
            return Err(e);
        },
        Ok(d) => d,
    };
    let ghost entries = raw.books@.map_values(|e: Result<RawChildBook, String>| entry_view(e));
    let mut books: Vec<ValidatedBook> = Vec::new();
    let mut ids: Vec<String> = Vec::new();
    let mut roots: Vec<String> = Vec::new();
    ids.push(copy_string(&raw.root_book_id));
    roots.push(copy_string(&root_source_rel));
    assert(books@.map_values(|v: ValidatedBook| v@) =~= Seq::<ValidatedBookView>::empty());
    assert(ids.deep_view() =~= seq![raw.root_book_id@]);
    assert(roots.deep_view() =~= seq![root_source_rel@]);
    let mut i: usize = 0;
    while i < raw.books.len()
        invariant
            i <= raw.books.len(),
            entries == raw.books@.map_values(|e: Result<RawChildBook, String>| entry_view(e)),
            (match root_title {
                Some(t) => Some(t@),
                None => None,
            }) == Some(title@),
            title_check(Some(title@), "book.title"@) is Ok,
            rel_dir_check("root book"@, root_src@, "src path"@, true) == Ok::<Seq<char>, ConfigErrorView>(
                root_source_rel@,
            ),
            components(root_source_rel@) != seq![cur_component()],
            book_id_check(raw.root_book_id@, "bookshelf.root-book-id"@) is Ok,
            cover_check(crate::text::opt_view(raw.root_book_cover), "bookshelf.root-book.cover"@) == Ok::<
                Option<Seq<char>>,
                ConfigErrorView,
            >(crate::text::opt_view(root_book_cover)),
            asset_dir_check(raw.asset_dir@) == Ok::<Seq<char>, ConfigErrorView>(asset_dir@),
            children_prefix(entries, title@, root_source_rel@, raw.root_book_id@, i as int) == Ok::<
                (Seq<ValidatedBookView>, Seq<Seq<char>>, Seq<Seq<char>>),
                ConfigErrorView,
            >((books@.map_values(|v: ValidatedBook| v@), ids.deep_view(), roots.deep_view())),
        decreases raw.books.len() - i,
    {
        assert(entries[i as int] == entry_view(raw.books@[i as int]));
        match &raw.books[i] {
            Err(m) => {
                proof {
                    lemma_children_err(entries, title@, root_source_rel@, raw.root_book_id@, i as int + 1, entries.len() as int);
                }
                return Err(ConfigError::InvalidBookEntry { message: copy_string(m) });
            },
            Ok(b) => {
                match child_book(b, title, root_source_rel.as_str(), &mut books, &mut ids, &mut roots) {
                    Err(e) => {
                        proof {
                            lemma_children_err(
                                entries,
                                title@,
                                root_source_rel@,
                                raw.root_book_id@,
                                i as int + 1,
                                entries.len() as int,
                            );
                        }
                        return Err(e);
                    },
                    Ok(()) => {},
                }
            },
        }
        i += 1;
    }
    let categories = match validate_categories(&raw.categories, &ids) {
        Err(e) => {
            return Err(e);
        },
        Ok(c) => c,
    };
    Ok(
        ValidatedShelf {
            root_book_id: copy_string(&raw.root_book_id),
            root_book_cover,
            root_source_rel,
            asset_dir,
            books,
            categories,
        },
    )
}

proof fn lemma_children_err(
    books: Seq<Result<RawChildView, Seq<char>>>,
    root_title: Seq<char>,
    root_src: Seq<char>,
    root_id: Seq<char>,
    a: int,
    b: int,
)
    requires
        0 <= a <= b,
        children_prefix(books, root_title, root_src, root_id, a) is Err,
    ensures
        children_prefix(books, root_title, root_src, root_id, b) == children_prefix(books, root_title, root_src, root_id, a),
    decreases b - a,
{
    if a < b {
        lemma_children_err(books, root_title, root_src, root_id, a, b - 1);
    }
}

/// The ids of a validated configuration: the root book's, then each book's.
pub open spec fn shelf_ids(v: ValidatedShelfView) -> Seq<Seq<char>> {
    seq![v.root_book_id] + v.books.map_values(|b: ValidatedBookView| b.id)
}

/// The output roots of a validated configuration: the root book's, then
/// each book's.
pub open spec fn shelf_roots(v: ValidatedShelfView) -> Seq<Seq<char>> {
    seq![v.root_source_rel] + v.books.map_values(|b: ValidatedBookView| b.source_rel)
}

proof fn lemma_children_prefix(
    books: Seq<Result<RawChildView, Seq<char>>>,
    root_title: Seq<char>,
    root_src: Seq<char>,
    root_id: Seq<char>,
    n: int,
)
    requires
        0 <= n <= books.len(),
    ensures
        children_prefix(books, root_title, root_src, root_id, n) matches Ok((vs, ids, roots)) ==> {
            &&& ids == seq![root_id] + vs.map_values(|b: ValidatedBookView| b.id)
            &&& roots == seq![root_src] + vs.map_values(|b: ValidatedBookView| b.source_rel)
            &&& ids.no_duplicates()
            &&& roots_disjoint(roots)
        },
    decreases n,
{
    if n == 0 {
        assert(seq![root_id] + Seq::<ValidatedBookView>::empty().map_values(|b: ValidatedBookView| b.id) =~= seq![root_id]);
        assert(seq![root_src] + Seq::<ValidatedBookView>::empty().map_values(|b: ValidatedBookView| b.source_rel) =~= seq![root_src]);
    } else {
        lemma_children_prefix(books, root_title, root_src, root_id, n - 1);
        if let Ok((vs, ids, roots)) = children_prefix(books, root_title, root_src, root_id, n - 1) {
            if let Ok(b) = books[n - 1] {
                if let Ok((vs2, ids2, roots2)) = child_step(b, root_title, root_src, vs, ids, roots) {
                    let src = vs2.last().source_rel;
                    assert(vs2 == vs.push(vs2.last()));
                    assert(ids2 =~= seq![root_id] + vs2.map_values(|b: ValidatedBookView| b.id));
                    assert(roots2 =~= seq![root_src] + vs2.map_values(|b: ValidatedBookView| b.source_rel));
                    assert(ids2.no_duplicates()) by {
                        assert forall|p: int, q: int| 0 <= p < ids2.len() && 0 <= q < ids2.len() && p != q implies ids2[p] != ids2[q] by {
                            if q == ids.len() {
                                assert(ids[p] == ids2[p]);
                            } else if p == ids.len() {
                                assert(ids[q] == ids2[q]);
                            }
                        }
                    }
                    lemma_root_clash_ok(src, roots);
                    assert(roots_disjoint(roots2)) by {
                        assert forall|p: int, q: int| 0 <= p < q < roots2.len() implies components(#[trigger] roots2[p])
                            != components(#[trigger] roots2[q]) && !ancestor_of(roots2[p], roots2[q]) && !ancestor_of(
                            roots2[q],
                            roots2[p],
                        ) by {
                            assert(roots2[p] == roots[p]);
                            if q < roots.len() {
                                assert(roots2[q] == roots[q]);
                            }
                        }
                    }
                }
            }
        }
    }
}

/// An accepted configuration gives every book its own id and its own
/// output root: no two ids are equal, no two output roots are the same
/// path or one inside the other, and the categories list every id exactly
/// once.
pub proof fn lemma_validated_shelf_distinct(raw: RawShelf, root_title: Option<Seq<char>>, root_src: Seq<char>)
    ensures
        shelf_check(raw, root_title, root_src) matches Ok(v) ==> {
            &&& shelf_ids(v).no_duplicates()
            &&& roots_disjoint(shelf_roots(v))
            &&& all_listed(v.categories).no_duplicates()
            &&& forall|id: Seq<char>| shelf_ids(v).contains(id) <==> all_listed(v.categories).contains(id)
        },
{
    if let Ok(v) = shelf_check(raw, root_title, root_src) {
        let entries = raw.books@.map_values(|e: Result<RawChildBook, String>| entry_view(e));
        let rs = rel_dir_check("root book"@, root_src, "src path"@, true)->Ok_0;
        lemma_children_prefix(entries, root_title->Some_0, rs, raw.root_book_id@, entries.len() as int);
        let (vs, ids, roots) = children_prefix(entries, root_title->Some_0, rs, raw.root_book_id@, entries.len() as int)->Ok_0;
        lemma_categories_partition(raw.categories@.map_values(|c: RawCategory| c@), ids);
    }
}

} // verus!
