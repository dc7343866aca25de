//! The configuration each book is built with: its own source directory and
//! title, with the language, authors and HTML output settings shared by
//! the whole site.
use vstd::prelude::*;
use crate::catalog::{InputBook, InputCatalog};
use crate::html_site::BookPresentation;
use crate::paths::{components, join_components, strip_prefix, strip_prefix_components};
use crate::text::{copy_opt, copy_string, opt_view};

verus! {

/// The settings of the site's configuration that every book shares: from
/// `[book]`, the language and, when `authors` is an array, its string
/// items; from `[output.html]`, the default theme.
#[derive(Debug, Clone, PartialEq, Eq)]
pub struct SharedBookSettings {
    pub language: Option<String>,
    pub authors: Option<Vec<String>>,
    pub default_theme: Option<String>,
}

/// The configuration a book is built with.
#[derive(Debug, Clone, PartialEq, Eq)]
pub struct ProjectedBookConfig {
    pub book_id: String,
    pub src: String,
    pub title: String,
    pub language: Option<String>,
    pub authors: Vec<String>,
    pub default_theme: Option<String>,
}

/// A book's source directory relative to its root: the part of its
/// absolute source path below its absolute root, or its configured
/// relative source path when the root is no ancestor.
pub open spec fn projected_src(b: InputBook) -> Seq<char> {
    match strip_prefix_components(components(b.book_src_abs@), components(b.book_root_abs@)) {
        Some(cs) => join_components(cs),
        None => b.book_src_rel@,
    }
}

/// A projected configuration matches a book and the shared settings.
pub open spec fn projects(p: ProjectedBookConfig, b: InputBook, s: SharedBookSettings) -> bool {
    &&& p.book_id@ == b.id@
    &&& p.src@ == projected_src(b)
    &&& p.title@ == b.title@
    &&& opt_view(p.language) == opt_view(s.language)
    &&& p.authors.deep_view() == match s.authors {
        Some(a) => a.deep_view(),
        None => Seq::<Seq<char>>::empty(),
    }
    &&& opt_view(p.default_theme) == opt_view(s.default_theme)
}

fn clone_strings(v: &Vec<String>) -> (r: Vec<String>)
    ensures
        r.deep_view() == v.deep_view(),
{
    let mut out: Vec<String> = Vec::new();
    let mut i: usize = 0;
    while i < v.len()
        invariant
            i <= v.len(),
            out.deep_view() == v.deep_view().take(i as int),
        decreases v.len() - i,
    {
        out.push(copy_string(&v[i]));
        assert(v.deep_view().take(i + 1) =~= v.deep_view().take(i as int).push(v@[i as int]@));
        i += 1;
    }
    assert(v.deep_view().take(v.len() as int) =~= v.deep_view());
    out
}

/// The configuration of one book.
pub fn project_book_config(book: &InputBook, shared: &SharedBookSettings) -> (r: ProjectedBookConfig)
    ensures
        projects(r, *book, *shared),
{
    let src = match strip_prefix(book.book_src_abs.as_str(), book.book_root_abs.as_str()) {
        Some(rest) => rest,
        None => copy_string(&book.book_src_rel),
    };
    let authors = match &shared.authors {
        Some(a) => clone_strings(a),
        None => Vec::new(),
    };
    proof {
        if shared.authors is None {
            assert(authors.deep_view() =~= Seq::<Seq<char>>::empty());
        }
    }
    ProjectedBookConfig {
        book_id: copy_string(&book.id),
        src,
        title: copy_string(&book.title),
        language: copy_opt(&shared.language),
        authors,
        default_theme: copy_opt(&shared.default_theme),
    }
}

/// The configuration of every book of the catalog, in catalog order.
pub fn project_book_configs(catalog: &InputCatalog, shared: &SharedBookSettings) -> (r: Vec<ProjectedBookConfig>)
    ensures
        r.len() == catalog.books.len(),
        forall|i: int| 0 <= i < r.len() ==> projects(#[trigger] r@[i], catalog.books@[i], *shared),
{
    let mut out: Vec<ProjectedBookConfig> = Vec::new();
    let mut i: usize = 0;
    while i < catalog.books.len()
        invariant
            i <= catalog.books.len(),
            out.len() == i,
            forall|j: int| 0 <= j < i ==> projects(#[trigger] out@[j], catalog.books@[j], *shared),
        decreases catalog.books.len() - i,
    {
        out.push(project_book_config(&catalog.books[i], shared));
        i += 1;
    }
    out
}

impl ProjectedBookConfig {
    /// How the plain HTML site presents the book.
    pub fn presentation(&self) -> (r: BookPresentation)
        ensures
            r.book_id@ == self.book_id@,
            opt_view(r.language) == opt_view(self.language),
            opt_view(r.default_theme) == opt_view(self.default_theme),
    {
        BookPresentation {
            book_id: copy_string(&self.book_id),
            language: copy_opt(&self.language),
            default_theme: copy_opt(&self.default_theme),
        }
    }
}

} // verus!
