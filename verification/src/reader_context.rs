//! Reader context: for every authored page its title, book, breadcrumbs,
//! neighbours in reading order and the way back to the Bookshelf page.
use vstd::prelude::*;
use crate::text::string_from;
use crate::paths::{components, same_path};
use crate::reader_site::{
    page_views_of, AuthoredPage, AuthoredPageView, ReaderBook, ReaderBookView, ReaderSite,
};
use crate::sidebar::{first_sidebar, BookSidebar, SidebarChapter, SidebarModel};
use crate::text::{copy_string, str_eq};

verus! {

/// Why a reader context could not be built.
#[derive(Debug, Clone, PartialEq, Eq)]
pub enum BuildReaderContextError {
    /// The book that owns the Bookshelf page is not in the site.
    MissingBook { book_id: String },
    /// A book has no sidebar.
    MissingSidebar { book_id: String },
    /// A book lists a page that the site does not have.
    MissingAuthoredPage { book_id: String, source_path: String },
    /// A book's sidebar has no chapter for one of its pages.
    MissingSidebarChapter { book_id: String, source_path: String },
    /// A source path could not be normalized.
    SourcePathIo { path: String, message: String },
}

/// A reader context error as plain values.
pub enum BuildReaderContextErrorView {
    MissingBook { book_id: Seq<char> },
    MissingSidebar { book_id: Seq<char> },
    MissingAuthoredPage { book_id: Seq<char>, source_path: Seq<char> },
    MissingSidebarChapter { book_id: Seq<char>, source_path: Seq<char> },
    SourcePathIo { path: Seq<char>, message: Seq<char> },
}

impl View for BuildReaderContextError {
    type V = BuildReaderContextErrorView;

    open spec fn view(&self) -> BuildReaderContextErrorView {
        match self {
            BuildReaderContextError::MissingBook { book_id } =>
                BuildReaderContextErrorView::MissingBook { book_id: book_id@ },
            BuildReaderContextError::MissingSidebar { book_id } =>
                BuildReaderContextErrorView::MissingSidebar { book_id: book_id@ },
            BuildReaderContextError::MissingAuthoredPage { book_id, source_path } =>
                BuildReaderContextErrorView::MissingAuthoredPage {
                book_id: book_id@,
                source_path: source_path@,
            },
            BuildReaderContextError::MissingSidebarChapter { book_id, source_path } =>
                BuildReaderContextErrorView::MissingSidebarChapter {
                book_id: book_id@,
                source_path: source_path@,
            },
            BuildReaderContextError::SourcePathIo { path, message } =>
                BuildReaderContextErrorView::SourcePathIo { path: path@, message: message@ },
        }
    }
}

/// The reader context of every authored page and of the Bookshelf page.
#[derive(Debug, Clone, PartialEq, Eq)]
pub struct ReaderContextModel {
    pub authored_page_contexts: Vec<AuthoredPageReaderContext>,
    pub bookshelf_page_context: BookshelfPageReaderContext,
}

/// The book a page belongs to.
#[derive(Debug, Clone, PartialEq, Eq)]
pub struct ActiveBookContext {
    pub book_id: String,
    pub title: String,
}

/// The breadcrumbs of a page: its book's title and its own.
#[derive(Debug, Clone, PartialEq, Eq)]
pub struct Breadcrumbs {
    pub book_title: String,
    pub page_title: String,
}

/// A link to the page before or after in reading order.
#[derive(Debug, Clone, PartialEq, Eq)]
pub struct AdjacentPageLink {
    pub title: String,
    pub source_path: String,
}

/// The way back to the Bookshelf page.
#[derive(Debug, Clone, PartialEq, Eq)]
pub struct BookshelfReturn {
    pub page_id: String,
    pub title: String,
    pub route_path: String,
}

/// The reader context of an authored page.
#[derive(Debug, Clone, PartialEq, Eq)]
pub struct AuthoredPageReaderContext {
    pub source_path: String,
    pub page_title: String,
    pub active_book: ActiveBookContext,
    pub breadcrumbs: Breadcrumbs,
    pub previous_page: Option<AdjacentPageLink>,
    pub next_page: Option<AdjacentPageLink>,
    pub bookshelf_return: BookshelfReturn,
}

/// The reader context of the Bookshelf page.
#[derive(Debug, Clone, PartialEq, Eq)]
pub struct BookshelfPageReaderContext {
    pub page_id: String,
    pub title: String,
    pub route_path: String,
    pub active_book: ActiveBookContext,
    pub breadcrumbs: Breadcrumbs,
    pub previous_page: Option<AdjacentPageLink>,
    pub next_page: Option<AdjacentPageLink>,
}

/// An adjacent page link as plain values: its title and source path.
pub struct AdjacentView {
    pub title: Seq<char>,
    pub source_path: Seq<char>,
}

impl View for AdjacentPageLink {
    type V = AdjacentView;

    open spec fn view(&self) -> AdjacentView {
        AdjacentView { title: self.title@, source_path: self.source_path@ }
    }
}

/// An optional adjacent link as plain values.
pub open spec fn adjacent_opt(o: Option<AdjacentPageLink>) -> Option<AdjacentView> {
    match o {
        Some(l) => Some(l@),
        None => None,
    }
}

/// An authored page's reader context as plain values.
pub struct AuthoredContextView {
    pub source_path: Seq<char>,
    pub page_title: Seq<char>,
    pub active_book_id: Seq<char>,
    pub active_book_title: Seq<char>,
    pub crumb_book_title: Seq<char>,
    pub crumb_page_title: Seq<char>,
    pub previous_page: Option<AdjacentView>,
    pub next_page: Option<AdjacentView>,
    pub return_page_id: Seq<char>,
    pub return_title: Seq<char>,
    pub return_route_path: Seq<char>,
}

impl View for AuthoredPageReaderContext {
    type V = AuthoredContextView;

    open spec fn view(&self) -> AuthoredContextView {
        AuthoredContextView {
            source_path: self.source_path@,
            page_title: self.page_title@,
            active_book_id: self.active_book.book_id@,
            active_book_title: self.active_book.title@,
            crumb_book_title: self.breadcrumbs.book_title@,
            crumb_page_title: self.breadcrumbs.page_title@,
            previous_page: adjacent_opt(self.previous_page),
            next_page: adjacent_opt(self.next_page),
            return_page_id: self.bookshelf_return.page_id@,
            return_title: self.bookshelf_return.title@,
            return_route_path: self.bookshelf_return.route_path@,
        }
    }
}

impl ReaderContextModel {
    /// The authored contexts as plain values.
    pub open spec fn contexts(&self) -> Seq<AuthoredContextView> {
        self.authored_page_contexts@.map_values(|c: AuthoredPageReaderContext| c@)
    }

    /// The context of the authored page at `normalized_source_path`, a path
    /// already in canonical form: the first context with that path.
    pub fn authored_context_for_source_path(&self, normalized_source_path: &str) -> (r: Option<
        &AuthoredPageReaderContext,
    >)
        ensures
            match r {
                Some(c) => exists|i: int|
                    0 <= i < self.authored_page_contexts.len() && *c == self.authored_page_contexts@[i]
                        && components(c.source_path@) == components(normalized_source_path@) && forall|j: int|
                        0 <= j < i ==> components((#[trigger] self.authored_page_contexts@[j]).source_path@)
                            != components(normalized_source_path@),
                None => forall|i: int|
                    0 <= i < self.authored_page_contexts.len() ==> components(
                        (#[trigger] self.authored_page_contexts@[i]).source_path@,
                    ) != components(normalized_source_path@),
            },
    {
        let mut i: usize = 0;
        while i < self.authored_page_contexts.len()
            invariant
                i <= self.authored_page_contexts.len(),
                forall|j: int|
                    0 <= j < i ==> components((#[trigger] self.authored_page_contexts@[j]).source_path@)
                        != components(normalized_source_path@),
            decreases self.authored_page_contexts.len() - i,
        {
            if same_path(self.authored_page_contexts[i].source_path.as_str(), normalized_source_path) {
                return Some(&self.authored_page_contexts[i]);
            }
            i += 1;
        }
        None
    }

    /// The context of the Bookshelf page, when `page_id` is its id.
    pub fn bookshelf_context_for_page_id(&self, page_id: &str) -> (r: Option<&BookshelfPageReaderContext>)
        ensures
            r == (if self.bookshelf_page_context.page_id@ == page_id@ {
                Some(&self.bookshelf_page_context)
            } else {
                None
            }),
    {
        if str_eq(self.bookshelf_page_context.page_id.as_str(), page_id) {
            Some(&self.bookshelf_page_context)
        } else {
            None
        }
    }
}

/// The last page whose source path is the same path as `path`: the one
/// that a lookup by path finds.
pub open spec fn page_by_path(ps: Seq<AuthoredPageView>, path: Seq<char>) -> Option<AuthoredPageView>
    decreases ps.len(),
{
    if ps.len() == 0 {
        None
    } else if components(ps.last().source_path) == components(path) {
        Some(ps.last())
    } else {
        page_by_path(ps.drop_last(), path)
    }
}

/// The title of the first chapter, in document order, whose source path
/// is the same path as `path`.
pub open spec fn title_in(cs: Seq<SidebarChapter>, path: Seq<char>) -> Option<Seq<char>>
    decreases cs,
{
    if cs.len() == 0 {
        None
    } else if components(cs[0].source_path@) == components(path) {
        Some(cs[0].title@)
    } else {
        match title_in(cs[0].children@, path) {
            Some(t) => Some(t),
            None => title_in(cs.subrange(1, cs.len() as int), path),
        }
    }
}

/// The link to page `idx` of `book`'s reading order: none outside the
/// order, and an error when the site has no page at that path.
pub open spec fn adjacent_spec(book: ReaderBookView, ps: Seq<AuthoredPageView>, idx: int) -> Result<
    Option<AdjacentView>,
    BuildReaderContextErrorView,
> {
    if idx < 0 || idx >= book.authored_page_order.len() {
        Ok(None)
    } else {
        let path = book.authored_page_order[idx];
        match page_by_path(ps, path) {
            None => Err(BuildReaderContextErrorView::MissingAuthoredPage { book_id: book.id, source_path: path }),
            Some(p) => Ok(Some(AdjacentView { title: p.title, source_path: p.source_path })),
        }
    }
}

/// The context of page `i` of `book`, or why there is none.
pub open spec fn context_step(site: ReaderSite, sidebar: BookSidebar, book: ReaderBookView, i: int) -> Result<
    AuthoredContextView,
    BuildReaderContextErrorView,
> {
    let ps = site.page_views();
    let path = book.authored_page_order[i];
    match page_by_path(ps, path) {
        None => Err(BuildReaderContextErrorView::MissingAuthoredPage { book_id: book.id, source_path: path }),
        Some(_) => match title_in(sidebar.chapter_entries@, path) {
            None => Err(
                BuildReaderContextErrorView::MissingSidebarChapter { book_id: book.id, source_path: path },
            ),
            Some(title) => match adjacent_spec(book, ps, i - 1) {
                Err(e) => Err(e),
                Ok(prev) => match adjacent_spec(book, ps, i + 1) {
                    Err(e) => Err(e),
                    Ok(next) => Ok(
                        AuthoredContextView {
                            source_path: path,
                            page_title: title,
                            active_book_id: book.id,
                            active_book_title: book.title,
                            crumb_book_title: book.title,
                            crumb_page_title: title,
                            previous_page: prev,
                            next_page: next,
                            return_page_id: site.bookshelf_page.page_id@,
                            return_title: site.bookshelf_page.title@,
                            return_route_path: site.bookshelf_page.route_path@,
                        },
                    ),
                },
            },
        },
    }
}

/// The contexts of the first `n` pages of `book`.
pub open spec fn book_contexts(site: ReaderSite, sidebar: BookSidebar, book: ReaderBookView, n: int) -> Result<
    Seq<AuthoredContextView>,
    BuildReaderContextErrorView,
>
    decreases n,
{
    if n <= 0 {
        Ok(Seq::empty())
    } else {
        match book_contexts(site, sidebar, book, n - 1) {
            Err(e) => Err(e),
            Ok(cs) => match context_step(site, sidebar, book, n - 1) {
                Err(e) => Err(e),
                Ok(c) => Ok(cs.push(c)),
            },
        }
    }
}

/// The contexts of the pages of the first `k` books.
pub open spec fn books_contexts(site: ReaderSite, sidebars: Seq<BookSidebar>, k: int) -> Result<
    Seq<AuthoredContextView>,
    BuildReaderContextErrorView,
>
    decreases k,
{
    if k <= 0 {
        Ok(Seq::empty())
    } else {
        match books_contexts(site, sidebars, k - 1) {
            Err(e) => Err(e),
            Ok(cs) => {
                let book = site.book_views()[k - 1];
                match first_sidebar(sidebars, book.id) {
                    None => Err(BuildReaderContextErrorView::MissingSidebar { book_id: book.id }),
                    Some(sb) => match book_contexts(
                        site,
                        sb,
                        book,
                        book.authored_page_order.len() as int,
                    ) {
                        Err(e) => Err(e),
                        Ok(more) => Ok(cs + more),
                    },
                }
            },
        }
    }
}

/// The first book with id `id`.
pub open spec fn first_book(bs: Seq<ReaderBookView>, id: Seq<char>) -> Option<ReaderBookView>
    decreases bs.len(),
{
    if bs.len() == 0 {
        None
    } else if bs[0].id == id {
        Some(bs[0])
    } else {
        first_book(bs.subrange(1, bs.len() as int), id)
    }
}

/// The Bookshelf page context is that of `site`'s Bookshelf page in the
/// root book `root`.
pub open spec fn bookshelf_context_is(c: BookshelfPageReaderContext, site: ReaderSite, root: ReaderBookView) -> bool {
    &&& c.page_id@ == site.bookshelf_page.page_id@
    &&& c.title@ == site.bookshelf_page.title@
    &&& c.route_path@ == site.bookshelf_page.route_path@
    &&& c.active_book.book_id@ == root.id
    &&& c.active_book.title@ == root.title
    &&& c.breadcrumbs.book_title@ == root.title
    &&& c.breadcrumbs.page_title@ == site.bookshelf_page.title@
    &&& c.previous_page is None
    &&& c.next_page is None
}

/// Finds the page that a lookup by `path` finds.
fn find_page_by_path<'a>(pages: &'a Vec<AuthoredPage>, path: &str) -> (r: Option<&'a AuthoredPage>)
    ensures
        match r {
            Some(p) => page_by_path(page_views_of(pages@), path@) == Some(p@),
            None => page_by_path(page_views_of(pages@), path@) is None,
        },
{
    let ghost all = page_views_of(pages@);
    let mut i = pages.len();
    assert(all.take(i as int) =~= all);
    while i > 0
        invariant
            i <= pages.len(),
            all == page_views_of(pages@),
            page_by_path(all, path@) == page_by_path(all.take(i as int), path@),
        decreases i,
    {
        let ghost ps = all.take(i as int);
        assert(ps.drop_last() =~= all.take(i - 1));
        assert(ps.last() == pages@[i - 1]@);
        if same_path(pages[i - 1].source_path.as_str(), path) {
            return Some(&pages[i - 1]);
        }
        i -= 1;
    }
    None
}

/// The title of the first chapter, in document order, at `source_path`.
pub fn find_sidebar_title(chapters: &Vec<SidebarChapter>, source_path: &str) -> (r: Option<String>)
    ensures
        match r {
            Some(t) => title_in(chapters@, source_path@) == Some(t@),
            None => title_in(chapters@, source_path@) is None,
        },
    decreases chapters@,
{
    let ghost all = chapters@;
    let mut i: usize = 0;
    assert(all.subrange(0, all.len() as int) =~= all);
    while i < chapters.len()
        invariant
            i <= chapters.len(),
            all == chapters@,
            title_in(all, source_path@) == title_in(all.subrange(i as int, all.len() as int), source_path@),
        decreases chapters.len() - i,
    {
        let ghost rest = all.subrange(i as int, all.len() as int);
        assert(rest[0] == all[i as int]);
        assert(rest.subrange(1, rest.len() as int) =~= all.subrange(i + 1, all.len() as int));
        let chapter = &chapters[i];
        if same_path(chapter.source_path.as_str(), source_path) {
            return Some(copy_string(&chapter.title));
        }
        assert(decreases_to!(chapters@ => chapter.children@));
        match find_sidebar_title(&chapter.children, source_path) {
            Some(t) => {
                return Some(t);
            },
            None => {},
        }
        i += 1;
    }
    None
}

/// The link to page `index` of the book's reading order.
fn adjacent_page_link(book: &ReaderBook, pages: &Vec<AuthoredPage>, index: Option<usize>) -> (r: Result<
    Option<AdjacentPageLink>,
    BuildReaderContextError,
>)
    ensures
        match (
            r,
            adjacent_spec(
                book@,
                page_views_of(pages@),
                match index {
                    Some(i) => i as int,
                    None => -1,
                },
            ),
        ) {
            (Ok(l), Ok(v)) => adjacent_opt(l) == v,
            (Err(e), Err(v)) => e@ == v,
            _ => false,
        },
{
    let index = match index {
        None => {
            return Ok(None);
        },
        Some(i) => i,
    };
    if index >= book.authored_page_order.len() {
        return Ok(None);
    }
    let source_path = &book.authored_page_order[index];
    assert(book@.authored_page_order[index as int] == source_path@);
    match find_page_by_path(pages, source_path.as_str()) {
        None => Err(
            BuildReaderContextError::MissingAuthoredPage {
                book_id: copy_string(&book.id),
                source_path: copy_string(source_path),
            },
        ),
        Some(page) => Ok(
            Some(
                AdjacentPageLink {
                    title: copy_string(&page.title),
                    source_path: copy_string(&page.source_path),
                },
            ),
        ),
    }
}

fn page_context(site: &ReaderSite, sidebar: &BookSidebar, book: &ReaderBook, index: usize) -> (r: Result<
    AuthoredPageReaderContext,
    BuildReaderContextError,
>)
    requires
        index < book.authored_page_order.len(),
    ensures
        match (r, context_step(*site, *sidebar, book@, index as int)) {
            (Ok(c), Ok(v)) => c@ == v,
            (Err(e), Err(v)) => e@ == v,
            _ => false,
        },
{
    let source_path = &book.authored_page_order[index];
    assert(book@.authored_page_order[index as int] == source_path@);
    match find_page_by_path(&site.authored_pages, source_path.as_str()) {
        None => {
            return Err(
                BuildReaderContextError::MissingAuthoredPage {
                    book_id: copy_string(&book.id),
                    source_path: copy_string(source_path),
                },
            );
        },
        Some(_) => {},
    }
    let page_title = match find_sidebar_title(&sidebar.chapter_entries, source_path.as_str()) {
        None => {
            return Err(
                BuildReaderContextError::MissingSidebarChapter {
                    book_id: copy_string(&book.id),
                    source_path: copy_string(source_path),
                },
            );
        },
        Some(t) => t,
    };
    let previous_page = match adjacent_page_link(
        book,
        &site.authored_pages,
        if index == 0 {
            None
        } else {
            Some(index - 1)
        },
    ) {
        Err(e) => {
            return Err(e);
        },
        Ok(l) => l,
    };
    let next_page = match adjacent_page_link(book, &site.authored_pages, Some(index + 1)) {
        Err(e) => {
            return Err(e);
        },
        Ok(l) => l,
    };
    Ok(
        AuthoredPageReaderContext {
            source_path: copy_string(source_path),
            page_title: copy_string(&page_title),
            active_book: ActiveBookContext { book_id: copy_string(&book.id), title: copy_string(&book.title) },
            breadcrumbs: Breadcrumbs { book_title: copy_string(&book.title), page_title },
            previous_page,
            next_page,
            bookshelf_return: BookshelfReturn {
                page_id: copy_string(&site.bookshelf_page.page_id),
                title: copy_string(&site.bookshelf_page.title),
                route_path: copy_string(&site.bookshelf_page.route_path),
            },
        },
    )
}

/// Finds the first book with id `id`.
fn find_first_book<'a>(books: &'a Vec<ReaderBook>, id: &str) -> (r: Option<&'a ReaderBook>)
    ensures
        match r {
            Some(b) => first_book(books@.map_values(|b: ReaderBook| b@), id@) == Some(b@),
            None => first_book(books@.map_values(|b: ReaderBook| b@), id@) is None,
        },
{
    let ghost all = books@.map_values(|b: ReaderBook| b@);
    let mut i: usize = 0;
    assert(all.subrange(0, all.len() as int) =~= all);
    while i < books.len()
        invariant
            i <= books.len(),
            all == books@.map_values(|b: ReaderBook| b@),
            first_book(all, id@) == first_book(all.subrange(i as int, all.len() as int), id@),
        decreases books.len() - i,
    {
        let ghost rest = all.subrange(i as int, all.len() as int);
        assert(rest[0] == all[i as int]);
        assert(rest.subrange(1, rest.len() as int) =~= all.subrange(i + 1, all.len() as int));
        if str_eq(books[i].id.as_str(), id) {
            return Some(&books[i]);
        }
        i += 1;
    }
    None
}

/// Builds the reader context of every page of every book, in book order,
/// and that of the Bookshelf page; fails at the first book without a
/// sidebar, page missing from the site or the sidebar, or when the book
/// that owns the Bookshelf page is missing.
pub fn build_reader_context_model(site_model: &ReaderSite, sidebar_model: &SidebarModel) -> (r: Result<
    ReaderContextModel,
    BuildReaderContextError,
>)
    ensures
        match books_contexts(*site_model, sidebar_model.sidebars@, site_model.books.len() as int) {
            Err(v) => r matches Err(e) && e@ == v,
            Ok(cs) => match first_book(site_model.book_views(), site_model.bookshelf_page.owner_book_id@) {
                None => r matches Err(e) && e@ == (BuildReaderContextErrorView::MissingBook {
                    book_id: site_model.bookshelf_page.owner_book_id@,
                }),
                Some(root) => r matches Ok(m) && m.contexts() == cs && bookshelf_context_is(
                    m.bookshelf_page_context,
                    *site_model,
                    root,
                ),
            },
        },
{
    let ghost books = site_model.book_views();
    let ghost sbs = sidebar_model.sidebars@;
    let mut contexts: Vec<AuthoredPageReaderContext> = Vec::new();
    let mut k: usize = 0;
    assert(contexts@.map_values(|c: AuthoredPageReaderContext| c@) =~= Seq::<AuthoredContextView>::empty());
    while k < site_model.books.len()
        invariant
            k <= site_model.books.len(),
            books == site_model.book_views(),
            sbs == sidebar_model.sidebars@,
            books_contexts(*site_model, sbs, k as int) == Ok::<
                Seq<AuthoredContextView>,
                BuildReaderContextErrorView,
            >(contexts@.map_values(|c: AuthoredPageReaderContext| c@)),
        decreases site_model.books.len() - k,
    {
        let book = &site_model.books[k];
        assert(books[k as int] == book@);
        let sidebar = match sidebar_model.sidebar_for(book.id.as_str()) {
            None => {
                proof {
                    lemma_books_contexts_err_propagates(*site_model, sbs, k as int + 1, books.len() as int);
                }
                return Err(BuildReaderContextError::MissingSidebar { book_id: copy_string(&book.id) });
            },
            Some(s) => s,
        };
        let ghost start = contexts@.map_values(|c: AuthoredPageReaderContext| c@);
        let mut i: usize = 0;
        assert(start.skip(start.len() as int) =~= Seq::<AuthoredContextView>::empty());
        assert(start.take(start.len() as int) =~= start);
        while i < book.authored_page_order.len()
            invariant
                i <= book.authored_page_order.len(),
                k < site_model.books.len(),
                book == site_model.books@[k as int],
                books == site_model.book_views(),
                sbs == sidebar_model.sidebars@,
                first_sidebar(sbs, book@.id) == Some(*sidebar),
                books_contexts(*site_model, sbs, k as int) == Ok::<
                    Seq<AuthoredContextView>,
                    BuildReaderContextErrorView,
                >(start),
                book_contexts(*site_model, *sidebar, book@, i as int) == Ok::<
                    Seq<AuthoredContextView>,
                    BuildReaderContextErrorView,
                >(contexts@.map_values(|c: AuthoredPageReaderContext| c@).skip(start.len() as int)),
                contexts@.map_values(|c: AuthoredPageReaderContext| c@).take(start.len() as int) == start,
                contexts@.len() >= start.len(),
            decreases book.authored_page_order.len() - i,
        {
            match page_context(site_model, sidebar, book, i) {
                Err(e) => {
                    proof {
                        lemma_book_contexts_err_propagates(
                            *site_model,
                            *sidebar,
                            book@,
                            i as int + 1,
                            book@.authored_page_order.len() as int,
                        );
                        lemma_books_contexts_err_propagates(*site_model, sbs, k as int + 1, books.len() as int);
                    }
                    return Err(e);
                },
                Ok(c) => {
                    let ghost before = contexts@.map_values(|c: AuthoredPageReaderContext| c@);
                    contexts.push(c);
                    proof {
                        let after = contexts@.map_values(|c: AuthoredPageReaderContext| c@);
                        assert(after =~= before.push(c@));
                        assert(after.skip(start.len() as int) =~= before.skip(start.len() as int).push(c@));
                        assert(after.take(start.len() as int) =~= before.take(start.len() as int));
                    }
                },
            }
            i += 1;
        }
        proof {
            let now = contexts@.map_values(|c: AuthoredPageReaderContext| c@);
            assert(now =~= start + now.skip(start.len() as int));
        }
        k += 1;
    }
    let root_book = match find_first_book(&site_model.books, site_model.bookshelf_page.owner_book_id.as_str()) {
        None => {
            return Err(
                BuildReaderContextError::MissingBook {
                    book_id: copy_string(&site_model.bookshelf_page.owner_book_id),
                },
            );
        },
        Some(b) => b,
    };
    Ok(
        ReaderContextModel {
            authored_page_contexts: contexts,
            bookshelf_page_context: BookshelfPageReaderContext {
                page_id: copy_string(&site_model.bookshelf_page.page_id),
                title: copy_string(&site_model.bookshelf_page.title),
                route_path: copy_string(&site_model.bookshelf_page.route_path),
                active_book: ActiveBookContext {
                    book_id: copy_string(&root_book.id),
                    title: copy_string(&root_book.title),
                },
                breadcrumbs: Breadcrumbs {
                    book_title: copy_string(&root_book.title),
                    page_title: copy_string(&site_model.bookshelf_page.title),
                },
                previous_page: None,
                next_page: None,
            },
        },
    )
}

proof fn lemma_book_contexts_err_propagates(
    site: ReaderSite,
    sidebar: BookSidebar,
    book: ReaderBookView,
    a: int,
    b: int,
)
    requires
        0 <= a <= b,
        book_contexts(site, sidebar, book, a) is Err,
    ensures
        book_contexts(site, sidebar, book, b) == book_contexts(site, sidebar, book, a),
    decreases b - a,
{
    if a < b {
        lemma_book_contexts_err_propagates(site, sidebar, book, a, b - 1);
    }
}

proof fn lemma_books_contexts_err_propagates(site: ReaderSite, sidebars: Seq<BookSidebar>, a: int, b: int)
    requires
        0 <= a <= b,
        books_contexts(site, sidebars, a) is Err,
    ensures
        books_contexts(site, sidebars, b) == books_contexts(site, sidebars, a),
    decreases b - a,
{
    if a < b {
        lemma_books_contexts_err_propagates(site, sidebars, a, b - 1);
    }
}

/// The text that describes the error.
pub open spec fn reader_context_error_text(e: &BuildReaderContextError) -> Seq<char> {
    match e {
        BuildReaderContextError::MissingBook { book_id } => "site model is missing book `"@ + book_id@ + "` while building reader context"@,
        BuildReaderContextError::MissingSidebar { book_id } => "sidebar model is missing book `"@ + book_id@ + "` while building reader context"@,
        BuildReaderContextError::MissingAuthoredPage { book_id, source_path } => "site model is missing authored page "@ + source_path@ + " for book `"@ + book_id@ + "` while building reader context"@,
        BuildReaderContextError::MissingSidebarChapter { book_id, source_path } => "sidebar model is missing chapter "@ + source_path@ + " for book `"@ + book_id@ + "` while building reader context"@,
        BuildReaderContextError::SourcePathIo { path, message } => "failed to normalize source path "@ + path@ + ": "@ + message@,
    }
}

impl BuildReaderContextError {
    /// The text that describes the error, for reports.
    pub fn message(&self) -> (r: String)
        ensures
            r@ == reader_context_error_text(self),
    {
        match self {
            BuildReaderContextError::MissingBook { book_id } => {
                let mut s = string_from("site model is missing book `");
                s.append(book_id.as_str());
                s.append("` while building reader context");
                s
            },
            BuildReaderContextError::MissingSidebar { book_id } => {
                let mut s = string_from("sidebar model is missing book `");
                s.append(book_id.as_str());
                s.append("` while building reader context");
                s
            },
            BuildReaderContextError::MissingAuthoredPage { book_id, source_path } => {
                let mut s = string_from("site model is missing authored page ");
                s.append(source_path.as_str());
                s.append(" for book `");
                s.append(book_id.as_str());
                s.append("` while building reader context");
                s
            },
            BuildReaderContextError::MissingSidebarChapter { book_id, source_path } => {
                let mut s = string_from("sidebar model is missing chapter ");
                s.append(source_path.as_str());
                s.append(" for book `");
                s.append(book_id.as_str());
                s.append("` while building reader context");
                s
            },
            BuildReaderContextError::SourcePathIo { path, message } => {
                let mut s = string_from("failed to normalize source path ");
                s.append(path.as_str());
                s.append(": ");
                s.append(message.as_str());
                s
            },
        }
    }
}

/// The breadcrumbs of `c` name its book and its page, and its page title is
/// the title of its chapter in its book's sidebar.
pub open spec fn titled_by_sidebar(sidebars: Seq<BookSidebar>, c: AuthoredContextView) -> bool {
    &&& c.crumb_page_title == c.page_title
    &&& c.crumb_book_title == c.active_book_title
    &&& first_sidebar(sidebars, c.active_book_id) matches Some(sb) && title_in(
        sb.chapter_entries@,
        c.source_path,
    ) == Some(c.page_title)
}

/// `c` returns to the site's Bookshelf page.
pub open spec fn returns_to_bookshelf(site: ReaderSite, c: AuthoredContextView) -> bool {
    &&& c.return_page_id == site.bookshelf_page.page_id@
    &&& c.return_title == site.bookshelf_page.title@
    &&& c.return_route_path == site.bookshelf_page.route_path@
}

proof fn lemma_book_contexts_titled(
    site: ReaderSite,
    sidebars: Seq<BookSidebar>,
    sb: BookSidebar,
    book: ReaderBookView,
    n: int,
)
    requires
        first_sidebar(sidebars, book.id) == Some(sb),
    ensures
        book_contexts(site, sb, book, n) matches Ok(cs) ==> forall|i: int|
            0 <= i < cs.len() ==> titled_by_sidebar(sidebars, #[trigger] cs[i]) && returns_to_bookshelf(site, cs[i]),
    decreases n,
{
    if n > 0 {
        lemma_book_contexts_titled(site, sidebars, sb, book, n - 1);
    }
}

proof fn lemma_books_contexts_titled(site: ReaderSite, sidebars: Seq<BookSidebar>, k: int)
    ensures
        books_contexts(site, sidebars, k) matches Ok(cs) ==> forall|i: int|
            0 <= i < cs.len() ==> titled_by_sidebar(sidebars, #[trigger] cs[i]) && returns_to_bookshelf(site, cs[i]),
    decreases k,
{
    if k > 0 {
        lemma_books_contexts_titled(site, sidebars, k - 1);
        let book = site.book_views()[k - 1];
        if let Some(sb) = first_sidebar(sidebars, book.id) {
            lemma_book_contexts_titled(site, sidebars, sb, book, book.authored_page_order.len() as int);
            if let Ok(cs) = books_contexts(site, sidebars, k) {
                let prev = books_contexts(site, sidebars, k - 1)->Ok_0;
                let more = book_contexts(site, sb, book, book.authored_page_order.len() as int)->Ok_0;
                assert(cs == prev + more);
                assert forall|i: int| 0 <= i < cs.len() implies titled_by_sidebar(sidebars, #[trigger] cs[i])
                    && returns_to_bookshelf(site, cs[i]) by {
                    if i < prev.len() {
                        assert(cs[i] == prev[i]);
                    } else {
                        assert(cs[i] == more[i - prev.len()]);
                    }
                }
            }
        }
    }
}

/// Law: in every authored page context, the breadcrumbs name the page's
/// book and the page itself (`page_title` equals the context's page
/// title, never the book's), and that page title is the title of the
/// page's chapter in its book's sidebar; every context returns to the
/// site's Bookshelf page.
pub proof fn lemma_contexts_titled_by_sidebar(site: ReaderSite, sidebars: Seq<BookSidebar>)
    ensures
        books_contexts(site, sidebars, site.books.len() as int) matches Ok(cs) ==> forall|i: int|
            0 <= i < cs.len() ==> titled_by_sidebar(sidebars, #[trigger] cs[i]) && returns_to_bookshelf(site, cs[i]),
{
    lemma_books_contexts_titled(site, sidebars, site.books.len() as int);
}

} // verus!
