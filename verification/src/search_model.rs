//! Search documents: one per content page of every book, in book order.
use vstd::prelude::*;
use crate::navigation::{entry_for, NavigationMetadata, PageNavigationView};
use crate::navigation::find_page;
use crate::navigation::{lemma_page_by_id, page_by_id};
use crate::site_model::{SiteBook, SiteBookView, SiteModel, SitePage, SitePageKind, SitePageView};
use crate::text::{copy_string, str_eq, string_from};

verus! {

/// The search documents of a site.
#[derive(Debug, Clone, PartialEq, Eq)]
pub struct SearchDocuments {
    pub documents: Vec<SearchDocument>,
}

/// The search document of one content page.
#[derive(Debug, Clone, PartialEq, Eq)]
pub struct SearchDocument {
    pub document_id: String,
    pub page_id: String,
    pub title: String,
    pub content_text: String,
    pub owning_book_id: String,
    pub owning_book_label: String,
    pub breadcrumb: String,
}

/// A search document as plain values.
pub struct SearchDocumentView {
    pub document_id: Seq<char>,
    pub page_id: Seq<char>,
    pub title: Seq<char>,
    pub content_text: Seq<char>,
    pub owning_book_id: Seq<char>,
    pub owning_book_label: Seq<char>,
    pub breadcrumb: Seq<char>,
}

impl View for SearchDocument {
    type V = SearchDocumentView;

    open spec fn view(&self) -> SearchDocumentView {
        SearchDocumentView {
            document_id: self.document_id@,
            page_id: self.page_id@,
            title: self.title@,
            content_text: self.content_text@,
            owning_book_id: self.owning_book_id@,
            owning_book_label: self.owning_book_label@,
            breadcrumb: self.breadcrumb@,
        }
    }
}

impl SearchDocuments {
    /// The documents as plain values.
    pub open spec fn docs(&self) -> Seq<SearchDocumentView> {
        self.documents@.map_values(|d: SearchDocument| d@)
    }
}

/// Why the search documents could not be built.
#[derive(Debug, Clone, PartialEq, Eq)]
pub enum SearchModelError {
    /// A book lists a page id that no site page has.
    MissingPage { page_id: String, book_id: String },
    /// A book lists the synthetic Bookshelf page.
    NotContentPage { page_id: String, book_id: String },
    /// The navigation has no entry for a listed page.
    MissingNavigation { page_id: String },
    /// The navigation entry of a content page has no breadcrumb.
    MissingBreadcrumb { page_id: String },
    /// The book that owns a page is not in the site model.
    MissingOwningBook { owning_book_id: String, page_id: String },
}

/// A search model error as plain values.
pub enum SearchModelErrorView {
    MissingPage { page_id: Seq<char>, book_id: Seq<char> },
    NotContentPage { page_id: Seq<char>, book_id: Seq<char> },
    MissingNavigation { page_id: Seq<char> },
    MissingBreadcrumb { page_id: Seq<char> },
    MissingOwningBook { owning_book_id: Seq<char>, page_id: Seq<char> },
}

impl View for SearchModelError {
    type V = SearchModelErrorView;

    open spec fn view(&self) -> SearchModelErrorView {
        match self {
            SearchModelError::MissingPage { page_id, book_id } => SearchModelErrorView::MissingPage {
                page_id: page_id@,
                book_id: book_id@,
            },
            SearchModelError::NotContentPage { page_id, book_id } =>
                SearchModelErrorView::NotContentPage { page_id: page_id@, book_id: book_id@ },
            SearchModelError::MissingNavigation { page_id } =>
                SearchModelErrorView::MissingNavigation { page_id: page_id@ },
            SearchModelError::MissingBreadcrumb { page_id } =>
                SearchModelErrorView::MissingBreadcrumb { page_id: page_id@ },
            SearchModelError::MissingOwningBook { owning_book_id, page_id } =>
                SearchModelErrorView::MissingOwningBook {
                owning_book_id: owning_book_id@,
                page_id: page_id@,
            },
        }
    }
}

/// The last book with id `id`: the one that a lookup by id finds.
pub open spec fn book_by_id(books: Seq<SiteBookView>, id: Seq<char>) -> Option<SiteBookView>
    decreases books.len(),
{
    if books.len() == 0 {
        None
    } else if books.last().book_id == id {
        Some(books.last())
    } else {
        book_by_id(books.drop_last(), id)
    }
}

/// The id of the search document of page `page_id`.
pub open spec fn document_id_of(page_id: Seq<char>) -> Seq<char> {
    "search:"@ + page_id
}

/// The search document of the page `id` listed by `book`, or why there is none.
pub open spec fn search_step(
    books: Seq<SiteBookView>,
    pages: Seq<SitePageView>,
    nav: Seq<PageNavigationView>,
    book: SiteBookView,
    id: Seq<char>,
) -> Result<SearchDocumentView, SearchModelErrorView> {
    match page_by_id(pages, id) {
        None => Err(SearchModelErrorView::MissingPage { page_id: id, book_id: book.book_id }),
        Some(p) => if p.kind != SitePageKind::Content {
            Err(SearchModelErrorView::NotContentPage { page_id: id, book_id: book.book_id })
        } else {
            match entry_for(nav, id) {
                None => Err(SearchModelErrorView::MissingNavigation { page_id: id }),
                Some(e) => match e.breadcrumb {
                    None => Err(SearchModelErrorView::MissingBreadcrumb { page_id: id }),
                    Some(crumb) => match book_by_id(books, p.owning_book_id) {
                        None => Err(
                            SearchModelErrorView::MissingOwningBook {
                                owning_book_id: p.owning_book_id,
                                page_id: id,
                            },
                        ),
                        Some(owner) => Ok(
                            SearchDocumentView {
                                document_id: document_id_of(p.page_id),
                                page_id: p.page_id,
                                title: p.title,
                                content_text: p.title,
                                owning_book_id: p.owning_book_id,
                                owning_book_label: owner.title,
                                breadcrumb: crumb,
                            },
                        ),
                    },
                },
            }
        },
    }
}

/// The documents of the first `n` pages of `book`.
pub open spec fn book_docs(
    books: Seq<SiteBookView>,
    pages: Seq<SitePageView>,
    nav: Seq<PageNavigationView>,
    book: SiteBookView,
    n: int,
) -> Result<Seq<SearchDocumentView>, SearchModelErrorView>
    decreases n,
{
    if n <= 0 {
        Ok(Seq::empty())
    } else {
        match book_docs(books, pages, nav, book, n - 1) {
            Err(e) => Err(e),
            Ok(ds) => match search_step(books, pages, nav, book, book.page_ids_in_order[n - 1]) {
                Err(e) => Err(e),
                Ok(d) => Ok(ds.push(d)),
            },
        }
    }
}

/// The documents of the first `k` books.
pub open spec fn books_docs(
    books: Seq<SiteBookView>,
    pages: Seq<SitePageView>,
    nav: Seq<PageNavigationView>,
    k: int,
) -> Result<Seq<SearchDocumentView>, SearchModelErrorView>
    decreases k,
{
    if k <= 0 {
        Ok(Seq::empty())
    } else {
        match books_docs(books, pages, nav, k - 1) {
            Err(e) => Err(e),
            Ok(ds) => match book_docs(
                books,
                pages,
                nav,
                books[k - 1],
                books[k - 1].page_ids_in_order.len() as int,
            ) {
                Err(e) => Err(e),
                Ok(more) => Ok(ds + more),
            },
        }
    }
}

/// The search documents of a site model, or the first reason it has none.
pub open spec fn search_documents_of(m: SiteModel, nav: Seq<PageNavigationView>) -> Result<
    Seq<SearchDocumentView>,
    SearchModelErrorView,
> {
    books_docs(
        m.books@.map_values(|b: SiteBook| b@),
        m.pages@.map_values(|p: SitePage| p@),
        nav,
        m.books.len() as int,
    )
}

/// Finds the book that a lookup by `id` finds.
pub fn find_book<'a>(books: &'a Vec<SiteBook>, id: &str) -> (r: Option<&'a SiteBook>)
    ensures
        match r {
            Some(b) => book_by_id(books@.map_values(|q: SiteBook| q@), id@) == Some(b@),
            None => book_by_id(books@.map_values(|q: SiteBook| q@), id@) is None,
        },
{
    let ghost all = books@.map_values(|q: SiteBook| q@);
    let mut i = books.len();
    assert(all.take(i as int) =~= all);
    while i > 0
        invariant
            i <= books.len(),
            all == books@.map_values(|q: SiteBook| q@),
            book_by_id(all, id@) == book_by_id(all.take(i as int), id@),
        decreases i,
    {
        let ghost bs = all.take(i as int);
        assert(bs.drop_last() =~= all.take(i - 1));
        if str_eq(books[i - 1].book_id.as_str(), id) {
            return Some(&books[i - 1]);
        }
        i -= 1;
    }
    None
}

fn search_document(
    site_model: &SiteModel,
    navigation: &NavigationMetadata,
    book: &SiteBook,
    page_id: &String,
) -> (r: Result<SearchDocument, SearchModelError>)
    ensures
        match (
            r,
            search_step(
                site_model.books@.map_values(|b: SiteBook| b@),
                site_model.pages@.map_values(|p: SitePage| p@),
                navigation.entries(),
                book@,
                page_id@,
            ),
        ) {
            (Ok(d), Ok(v)) => d@ == v,
            (Err(e), Err(v)) => e@ == v,
            _ => false,
        },
{
    let page = match find_page(&site_model.pages, page_id.as_str()) {
        None => {
            return Err(
                SearchModelError::MissingPage {
                    page_id: copy_string(page_id),
                    book_id: copy_string(&book.book_id),
                },
            );
        },
        Some(p) => p,
    };
    match page.kind {
        SitePageKind::Content => {},
        SitePageKind::SyntheticBookshelf => {
            return Err(
                SearchModelError::NotContentPage {
                    page_id: copy_string(page_id),
                    book_id: copy_string(&book.book_id),
                },
            );
        },
    }
    let nav = match navigation.for_page(page_id.as_str()) {
        None => {
            return Err(SearchModelError::MissingNavigation { page_id: copy_string(page_id) });
        },
        Some(n) => n,
    };
    let breadcrumb = match &nav.breadcrumb {
        None => {
            return Err(SearchModelError::MissingBreadcrumb { page_id: copy_string(page_id) });
        },
        Some(c) => copy_string(c),
    };
    let owner = match find_book(&site_model.books, page.owning_book_id.as_str()) {
        None => {
            return Err(
                SearchModelError::MissingOwningBook {
                    owning_book_id: copy_string(&page.owning_book_id),
                    page_id: copy_string(page_id),
                },
            );
        },
        Some(b) => b,
    };
    let mut document_id = string_from("search:");
    document_id.append(page.page_id.as_str());
    Ok(
        SearchDocument {
            document_id,
            page_id: copy_string(&page.page_id),
            title: copy_string(&page.title),
            content_text: copy_string(&page.title),
            owning_book_id: copy_string(&page.owning_book_id),
            owning_book_label: copy_string(&owner.title),
            breadcrumb,
        },
    )
}

/// Builds one search document per page of every book, in book order, from
/// the pages' titles and their navigation breadcrumbs; fails at the first
/// page that is missing, not a content page, without navigation or
/// breadcrumb, or whose owning book is unknown.
pub fn build_search_documents(site_model: &SiteModel, navigation: &NavigationMetadata) -> (r: Result<
    SearchDocuments,
    SearchModelError,
>)
    ensures
        match (r, search_documents_of(*site_model, navigation.entries())) {
            (Ok(d), Ok(v)) => d.docs() == v,
            (Err(e), Err(v)) => e@ == v,
            _ => false,
        },
{
    let ghost pages = site_model.pages@.map_values(|q: SitePage| q@);
    let ghost books = site_model.books@.map_values(|b: SiteBook| b@);
    let ghost nav = navigation.entries();
    let mut documents: Vec<SearchDocument> = Vec::new();
    let mut k: usize = 0;
    assert(documents@.map_values(|d: SearchDocument| d@) =~= Seq::<SearchDocumentView>::empty());
    while k < site_model.books.len()
        invariant
            k <= site_model.books.len(),
            pages == site_model.pages@.map_values(|q: SitePage| q@),
            books == site_model.books@.map_values(|b: SiteBook| b@),
            nav == navigation.entries(),
            books_docs(books, pages, nav, k as int) == Ok::<
                Seq<SearchDocumentView>,
                SearchModelErrorView,
            >(documents@.map_values(|d: SearchDocument| d@)),
        decreases site_model.books.len() - k,
    {
        let book = &site_model.books[k];
        assert(books[k as int] == book@);
        let ghost start = documents@.map_values(|d: SearchDocument| d@);
        let mut i: usize = 0;
        assert(start.skip(start.len() as int) =~= Seq::<SearchDocumentView>::empty());
        assert(start.take(start.len() as int) =~= start);
        while i < book.page_ids_in_order.len()
            invariant
                i <= book.page_ids_in_order.len(),
                k < site_model.books.len(),
                book == site_model.books@[k as int],
                pages == site_model.pages@.map_values(|q: SitePage| q@),
                books == site_model.books@.map_values(|b: SiteBook| b@),
                nav == navigation.entries(),
                books_docs(books, pages, nav, k as int) == Ok::<
                    Seq<SearchDocumentView>,
                    SearchModelErrorView,
                >(start),
                book_docs(books, pages, nav, book@, i as int) == Ok::<
                    Seq<SearchDocumentView>,
                    SearchModelErrorView,
                >(documents@.map_values(|d: SearchDocument| d@).skip(start.len() as int)),
                documents@.map_values(|d: SearchDocument| d@).take(start.len() as int) == start,
                documents@.len() >= start.len(),
            decreases book.page_ids_in_order.len() - i,
        {
            assert(book@.page_ids_in_order[i as int] == book.page_ids_in_order@[i as int]@);
            match search_document(site_model, navigation, book, &book.page_ids_in_order[i]) {
                Err(e) => {
                    proof {
                        lemma_book_docs_err(books, pages, nav, book@, i as int);
                        lemma_books_docs_err_at(books, pages, nav, k as int, i as int + 1, e@);
                        lemma_books_docs_err_propagates(
                            books,
                            pages,
                            nav,
                            k as int + 1,
                            books.len() as int,
                        );
                    }
                    return Err(e);
                },
                Ok(doc) => {
                    let ghost before = documents@.map_values(|d: SearchDocument| d@);
                    documents.push(doc);
                    proof {
                        let after = documents@.map_values(|d: SearchDocument| d@);
                        assert(after =~= before.push(doc@));
                        assert(after.skip(start.len() as int) =~= before.skip(start.len() as int).push(
                            doc@,
                        ));
                        assert(after.take(start.len() as int) =~= before.take(start.len() as int));
                    }
                },
            }
            i += 1;
        }
        proof {
            let now = documents@.map_values(|d: SearchDocument| d@);
            assert(now =~= start + now.skip(start.len() as int));
        }
        k += 1;
    }
    Ok(SearchDocuments { documents })
}

proof fn lemma_book_docs_err(
    books: Seq<SiteBookView>,
    pages: Seq<SitePageView>,
    nav: Seq<PageNavigationView>,
    book: SiteBookView,
    i: int,
)
    requires
        0 <= i,
        book_docs(books, pages, nav, book, i) is Ok,
        search_step(books, pages, nav, book, book.page_ids_in_order[i]) is Err,
    ensures
        book_docs(books, pages, nav, book, i + 1) == Err::<
            Seq<SearchDocumentView>,
            SearchModelErrorView,
        >(search_step(books, pages, nav, book, book.page_ids_in_order[i])->Err_0),
{
}

proof fn lemma_book_docs_err_propagates(
    books: Seq<SiteBookView>,
    pages: Seq<SitePageView>,
    nav: Seq<PageNavigationView>,
    book: SiteBookView,
    a: int,
    b: int,
)
    requires
        0 <= a <= b,
        book_docs(books, pages, nav, book, a) is Err,
    ensures
        book_docs(books, pages, nav, book, b) == book_docs(books, pages, nav, book, a),
    decreases b - a,
{
    if a < b {
        lemma_book_docs_err_propagates(books, pages, nav, book, a, b - 1);
    }
}

proof fn lemma_books_docs_err_at(
    books: Seq<SiteBookView>,
    pages: Seq<SitePageView>,
    nav: Seq<PageNavigationView>,
    k: int,
    i: int,
    e: SearchModelErrorView,
)
    requires
        0 <= k < books.len(),
        0 <= i <= books[k].page_ids_in_order.len(),
        books_docs(books, pages, nav, k) is Ok,
        book_docs(books, pages, nav, books[k], i) == Err::<Seq<SearchDocumentView>, SearchModelErrorView>(
            e,
        ),
    ensures
        books_docs(books, pages, nav, k + 1) == Err::<Seq<SearchDocumentView>, SearchModelErrorView>(e),
{
    lemma_book_docs_err_propagates(books, pages, nav, books[k], i, books[k].page_ids_in_order.len() as int);
}

proof fn lemma_books_docs_err_propagates(
    books: Seq<SiteBookView>,
    pages: Seq<SitePageView>,
    nav: Seq<PageNavigationView>,
    a: int,
    b: int,
)
    requires
        0 <= a <= b,
        books_docs(books, pages, nav, a) is Err,
    ensures
        books_docs(books, pages, nav, b) == books_docs(books, pages, nav, a),
    decreases b - a,
{
    if a < b {
        lemma_books_docs_err_propagates(books, pages, nav, a, b - 1);
    }
}

/// The text that describes the error.
pub open spec fn search_model_error_text(e: &SearchModelError) -> Seq<char> {
    match e {
        SearchModelError::MissingPage { page_id, book_id } => "search model missing site page '"@ + page_id@ + "' referenced by book '"@ + book_id@ + "'"@,
        SearchModelError::NotContentPage { page_id, book_id } => "search model expected content page '"@ + page_id@ + "' for book '"@ + book_id@ + "'"@,
        SearchModelError::MissingNavigation { page_id } => "search model missing navigation metadata for page '"@ + page_id@ + "'"@,
        SearchModelError::MissingBreadcrumb { page_id } => "search model missing breadcrumb for content page '"@ + page_id@ + "'"@,
        SearchModelError::MissingOwningBook { owning_book_id, page_id } => "search model missing owning book '"@ + owning_book_id@ + "' for page '"@ + page_id@ + "'"@,
    }
}

impl SearchModelError {
    /// The text that describes the error, for reports.
    pub fn message(&self) -> (r: String)
        ensures
            r@ == search_model_error_text(self),
    {
        match self {
            SearchModelError::MissingPage { page_id, book_id } => {
                let mut s = string_from("search model missing site page '");
                s.append(page_id.as_str());
                s.append("' referenced by book '");
                s.append(book_id.as_str());
                s.append("'");
                s
            },
            SearchModelError::NotContentPage { page_id, book_id } => {
                let mut s = string_from("search model expected content page '");
                s.append(page_id.as_str());
                s.append("' for book '");
                s.append(book_id.as_str());
                s.append("'");
                s
            },
            SearchModelError::MissingNavigation { page_id } => {
                let mut s = string_from("search model missing navigation metadata for page '");
                s.append(page_id.as_str());
                s.append("'");
                s
            },
            SearchModelError::MissingBreadcrumb { page_id } => {
                let mut s = string_from("search model missing breadcrumb for content page '");
                s.append(page_id.as_str());
                s.append("'");
                s
            },
            SearchModelError::MissingOwningBook { owning_book_id, page_id } => {
                let mut s = string_from("search model missing owning book '");
                s.append(owning_book_id.as_str());
                s.append("' for page '");
                s.append(page_id.as_str());
                s.append("'");
                s
            },
        }
    }
}

/// `d` is the search document of the content page of `pages` with its page
/// id: it carries that page's title (as title and as text), its owning book
/// and the id `search:<page id>`.
pub open spec fn built_from_its_page(pages: Seq<SitePageView>, d: SearchDocumentView) -> bool {
    page_by_id(pages, d.page_id) matches Some(p) && p.page_id == d.page_id && p.kind == SitePageKind::Content
        && d.title == p.title && d.content_text == p.title && d.owning_book_id == p.owning_book_id && d.document_id
        == "search:"@ + d.page_id
}

/// `d` is labelled with the title of its owning book and carries the
/// breadcrumb of its page's navigation entry.
pub open spec fn labelled_by_book_and_navigation(
    books: Seq<SiteBookView>,
    nav: Seq<PageNavigationView>,
    d: SearchDocumentView,
) -> bool {
    &&& book_by_id(books, d.owning_book_id) matches Some(b) && d.owning_book_label == b.title
    &&& entry_for(nav, d.page_id) matches Some(e) && e.breadcrumb == Some(d.breadcrumb)
}

proof fn lemma_step_built_from_page(
    books: Seq<SiteBookView>,
    pages: Seq<SitePageView>,
    nav: Seq<PageNavigationView>,
    book: SiteBookView,
    id: Seq<char>,
)
    ensures
        search_step(books, pages, nav, book, id) matches Ok(d) ==> built_from_its_page(pages, d)
            && labelled_by_book_and_navigation(books, nav, d),
{
    lemma_page_by_id(pages, id);
}

proof fn lemma_book_docs_built_from_pages(
    books: Seq<SiteBookView>,
    pages: Seq<SitePageView>,
    nav: Seq<PageNavigationView>,
    book: SiteBookView,
    n: int,
)
    ensures
        book_docs(books, pages, nav, book, n) matches Ok(ds) ==> forall|i: int|
            0 <= i < ds.len() ==> built_from_its_page(pages, #[trigger] ds[i]) && labelled_by_book_and_navigation(
                books,
                nav,
                ds[i],
            ),
    decreases n,
{
    if n > 0 {
        lemma_book_docs_built_from_pages(books, pages, nav, book, n - 1);
        lemma_step_built_from_page(books, pages, nav, book, book.page_ids_in_order[n - 1]);
    }
}

proof fn lemma_books_docs_built_from_pages(
    books: Seq<SiteBookView>,
    pages: Seq<SitePageView>,
    nav: Seq<PageNavigationView>,
    k: int,
)
    ensures
        books_docs(books, pages, nav, k) matches Ok(ds) ==> forall|i: int|
            0 <= i < ds.len() ==> built_from_its_page(pages, #[trigger] ds[i]) && labelled_by_book_and_navigation(
                books,
                nav,
                ds[i],
            ),
    decreases k,
{
    if k > 0 {
        lemma_books_docs_built_from_pages(books, pages, nav, k - 1);
        lemma_book_docs_built_from_pages(books, pages, nav, books[k - 1], books[k - 1].page_ids_in_order.len() as int);
        if let Ok(ds) = books_docs(books, pages, nav, k) {
            let prev = books_docs(books, pages, nav, k - 1)->Ok_0;
            let more = book_docs(books, pages, nav, books[k - 1], books[k - 1].page_ids_in_order.len() as int)->Ok_0;
            assert(ds == prev + more);
            assert forall|i: int| 0 <= i < ds.len() implies built_from_its_page(pages, #[trigger] ds[i])
                && labelled_by_book_and_navigation(books, nav, ds[i]) by {
                if i < prev.len() {
                    assert(ds[i] == prev[i]);
                } else {
                    assert(ds[i] == more[i - prev.len()]);
                }
            }
        }
    }
}

/// Law: every search document of a site is built from the content page with
/// its page id: its title and text are that page's title (not its book's),
/// its book is the page's owning book, its id is `search:<page id>`, its
/// label is the owning book's title and its breadcrumb that of the page's
/// navigation entry.
pub proof fn lemma_search_documents_built_from_pages(m: SiteModel, nav: Seq<PageNavigationView>)
    ensures
        search_documents_of(m, nav) matches Ok(ds) ==> forall|i: int|
            0 <= i < ds.len() ==> built_from_its_page(m.pages@.map_values(|p: SitePage| p@), #[trigger] ds[i])
                && labelled_by_book_and_navigation(m.books@.map_values(|b: SiteBook| b@), nav, ds[i]),
{
    lemma_books_docs_built_from_pages(
        m.books@.map_values(|b: SiteBook| b@),
        m.pages@.map_values(|p: SitePage| p@),
        nav,
        m.books.len() as int,
    );
}

} // verus!
