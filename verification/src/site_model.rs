//! The site model: every page of the site, the synthetic Bookshelf page
//! first, then the content pages of each book in reading order.
use vstd::prelude::*;
use crate::catalog::InputCatalog;
use crate::loader::{LoadedBook, LoadedBooks, LoadedChapter};
use crate::numbers::{decimal, format_decimal, format_padded4, padded4};
use crate::paths::{with_extension, with_extension_path};
use crate::shelf::search::slashed;
use crate::text::{copy_string, opt_view, push_char, string_from};

verus! {

/// The kind of a site page.
#[derive(Debug, Clone, Copy, PartialEq, Eq)]
pub enum SitePageKind {
    SyntheticBookshelf,
    Content,
}

/// The pages and books of a site.
#[derive(Debug, Clone, PartialEq, Eq)]
pub struct SiteModel {
    pub root_book_id: String,
    pub synthetic_bookshelf_page_id: String,
    pub books: Vec<SiteBook>,
    pub pages: Vec<SitePage>,
}

/// A book of the site and its content pages in reading order.
#[derive(Debug, Clone, PartialEq, Eq)]
pub struct SiteBook {
    pub book_id: String,
    pub title: String,
    pub is_root_book: bool,
    pub page_ids_in_order: Vec<String>,
}

/// A page of the site.
#[derive(Debug, Clone, PartialEq, Eq)]
pub struct SitePage {
    pub page_id: String,
    pub kind: SitePageKind,
    pub owning_book_id: String,
    pub title: String,
    pub route: String,
    pub source_path: Option<String>,
    pub order_in_book: Option<usize>,
}

/// A site page as plain values.
pub struct SitePageView {
    pub page_id: Seq<char>,
    pub kind: SitePageKind,
    pub owning_book_id: Seq<char>,
    pub title: Seq<char>,
    pub route: Seq<char>,
    pub source_path: Option<Seq<char>>,
    pub order_in_book: Option<usize>,
}

impl View for SitePage {
    type V = SitePageView;

    open spec fn view(&self) -> SitePageView {
        SitePageView {
            page_id: self.page_id@,
            kind: self.kind,
            owning_book_id: self.owning_book_id@,
            title: self.title@,
            route: self.route@,
            source_path: opt_view(self.source_path),
            order_in_book: self.order_in_book,
        }
    }
}

/// A site book as plain values.
pub struct SiteBookView {
    pub book_id: Seq<char>,
    pub title: Seq<char>,
    pub is_root_book: bool,
    pub page_ids_in_order: Seq<Seq<char>>,
}

impl View for SiteBook {
    type V = SiteBookView;

    open spec fn view(&self) -> SiteBookView {
        SiteBookView {
            book_id: self.book_id@,
            title: self.title@,
            is_root_book: self.is_root_book,
            page_ids_in_order: self.page_ids_in_order.deep_view(),
        }
    }
}

/// Why the site model could not be built.
#[derive(Debug, Clone, PartialEq, Eq)]
pub enum SiteModelError {
    RootBookMismatch { catalog: String, loaded: String },
    BookCountMismatch { catalog: usize, loaded: usize },
    BookOrderMismatch { index: usize, catalog: String, loaded: String },
}

/// The id of the synthetic Bookshelf page.
pub open spec fn bookshelf_page_id() -> Seq<char> {
    "bookshelf:root"@
}

/// The id of the content page number `order` of a book: `<book>:<order>`,
/// the order written with at least four digits.
pub open spec fn content_page_id(book_id: Seq<char>, order: nat) -> Seq<char> {
    book_id + seq![':'] + padded4(order)
}

/// The route of a chapter: `/<book>/<path without extension>`.
pub open spec fn content_route(book_id: Seq<char>, path: Seq<char>) -> Seq<char> {
    seq!['/'] + book_id + seq!['/'] + slashed(with_extension_path(path, Seq::empty()))
}

/// The content pages of a book: one for each chapter with a path, numbered
/// in reading order.
pub open spec fn chapter_pages(book_id: Seq<char>, chapters: Seq<LoadedChapter>) -> Seq<SitePageView>
    decreases chapters.len(),
{
    if chapters.len() == 0 {
        Seq::empty()
    } else {
        let prev = chapter_pages(book_id, chapters.drop_last());
        match chapters.last().path {
            Some(p) => prev.push(
                SitePageView {
                    page_id: content_page_id(book_id, prev.len()),
                    kind: SitePageKind::Content,
                    owning_book_id: book_id,
                    title: chapters.last().name@,
                    route: content_route(book_id, p@),
                    source_path: Some(p@),
                    order_in_book: Some(prev.len() as usize),
                },
            ),
            None => prev,
        }
    }
}

/// The content pages of all loaded books, book after book.
pub open spec fn all_content_pages(books: Seq<LoadedBook>) -> Seq<SitePageView>
    decreases books.len(),
{
    if books.len() == 0 {
        Seq::empty()
    } else {
        all_content_pages(books.drop_last()) + chapter_pages(
            books.last().book_id@,
            books.last().chapters@,
        )
    }
}

/// The synthetic Bookshelf page, owned by the root book and routed at `/`.
pub open spec fn bookshelf_page_view(root_book_id: Seq<char>) -> SitePageView {
    SitePageView {
        page_id: bookshelf_page_id(),
        kind: SitePageKind::SyntheticBookshelf,
        owning_book_id: root_book_id,
        title: "Bookshelf"@,
        route: "/"@,
        source_path: None,
        order_in_book: None,
    }
}

/// The ids of a list of pages.
pub open spec fn page_ids(pages: Seq<SitePageView>) -> Seq<Seq<char>> {
    Seq::new(pages.len(), |i: int| pages[i].page_id)
}

/// The first index at which the catalog and the loaded books name different
/// books.
pub open spec fn first_order_mismatch(catalog: InputCatalog, loaded: LoadedBooks, k: int) -> Option<int>
    decreases catalog.books.len() - k,
{
    if k < 0 || k >= catalog.books.len() || k >= loaded.books.len() {
        None
    } else if catalog.books@[k].id@ != loaded.books@[k].book_id@ {
        Some(k)
    } else {
        first_order_mismatch(catalog, loaded, k + 1)
    }
}

/// What `build_site_model` gives for a catalog and its loaded books.
pub open spec fn site_model_ok(catalog: InputCatalog, loaded: LoadedBooks, m: SiteModel) -> bool {
    &&& m.root_book_id@ == catalog.root_book_id@
    &&& m.synthetic_bookshelf_page_id@ == bookshelf_page_id()
    &&& m.pages@.map_values(|p: SitePage| p@) == seq![bookshelf_page_view(catalog.root_book_id@)]
        + all_content_pages(loaded.books@)
    &&& m.books.len() == catalog.books.len()
    &&& forall|k: int|
        0 <= k < m.books.len() ==> {
            let b = #[trigger] m.books@[k]@;
            let c = catalog.books@[k];
            &&& b.book_id == c.id@
            &&& b.title == c.title@
            &&& b.is_root_book == c.is_root_book
            &&& b.page_ids_in_order == page_ids(
                chapter_pages(loaded.books@[k].book_id@, loaded.books@[k].chapters@),
            )
        }
}

/// The content pages of one book, pushed onto `pages`; returns their ids.
fn push_book_pages(pages: &mut Vec<SitePage>, book: &LoadedBook) -> (ids: Vec<String>)
    ensures
        final(pages)@.map_values(|p: SitePage| p@) == old(pages)@.map_values(|p: SitePage| p@)
            + chapter_pages(book.book_id@, book.chapters@),
        ids.deep_view() == page_ids(chapter_pages(book.book_id@, book.chapters@)),
{
    let ghost start = pages@.map_values(|p: SitePage| p@);
    let ghost bid = book.book_id@;
    let mut ids: Vec<String> = Vec::new();
    let mut i: usize = 0;
    while i < book.chapters.len()
        invariant
            i <= book.chapters.len(),
            bid == book.book_id@,
            pages@.map_values(|p: SitePage| p@) == start + chapter_pages(
                bid,
                book.chapters@.take(i as int),
            ),
            ids.deep_view() == page_ids(chapter_pages(bid, book.chapters@.take(i as int))),
        decreases book.chapters.len() - i,
    {
        let ghost prefix = book.chapters@.take(i as int);
        assert(book.chapters@.take(i + 1).drop_last() =~= prefix);
        let chapter = &book.chapters[i];
        match &chapter.path {
            None => {},
            Some(path) => {
                let order = ids.len();
                let ghost prev = chapter_pages(bid, prefix);
                assert(ids.deep_view().len() == ids.len());
                assert(page_ids(prev).len() == prev.len());
                assert(prev.len() == order);
                let mut page_id = copy_string(&book.book_id);
                push_char(&mut page_id, ':');
                page_id.append(format_padded4(order).as_str());
                let mut route = String::new();
                push_char(&mut route, '/');
                route.append(book.book_id.as_str());
                push_char(&mut route, '/');
                let stem = with_extension(path.as_str(), "");
                let display = slash_string(stem.as_str());
                route.append(display.as_str());
                proof {
                    reveal_strlit("");
                    assert(""@ =~= Seq::<char>::empty());
                    assert(page_id@ =~= content_page_id(bid, order as nat));
                    assert(route@ =~= content_route(bid, path@));
                }
                let page = SitePage {
                    page_id: copy_string(&page_id),
                    kind: SitePageKind::Content,
                    owning_book_id: copy_string(&book.book_id),
                    title: copy_string(&chapter.name),
                    route,
                    source_path: Some(copy_string(path)),
                    order_in_book: Some(order),
                };
                let ghost before_pages = pages@.map_values(|p: SitePage| p@);
                let ghost before_ids = ids.deep_view();
                pages.push(page);
                ids.push(page_id);
                proof {
                    let new_view = chapter_pages(bid, book.chapters@.take(i + 1));
                    assert(new_view == prev.push(page@));
                    assert(pages@.map_values(|p: SitePage| p@) =~= before_pages.push(page@));
                    assert(ids.deep_view() =~= before_ids.push(page_id@));
                    assert(page_ids(new_view) =~= page_ids(prev).push(page_id@));
                    assert(ids.deep_view() =~= page_ids(new_view));
                }
            },
        }
        i += 1;
    }
    assert(book.chapters@.take(book.chapters.len() as int) =~= book.chapters@);
    ids
}

/// `s` with backslashes made forward slashes.
pub fn slash_string(s: &str) -> (r: String)
    ensures
        r@ == slashed(s@),
{
    let v = crate::text::chars_of(s);
    let mut r = String::new();
    let mut i: usize = 0;
    while i < v.len()
        invariant
            i <= v.len(),
            v@ == s@,
            r@ =~= slashed(v@).take(i as int),
        decreases v.len() - i,
    {
        if v[i] == '\\' {
            push_char(&mut r, '/');
        } else {
            push_char(&mut r, v[i]);
        }
        i += 1;
    }
    assert(slashed(v@).take(v.len() as int) =~= slashed(v@));
    r
}

/// Builds the site model from the catalog and the books loaded from it,
/// which must name the same root book and the same books in the same order.
pub fn build_site_model(catalog: &InputCatalog, loaded: &LoadedBooks) -> (r: Result<SiteModel, SiteModelError>)
    ensures
        catalog.root_book_id@ != loaded.root_book_id@ ==> (r matches Err(SiteModelError::RootBookMismatch { catalog: c, loaded: l })
            && c@ == catalog.root_book_id@ && l@ == loaded.root_book_id@),
        catalog.root_book_id@ == loaded.root_book_id@ && catalog.books.len() != loaded.books.len()
            ==> r == Err::<SiteModel, SiteModelError>(SiteModelError::BookCountMismatch {
                catalog: catalog.books.len(),
                loaded: loaded.books.len(),
            }),
        catalog.root_book_id@ == loaded.root_book_id@ && catalog.books.len() == loaded.books.len()
            ==> match first_order_mismatch(*catalog, *loaded, 0) {
                Some(k) => r matches Err(SiteModelError::BookOrderMismatch { index, catalog: c, loaded: l }) && index == k
                    && c@ == catalog.books@[k].id@ && l@ == loaded.books@[k].book_id@,
                None => r matches Ok(m) && site_model_ok(*catalog, *loaded, m),
            },
{
    if !crate::text::str_eq(catalog.root_book_id.as_str(), loaded.root_book_id.as_str()) {
        return Err(
            SiteModelError::RootBookMismatch {
                catalog: copy_string(&catalog.root_book_id),
                loaded: copy_string(&loaded.root_book_id),
            },
        );
    }
    if catalog.books.len() != loaded.books.len() {
        return Err(
            SiteModelError::BookCountMismatch {
                catalog: catalog.books.len(),
                loaded: loaded.books.len(),
            },
        );
    }
    let mut books: Vec<SiteBook> = Vec::new();
    let mut pages: Vec<SitePage> = Vec::new();
    let synthetic_bookshelf_page_id = string_from("bookshelf:root");
    pages.push(
        SitePage {
            page_id: copy_string(&synthetic_bookshelf_page_id),
            kind: SitePageKind::SyntheticBookshelf,
            owning_book_id: copy_string(&catalog.root_book_id),
            title: string_from("Bookshelf"),
            route: string_from("/"),
            source_path: None,
            order_in_book: None,
        },
    );
    assert(pages@.map_values(|p: SitePage| p@) =~= seq![bookshelf_page_view(catalog.root_book_id@)]);
    let mut index: usize = 0;
    while index < catalog.books.len()
        invariant
            index <= catalog.books.len() == loaded.books.len(),
            catalog.root_book_id@ == loaded.root_book_id@,
            forall|k: int| 0 <= k < index ==> catalog.books@[k].id@ == loaded.books@[k].book_id@,
            books.len() == index,
            pages@.map_values(|p: SitePage| p@) == seq![bookshelf_page_view(catalog.root_book_id@)]
                + all_content_pages(loaded.books@.take(index as int)),
            forall|k: int|
                0 <= k < index ==> {
                    let b = #[trigger] books@[k]@;
                    let c = catalog.books@[k];
                    &&& b.book_id == c.id@
                    &&& b.title == c.title@
                    &&& b.is_root_book == c.is_root_book
                    &&& b.page_ids_in_order == page_ids(
                        chapter_pages(loaded.books@[k].book_id@, loaded.books@[k].chapters@),
                    )
                },
        decreases catalog.books.len() - index,
    {
        let catalog_book = &catalog.books[index];
        let loaded_book = &loaded.books[index];
        if !crate::text::str_eq(catalog_book.id.as_str(), loaded_book.book_id.as_str()) {
            proof {
                lemma_first_mismatch_at(*catalog, *loaded, 0, index as int);
            }
            return Err(
                SiteModelError::BookOrderMismatch {
                    index,
                    catalog: copy_string(&catalog_book.id),
                    loaded: copy_string(&loaded_book.book_id),
                },
            );
        }
        let ghost before = pages@.map_values(|p: SitePage| p@);
        let page_ids_in_order = push_book_pages(&mut pages, loaded_book);
        proof {
            assert(loaded.books@.take(index + 1).drop_last() =~= loaded.books@.take(index as int));
            assert(loaded.books@.take(index + 1).last() == loaded.books@[index as int]);
        }
        books.push(
            SiteBook {
                book_id: copy_string(&catalog_book.id),
                title: copy_string(&catalog_book.title),
                is_root_book: catalog_book.is_root_book,
                page_ids_in_order,
            },
        );
        index += 1;
    }
    proof {
        assert(loaded.books@.take(index as int) =~= loaded.books@);
        lemma_no_mismatch(*catalog, *loaded, 0);
    }
    Ok(
        SiteModel {
            root_book_id: copy_string(&catalog.root_book_id),
            synthetic_bookshelf_page_id,
            books,
            pages,
        },
    )
}

proof fn lemma_first_mismatch_at(catalog: InputCatalog, loaded: LoadedBooks, a: int, k: int)
    requires
        0 <= a <= k < catalog.books.len(),
        k < loaded.books.len(),
        forall|j: int| a <= j < k ==> catalog.books@[j].id@ == loaded.books@[j].book_id@,
        catalog.books@[k].id@ != loaded.books@[k].book_id@,
    ensures
        first_order_mismatch(catalog, loaded, a) == Some(k),
    decreases k - a,
{
    if a < k {
        lemma_first_mismatch_at(catalog, loaded, a + 1, k);
    }
}

proof fn lemma_no_mismatch(catalog: InputCatalog, loaded: LoadedBooks, a: int)
    requires
        0 <= a,
        catalog.books.len() == loaded.books.len(),
        forall|j: int| a <= j < catalog.books.len() ==> catalog.books@[j].id@ == loaded.books@[j].book_id@,
    ensures
        first_order_mismatch(catalog, loaded, a) is None,
    decreases catalog.books.len() - a,
{
    if a < catalog.books.len() {
        lemma_no_mismatch(catalog, loaded, a + 1);
    }
}

/// The text that describes the error.
pub open spec fn site_model_error_text(e: &SiteModelError) -> Seq<char> {
    match e {
        SiteModelError::RootBookMismatch { catalog, loaded } => "site model root book mismatch: catalog='"@ + catalog@ + "' loaded='"@ + loaded@ + "'"@,
        SiteModelError::BookCountMismatch { catalog, loaded } => "site model book count mismatch: catalog="@ + decimal(*catalog as nat) + " loaded="@ + decimal(*loaded as nat),
        SiteModelError::BookOrderMismatch { index, catalog, loaded } => "site model book order mismatch at index "@ + decimal(*index as nat) + ": catalog='"@ + catalog@ + "' loaded='"@ + loaded@ + "'"@,
    }
}

impl SiteModelError {
    /// The text that describes the error, for reports.
    pub fn message(&self) -> (r: String)
        ensures
            r@ == site_model_error_text(self),
    {
        match self {
            SiteModelError::RootBookMismatch { catalog, loaded } => {
                let mut s = string_from("site model root book mismatch: catalog='");
                s.append(catalog.as_str());
                s.append("' loaded='");
                s.append(loaded.as_str());
                s.append("'");
                s
            },
            SiteModelError::BookCountMismatch { catalog, loaded } => {
                let mut s = string_from("site model book count mismatch: catalog=");
                s.append(format_decimal(*catalog).as_str());
                s.append(" loaded=");
                s.append(format_decimal(*loaded).as_str());
                s
            },
            SiteModelError::BookOrderMismatch { index, catalog, loaded } => {
                let mut s = string_from("site model book order mismatch at index ");
                s.append(format_decimal(*index).as_str());
                s.append(": catalog='");
                s.append(catalog.as_str());
                s.append("' loaded='");
                s.append(loaded.as_str());
                s.append("'");
                s
            },
        }
    }
}

} // verus!
