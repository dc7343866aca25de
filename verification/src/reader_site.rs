//! The reader's view of a site: its books with their authored pages in
//! reading order, and the Bookshelf page that lists the books.
use vstd::prelude::*;
use crate::text::opt_view;

verus! {

/// A site as the reader sees it.
#[derive(Debug, Clone, PartialEq, Eq)]
pub struct ReaderSite {
    pub config_path: String,
    pub root_book: String,
    pub books: Vec<ReaderBook>,
    pub authored_pages: Vec<AuthoredPage>,
    pub bookshelf_page: BookshelfPage,
    pub root_entry: SiteRoot,
}

/// A book and the source paths of its pages in reading order.
#[derive(Debug, Clone, PartialEq, Eq)]
pub struct ReaderBook {
    pub id: String,
    pub title: String,
    pub authored_page_order: Vec<String>,
}

/// A page written by an author, with its place in its book's summary.
#[derive(Debug, Clone, PartialEq, Eq)]
pub struct AuthoredPage {
    pub title: String,
    pub source_path: String,
    pub book_id: String,
    pub order: usize,
    pub summary_depth: usize,
}

/// The Bookshelf page and the books it lists.
#[derive(Debug, Clone, PartialEq, Eq)]
pub struct BookshelfPage {
    pub page_id: String,
    pub title: String,
    pub route_path: String,
    pub owner_book_id: String,
    pub shelf_items: Vec<ShelfItem>,
}

/// One book on the Bookshelf page.
#[derive(Debug, Clone, PartialEq, Eq)]
pub struct ShelfItem {
    pub book_id: String,
    pub title: String,
    pub description: Option<String>,
    pub target_source_path: String,
}

/// What the site root shows.
#[derive(Debug, Clone, PartialEq, Eq)]
pub enum SiteRoot {
    BookshelfPage { page_id: String },
}

/// A reader book as plain values.
pub struct ReaderBookView {
    pub id: Seq<char>,
    pub title: Seq<char>,
    pub authored_page_order: Seq<Seq<char>>,
}

impl View for ReaderBook {
    type V = ReaderBookView;

    open spec fn view(&self) -> ReaderBookView {
        ReaderBookView {
            id: self.id@,
            title: self.title@,
            authored_page_order: self.authored_page_order.deep_view(),
        }
    }
}

/// An authored page as plain values.
pub struct AuthoredPageView {
    pub title: Seq<char>,
    pub source_path: Seq<char>,
    pub book_id: Seq<char>,
    pub order: usize,
    pub summary_depth: usize,
}

impl View for AuthoredPage {
    type V = AuthoredPageView;

    open spec fn view(&self) -> AuthoredPageView {
        AuthoredPageView {
            title: self.title@,
            source_path: self.source_path@,
            book_id: self.book_id@,
            order: self.order,
            summary_depth: self.summary_depth,
        }
    }
}

/// A shelf item as plain values.
pub struct ShelfItemView {
    pub book_id: Seq<char>,
    pub title: Seq<char>,
    pub description: Option<Seq<char>>,
    pub target_source_path: Seq<char>,
}

impl View for ShelfItem {
    type V = ShelfItemView;

    open spec fn view(&self) -> ShelfItemView {
        ShelfItemView {
            book_id: self.book_id@,
            title: self.title@,
            description: opt_view(self.description),
            target_source_path: self.target_source_path@,
        }
    }
}

/// Pages as plain values.
pub open spec fn page_views_of(ps: Seq<AuthoredPage>) -> Seq<AuthoredPageView> {
    ps.map_values(|p: AuthoredPage| p@)
}

impl ReaderSite {
    /// The books as plain values.
    pub open spec fn book_views(&self) -> Seq<ReaderBookView> {
        self.books@.map_values(|b: ReaderBook| b@)
    }

    /// The authored pages as plain values.
    pub open spec fn page_views(&self) -> Seq<AuthoredPageView> {
        page_views_of(self.authored_pages@)
    }
}

} // verus!
