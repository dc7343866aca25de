//! Reading-order navigation: for every content page its book and its
//! previous and next pages.
use vstd::prelude::*;
use crate::site_model::{SiteBook, SiteBookView, SiteModel, SitePage, SitePageKind, SitePageView};
use crate::text::{chars_of, copy_string, opt_view, str_eq, string_from};

verus! {

/// The navigation of every content page.
///
/// `by_page_id` is kept as a map keyed by page id: one entry per page id,
/// in ascending id order; a later visit of a page id replaces the entry of
/// an earlier one.
#[derive(Debug, Clone, PartialEq, Eq)]
pub struct NavigationMetadata {
    pub by_page_id: Vec<PageNavigation>,
}

/// The navigation of one page.
#[derive(Debug, Clone, PartialEq, Eq)]
pub struct PageNavigation {
    pub page_id: String,
    pub owning_book_id: String,
    pub prev_page_id: Option<String>,
    pub next_page_id: Option<String>,
    pub active_book_id: String,
    pub breadcrumb: Option<String>,
}

/// A page navigation as plain values.
pub struct PageNavigationView {
    pub page_id: Seq<char>,
    pub owning_book_id: Seq<char>,
    pub prev_page_id: Option<Seq<char>>,
    pub next_page_id: Option<Seq<char>>,
    pub active_book_id: Seq<char>,
    pub breadcrumb: Option<Seq<char>>,
}

impl View for PageNavigation {
    type V = PageNavigationView;

    open spec fn view(&self) -> PageNavigationView {
        PageNavigationView {
            page_id: self.page_id@,
            owning_book_id: self.owning_book_id@,
            prev_page_id: opt_view(self.prev_page_id),
            next_page_id: opt_view(self.next_page_id),
            active_book_id: self.active_book_id@,
            breadcrumb: opt_view(self.breadcrumb),
        }
    }
}

/// Why the navigation could not be built.
#[derive(Debug, Clone, PartialEq, Eq)]
pub enum NavigationError {
    /// A book lists a page id that no site page has.
    MissingPage { page_id: String, book_id: String },
    /// A book lists the synthetic Bookshelf page.
    NotContentPage { page_id: String, book_id: String },
    /// A book lists a page that another book owns.
    OwnershipMismatch { page_id: String, page_owner: String, book_id: String },
}

/// A navigation error as plain values.
pub enum NavigationErrorView {
    MissingPage { page_id: Seq<char>, book_id: Seq<char> },
    NotContentPage { page_id: Seq<char>, book_id: Seq<char> },
    OwnershipMismatch { page_id: Seq<char>, page_owner: Seq<char>, book_id: Seq<char> },
}

impl View for NavigationError {
    type V = NavigationErrorView;

    open spec fn view(&self) -> NavigationErrorView {
        match self {
            NavigationError::MissingPage { page_id, book_id } => NavigationErrorView::MissingPage {
                page_id: page_id@,
                book_id: book_id@,
            },
            NavigationError::NotContentPage { page_id, book_id } =>
                NavigationErrorView::NotContentPage { page_id: page_id@, book_id: book_id@ },
            NavigationError::OwnershipMismatch { page_id, page_owner, book_id } =>
                NavigationErrorView::OwnershipMismatch {
                page_id: page_id@,
                page_owner: page_owner@,
                book_id: book_id@,
            },
        }
    }
}

/// The last page with id `id`: the one that a lookup by id finds.
pub open spec fn page_by_id(pages: Seq<SitePageView>, id: Seq<char>) -> Option<SitePageView>
    decreases pages.len(),
{
    if pages.len() == 0 {
        None
    } else if pages.last().page_id == id {
        Some(pages.last())
    } else {
        page_by_id(pages.drop_last(), id)
    }
}

/// The last navigation entry for `id`.
pub open spec fn entry_for(entries: Seq<PageNavigationView>, id: Seq<char>) -> Option<PageNavigationView>
    decreases entries.len(),
{
    if entries.len() == 0 {
        None
    } else if entries.last().page_id == id {
        Some(entries.last())
    } else {
        entry_for(entries.drop_last(), id)
    }
}

/// The position of the last entry for `id`.
pub open spec fn id_pos(ks: Seq<PageNavigationView>, id: Seq<char>) -> Option<int>
    decreases ks.len(),
{
    if ks.len() == 0 {
        None
    } else if ks.last().page_id == id {
        Some(ks.len() - 1)
    } else {
        id_pos(ks.drop_last(), id)
    }
}

/// `a` comes before `b` in the order of `String`: character by character,
/// by code point, a proper prefix before the longer text.
pub open spec fn id_before(a: Seq<char>, b: Seq<char>) -> bool
    decreases a.len(),
{
    if a.len() == 0 {
        b.len() > 0
    } else if b.len() == 0 {
        false
    } else if a[0] != b[0] {
        (a[0] as u32) < (b[0] as u32)
    } else {
        id_before(a.skip(1), b.skip(1))
    }
}

/// The place of `id` among entries kept in id order: the number of leading
/// entries whose id comes before it.
pub open spec fn slot(ks: Seq<PageNavigationView>, id: Seq<char>) -> int
    decreases ks.len(),
{
    if ks.len() == 0 {
        0
    } else if id_before(ks[0].page_id, id) {
        1 + slot(ks.skip(1), id)
    } else {
        0
    }
}

/// Puts `e` among entries kept in id order: it replaces the entry with its
/// page id, or else is inserted at its place.
pub open spec fn put_by_id(ks: Seq<PageNavigationView>, e: PageNavigationView) -> Seq<PageNavigationView> {
    let i = slot(ks, e.page_id);
    if i < ks.len() && ks[i].page_id == e.page_id {
        ks.update(i, e)
    } else {
        ks.insert(i, e)
    }
}

/// The entries kept by page id, in id order: each visit puts its entry,
/// a later visit of a page id replacing the entry of an earlier one.
pub open spec fn keyed_entries(es: Seq<PageNavigationView>) -> Seq<PageNavigationView>
    decreases es.len(),
{
    if es.len() == 0 {
        Seq::empty()
    } else {
        put_by_id(keyed_entries(es.drop_last()), es.last())
    }
}

/// The page ids strictly ascend.
pub open spec fn ids_ascending(ks: Seq<PageNavigationView>) -> bool {
    forall|i: int, j: int| 0 <= i < j < ks.len() ==> id_before((#[trigger] ks[i]).page_id, (#[trigger] ks[j]).page_id)
}

/// No page id occurs twice.
pub open spec fn distinct_ids(ks: Seq<PageNavigationView>) -> bool {
    forall|i: int, j: int| 0 <= i < j < ks.len() ==> (#[trigger] ks[i]).page_id != (#[trigger] ks[j]).page_id
}

proof fn lemma_id_pos(ks: Seq<PageNavigationView>, id: Seq<char>)
    ensures
        match id_pos(ks, id) {
            Some(i) => 0 <= i < ks.len() && ks[i].page_id == id && entry_for(ks, id) == Some(ks[i]),
            None => forall|j: int| 0 <= j < ks.len() ==> (#[trigger] ks[j]).page_id != id,
        },
        id_pos(ks, id) is None <==> entry_for(ks, id) is None,
    decreases ks.len(),
{
    if ks.len() > 0 {
        lemma_id_pos(ks.drop_last(), id);
        if ks.last().page_id != id {
            if let Some(i) = id_pos(ks, id) {
                assert(ks.drop_last()[i] == ks[i]);
            } else {
                assert forall|j: int| 0 <= j < ks.len() implies (#[trigger] ks[j]).page_id != id by {
                    if j < ks.len() - 1 {
                        assert(ks.drop_last()[j] == ks[j]);
                    }
                }
            }
        }
    }
}

proof fn lemma_entry_for_distinct(ks: Seq<PageNavigationView>, id: Seq<char>, i: int)
    requires
        distinct_ids(ks),
        0 <= i < ks.len(),
        ks[i].page_id == id,
    ensures
        entry_for(ks, id) == Some(ks[i]),
{
    lemma_id_pos(ks, id);
    if let Some(p) = id_pos(ks, id) {
        if p != i {
            if p < i {
                assert(ks[p].page_id != ks[i].page_id);
            } else {
                assert(ks[i].page_id != ks[p].page_id);
            }
        }
    }
}

proof fn lemma_before_irreflexive(a: Seq<char>)
    ensures
        !id_before(a, a),
    decreases a.len(),
{
    if a.len() > 0 {
        lemma_before_irreflexive(a.skip(1));
    }
}

proof fn lemma_before_transitive(a: Seq<char>, b: Seq<char>, c: Seq<char>)
    requires
        id_before(a, b),
        id_before(b, c),
    ensures
        id_before(a, c),
    decreases a.len(),
{
    if a.len() > 0 && b.len() > 0 && c.len() > 0 && a[0] == b[0] && b[0] == c[0] {
        lemma_before_transitive(a.skip(1), b.skip(1), c.skip(1));
    }
}

proof fn lemma_before_total(a: Seq<char>, b: Seq<char>)
    ensures
        a == b || id_before(a, b) || id_before(b, a),
    decreases a.len(),
{
    if a.len() > 0 && b.len() > 0 {
        if a[0] == b[0] {
            lemma_before_total(a.skip(1), b.skip(1));
            if a.skip(1) == b.skip(1) {
                assert(a =~= seq![a[0]] + a.skip(1));
                assert(b =~= seq![b[0]] + b.skip(1));
            }
        } else {
            vstd::utf8::char_u32_cast(a[0], a[0] as u32);
            vstd::utf8::char_u32_cast(b[0], b[0] as u32);
            assert((a[0] as u32) != (b[0] as u32));
        }
    } else if a.len() == 0 && b.len() == 0 {
        assert(a =~= b);
    }
}

proof fn lemma_before_asymmetric(a: Seq<char>, b: Seq<char>)
    requires
        id_before(a, b),
    ensures
        !id_before(b, a),
{
    if id_before(b, a) {
        lemma_before_transitive(a, b, a);
        lemma_before_irreflexive(a);
    }
}

proof fn lemma_slot(ks: Seq<PageNavigationView>, id: Seq<char>)
    ensures
        0 <= slot(ks, id) <= ks.len(),
        forall|j: int| 0 <= j < slot(ks, id) ==> id_before((#[trigger] ks[j]).page_id, id),
        slot(ks, id) < ks.len() ==> !id_before(ks[slot(ks, id)].page_id, id),
    decreases ks.len(),
{
    if ks.len() > 0 && id_before(ks[0].page_id, id) {
        lemma_slot(ks.skip(1), id);
        assert forall|j: int| 0 <= j < slot(ks, id) implies id_before((#[trigger] ks[j]).page_id, id) by {
            if j > 0 {
                assert(ks[j] == ks.skip(1)[j - 1]);
            }
        }
        if slot(ks, id) < ks.len() {
            assert(ks[slot(ks, id)] == ks.skip(1)[slot(ks.skip(1), id)]);
        }
    }
}

/// The place of `id` is the first entry whose id does not come before it.
proof fn lemma_slot_at(ks: Seq<PageNavigationView>, id: Seq<char>, i: int)
    requires
        0 <= i <= ks.len(),
        forall|j: int| 0 <= j < i ==> id_before((#[trigger] ks[j]).page_id, id),
        i < ks.len() ==> !id_before(ks[i].page_id, id),
    ensures
        slot(ks, id) == i,
    decreases i,
{
    if i > 0 {
        assert(id_before(ks[0].page_id, id));
        assert forall|j: int| 0 <= j < i - 1 implies id_before((#[trigger] ks.skip(1)[j]).page_id, id) by {
            assert(ks.skip(1)[j] == ks[j + 1]);
        }
        if i < ks.len() {
            assert(ks.skip(1)[i - 1] == ks[i]);
        }
        lemma_slot_at(ks.skip(1), id, i - 1);
    }
}

/// In entries kept in id order, an entry with id `id` can only stand at
/// its place.
proof fn lemma_slot_unique(ks: Seq<PageNavigationView>, id: Seq<char>, j: int)
    requires
        ids_ascending(ks),
        0 <= j < ks.len(),
        ks[j].page_id == id,
    ensures
        j == slot(ks, id),
{
    lemma_slot(ks, id);
    let i = slot(ks, id);
    if j < i {
        lemma_before_irreflexive(id);
    } else if j > i {
        lemma_before_total(ks[i].page_id, id);
        assert(id_before(ks[i].page_id, ks[j].page_id));
    }
}

proof fn lemma_ascending_distinct(ks: Seq<PageNavigationView>)
    requires
        ids_ascending(ks),
    ensures
        distinct_ids(ks),
{
    assert forall|i: int, j: int| 0 <= i < j < ks.len() implies (#[trigger] ks[i]).page_id != (
    #[trigger] ks[j]).page_id by {
        lemma_before_irreflexive(ks[i].page_id);
    }
}

/// Putting an entry keeps the ids ascending, and changes the lookup of its
/// page id alone.
proof fn lemma_put_by_id(ks: Seq<PageNavigationView>, e: PageNavigationView)
    requires
        ids_ascending(ks),
    ensures
        ids_ascending(put_by_id(ks, e)),
        forall|id: Seq<char>| #[trigger] entry_for(put_by_id(ks, e), id) == (if id == e.page_id {
            Some(e)
        } else {
            entry_for(ks, id)
        }),
{
    let i = slot(ks, e.page_id);
    let r = put_by_id(ks, e);
    lemma_slot(ks, e.page_id);
    lemma_ascending_distinct(ks);
    if i < ks.len() && ks[i].page_id == e.page_id {
        assert(r == ks.update(i, e));
        assert forall|a: int, b: int| 0 <= a < b < r.len() implies id_before(
            (#[trigger] r[a]).page_id,
            (#[trigger] r[b]).page_id,
        ) by {
            assert(id_before(ks[a].page_id, ks[b].page_id));
        }
    } else {
        assert(r == ks.insert(i, e));
        if i < ks.len() {
            lemma_before_total(ks[i].page_id, e.page_id);
        }
        assert forall|a: int, b: int| 0 <= a < b < r.len() implies id_before(
            (#[trigger] r[a]).page_id,
            (#[trigger] r[b]).page_id,
        ) by {
            if b < i {
                assert(id_before(ks[a].page_id, ks[b].page_id));
            } else if b == i {
                assert(r[a] == ks[a]);
            } else if a < i {
                assert(r[b] == ks[b - 1]);
                assert(id_before(ks[a].page_id, ks[b - 1].page_id));
            } else if a == i {
                assert(r[b] == ks[b - 1]);
                if b - 1 > i {
                    assert(id_before(ks[i].page_id, ks[b - 1].page_id));
                    lemma_before_transitive(e.page_id, ks[i].page_id, ks[b - 1].page_id);
                }
            } else {
                assert(id_before(ks[a - 1].page_id, ks[b - 1].page_id));
            }
        }
    }
    lemma_ascending_distinct(r);
    assert forall|id: Seq<char>| #[trigger] entry_for(r, id) == (if id == e.page_id {
        Some(e)
    } else {
        entry_for(ks, id)
    }) by {
        lemma_id_pos(ks, id);
        lemma_id_pos(r, id);
        if id == e.page_id {
            assert(r[i] == e);
            lemma_entry_for_distinct(r, id, i);
        } else if let Some(p) = id_pos(ks, id) {
            lemma_entry_for_distinct(ks, id, p);
            if i < ks.len() && ks[i].page_id == e.page_id {
                assert(r[p] == ks[p]);
                lemma_entry_for_distinct(r, id, p);
            } else if p < i {
                assert(r[p] == ks[p]);
                lemma_entry_for_distinct(r, id, p);
            } else {
                assert(r[p + 1] == ks[p]);
                lemma_entry_for_distinct(r, id, p + 1);
            }
        } else {
            assert forall|j: int| 0 <= j < r.len() implies (#[trigger] r[j]).page_id != id by {
                if i < ks.len() && ks[i].page_id == e.page_id {
                    if j != i {
                        assert(r[j] == ks[j]);
                    }
                } else if j < i {
                    assert(r[j] == ks[j]);
                } else if j > i {
                    assert(r[j] == ks[j - 1]);
                }
            }
        }
    }
}

/// Law: the entries kept by page id are in strictly ascending id order, so
/// no id occurs twice, and no lookup changes: the entry found for any id is
/// the one that the visits leave last.
pub proof fn lemma_keyed_entries(es: Seq<PageNavigationView>)
    ensures
        ids_ascending(keyed_entries(es)),
        distinct_ids(keyed_entries(es)),
        forall|id: Seq<char>| #[trigger] entry_for(keyed_entries(es), id) == entry_for(es, id),
    decreases es.len(),
{
    if es.len() > 0 {
        let rest = es.drop_last();
        lemma_keyed_entries(rest);
        let e = es.last();
        lemma_put_by_id(keyed_entries(rest), e);
        assert forall|id: Seq<char>| #[trigger] entry_for(keyed_entries(es), id) == entry_for(es, id) by {
            assert(entry_for(keyed_entries(rest), id) == entry_for(rest, id));
        }
    }
    lemma_ascending_distinct(keyed_entries(es));
}

/// The breadcrumb of a page: its book title and its title.
pub open spec fn breadcrumb_of(book_title: Seq<char>, page_title: Seq<char>) -> Seq<char> {
    book_title + " / "@ + page_title
}

/// The navigation entry of the `i`-th page of `book`, or why there is none.
pub open spec fn nav_step(book: SiteBookView, pages: Seq<SitePageView>, i: int) -> Result<
    PageNavigationView,
    NavigationErrorView,
> {
    let ids = book.page_ids_in_order;
    let id = ids[i];
    match page_by_id(pages, id) {
        None => Err(NavigationErrorView::MissingPage { page_id: id, book_id: book.book_id }),
        Some(p) => if p.kind != SitePageKind::Content {
            Err(NavigationErrorView::NotContentPage { page_id: id, book_id: book.book_id })
        } else if p.owning_book_id != book.book_id {
            Err(
                NavigationErrorView::OwnershipMismatch {
                    page_id: id,
                    page_owner: p.owning_book_id,
                    book_id: book.book_id,
                },
            )
        } else {
            Ok(
                PageNavigationView {
                    page_id: p.page_id,
                    owning_book_id: book.book_id,
                    prev_page_id: if i == 0 {
                        None
                    } else {
                        Some(ids[i - 1])
                    },
                    next_page_id: if i + 1 >= ids.len() {
                        None
                    } else {
                        Some(ids[i + 1])
                    },
                    active_book_id: book.book_id,
                    breadcrumb: Some(breadcrumb_of(book.title, p.title)),
                },
            )
        },
    }
}

/// The entries of the first `n` pages of `book`.
pub open spec fn book_nav(book: SiteBookView, pages: Seq<SitePageView>, n: int) -> Result<
    Seq<PageNavigationView>,
    NavigationErrorView,
>
    decreases n,
{
    if n <= 0 {
        Ok(Seq::empty())
    } else {
        match book_nav(book, pages, n - 1) {
            Err(e) => Err(e),
            Ok(es) => match nav_step(book, pages, n - 1) {
                Err(e) => Err(e),
                Ok(entry) => Ok(es.push(entry)),
            },
        }
    }
}

/// The entries of the first `k` books.
pub open spec fn books_nav(books: Seq<SiteBookView>, pages: Seq<SitePageView>, k: int) -> Result<
    Seq<PageNavigationView>,
    NavigationErrorView,
>
    decreases k,
{
    if k <= 0 {
        Ok(Seq::empty())
    } else {
        match books_nav(books, pages, k - 1) {
            Err(e) => Err(e),
            Ok(es) => match book_nav(books[k - 1], pages, books[k - 1].page_ids_in_order.len() as int) {
                Err(e) => Err(e),
                Ok(more) => Ok(es + more),
            },
        }
    }
}

/// The navigation of a site model, or the first reason it has none.
pub open spec fn navigation_of(m: SiteModel) -> Result<Seq<PageNavigationView>, NavigationErrorView> {
    books_nav(m.books@.map_values(|b: SiteBook| b@), m.pages@.map_values(|p: SitePage| p@), m.books.len() as int)
}

impl NavigationMetadata {
    /// The entries as plain values.
    pub open spec fn entries(&self) -> Seq<PageNavigationView> {
        self.by_page_id@.map_values(|e: PageNavigation| e@)
    }

    /// The navigation of the page `page_id`.
    pub fn for_page(&self, page_id: &str) -> (r: Option<&PageNavigation>)
        ensures
            match r {
                Some(e) => entry_for(self.entries(), page_id@) == Some(e@),
                None => entry_for(self.entries(), page_id@) is None,
            },
    {
        let mut i = self.by_page_id.len();
        assert(self.entries().take(i as int) =~= self.entries());
        while i > 0
            invariant
                i <= self.by_page_id.len(),
                entry_for(self.entries(), page_id@) == entry_for(self.entries().take(i as int), page_id@),
            decreases i,
        {
            let ghost es = self.entries().take(i as int);
            assert(es.last() == self.by_page_id@[i - 1]@);
            assert(es.drop_last() =~= self.entries().take(i - 1));
            if str_eq(self.by_page_id[i - 1].page_id.as_str(), page_id) {
                return Some(&self.by_page_id[i - 1]);
            }
            i -= 1;
        }
        None
    }

    /// The active book of the page `page_id`.
    pub fn resolve_active_book_id(&self, page_id: &str) -> (r: Option<&str>)
        ensures
            match r {
                Some(b) => entry_for(self.entries(), page_id@) matches Some(e) && b@ == e.active_book_id,
                None => entry_for(self.entries(), page_id@) is None,
            },
    {
        match self.for_page(page_id) {
            Some(entry) => Some(entry.active_book_id.as_str()),
            None => None,
        }
    }
}

/// Finds the page that a lookup by `id` finds.
pub fn find_page<'a>(pages: &'a Vec<SitePage>, id: &str) -> (r: Option<&'a SitePage>)
    ensures
        match r {
            Some(p) => page_by_id(pages@.map_values(|q: SitePage| q@), id@) == Some(p@),
            None => page_by_id(pages@.map_values(|q: SitePage| q@), id@) is None,
        },
{
    let ghost all = pages@.map_values(|q: SitePage| q@);
    let mut i = pages.len();
    assert(all.take(i as int) =~= all);
    while i > 0
        invariant
            i <= pages.len(),
            all == pages@.map_values(|q: SitePage| q@),
            page_by_id(all, id@) == page_by_id(all.take(i as int), id@),
        decreases i,
    {
        let ghost ps = all.take(i as int);
        assert(ps.drop_last() =~= all.take(i - 1));
        if str_eq(pages[i - 1].page_id.as_str(), id) {
            return Some(&pages[i - 1]);
        }
        i -= 1;
    }
    None
}

fn nav_entry(book: &SiteBook, pages: &Vec<SitePage>, i: usize) -> (r: Result<PageNavigation, NavigationError>)
    requires
        i < book.page_ids_in_order.len(),
    ensures
        match (r, nav_step(book@, pages@.map_values(|q: SitePage| q@), i as int)) {
            (Ok(e), Ok(v)) => e@ == v,
            (Err(e), Err(v)) => e@ == v,
            _ => false,
        },
{
    let ids = &book.page_ids_in_order;
    let id = &ids[i];
    assert(book@.page_ids_in_order[i as int] == id@);
    let page = match find_page(pages, id.as_str()) {
        None => {
            return Err(
                NavigationError::MissingPage { page_id: copy_string(id), book_id: copy_string(&book.book_id) },
            );
        },
        Some(p) => p,
    };
    match page.kind {
        SitePageKind::Content => {},
        SitePageKind::SyntheticBookshelf => {
            return Err(
                NavigationError::NotContentPage {
                    page_id: copy_string(id),
                    book_id: copy_string(&book.book_id),
                },
            );
        },
    }
    if !str_eq(page.owning_book_id.as_str(), book.book_id.as_str()) {
        return Err(
            NavigationError::OwnershipMismatch {
                page_id: copy_string(id),
                page_owner: copy_string(&page.owning_book_id),
                book_id: copy_string(&book.book_id),
            },
        );
    }
    let prev_page_id = if i == 0 {
        None
    } else {
        assert(book@.page_ids_in_order[i - 1] == ids@[i - 1]@);
        Some(copy_string(&ids[i - 1]))
    };
    let next_page_id = if i + 1 >= ids.len() {
        None
    } else {
        assert(book@.page_ids_in_order[i + 1] == ids@[i + 1]@);
        Some(copy_string(&ids[i + 1]))
    };
    let mut breadcrumb = copy_string(&book.title);
    breadcrumb.append(" / ");
    breadcrumb.append(page.title.as_str());
    Ok(
        PageNavigation {
            page_id: copy_string(&page.page_id),
            owning_book_id: copy_string(&book.book_id),
            prev_page_id,
            next_page_id,
            active_book_id: copy_string(&book.book_id),
            breadcrumb: Some(breadcrumb),
        },
    )
}

/// Whether `a` comes before `b` in the order of `String`.
fn id_precedes(a: &str, b: &str) -> (r: bool)
    ensures
        r == id_before(a@, b@),
{
    let ca = chars_of(a);
    let cb = chars_of(b);
    let mut i: usize = 0;
    assert(a@.skip(0) =~= a@);
    assert(b@.skip(0) =~= b@);
    while i < ca.len() && i < cb.len() && ca[i] == cb[i]
        invariant
            i <= ca.len(),
            i <= cb.len(),
            ca@ == a@,
            cb@ == b@,
            id_before(a@, b@) == id_before(a@.skip(i as int), b@.skip(i as int)),
        decreases ca.len() - i,
    {
        proof {
            let x = a@.skip(i as int);
            let y = b@.skip(i as int);
            assert(x[0] == y[0]);
            assert(x.skip(1) =~= a@.skip(i + 1));
            assert(y.skip(1) =~= b@.skip(i + 1));
        }
        i += 1;
    }
    let ghost x = a@.skip(i as int);
    let ghost y = b@.skip(i as int);
    if i == ca.len() {
        i < cb.len()
    } else if i == cb.len() {
        false
    } else {
        assert(x[0] == ca@[i as int] && y[0] == cb@[i as int]);
        let c = ca[i];
        let d = cb[i];
        assert(x[0] != y[0]);
        (c as u32) < (d as u32)
    }
}

/// Puts `entry` among entries kept in id order: it replaces the entry with
/// its page id, or else is inserted at its place.
fn put_keyed(by_page_id: &mut Vec<PageNavigation>, entry: PageNavigation)
    ensures
        final(by_page_id)@.map_values(|e: PageNavigation| e@) == put_by_id(
            old(by_page_id)@.map_values(|e: PageNavigation| e@),
            entry@,
        ),
{
    let ghost before = by_page_id@.map_values(|e: PageNavigation| e@);
    let ghost ev = entry@;
    let mut i: usize = 0;
    while i < by_page_id.len() && id_precedes(by_page_id[i].page_id.as_str(), entry.page_id.as_str())
        invariant
            i <= by_page_id.len(),
            before == by_page_id@.map_values(|e: PageNavigation| e@),
            ev == entry@,
            forall|j: int| 0 <= j < i ==> id_before((#[trigger] before[j]).page_id, ev.page_id),
        decreases by_page_id.len() - i,
    {
        i += 1;
    }
    proof {
        lemma_slot_at(before, ev.page_id, i as int);
    }
    if i < by_page_id.len() && str_eq(by_page_id[i].page_id.as_str(), entry.page_id.as_str()) {
        by_page_id.set(i, entry);
        assert(by_page_id@.map_values(|e: PageNavigation| e@) =~= before.update(i as int, ev));
    } else {
        by_page_id.insert(i, entry);
        assert(by_page_id@.map_values(|e: PageNavigation| e@) =~= before.insert(i as int, ev));
    }
}

/// Builds the navigation of every content page from the books' reading
/// orders, one entry per page id; refuses a book that lists a missing page,
/// the Bookshelf page, or a page of another book.
pub fn build_navigation_metadata(site_model: &SiteModel) -> (r: Result<NavigationMetadata, NavigationError>)
    ensures
        match (r, navigation_of(*site_model)) {
            (Ok(nav), Ok(es)) => nav.entries() == keyed_entries(es),
            (Err(e), Err(v)) => e@ == v,
            _ => false,
        },
{
    let ghost pages = site_model.pages@.map_values(|q: SitePage| q@);
    let ghost books = site_model.books@.map_values(|b: SiteBook| b@);
    let mut by_page_id: Vec<PageNavigation> = Vec::new();
    let ghost mut visits: Seq<PageNavigationView> = Seq::empty();
    let mut k: usize = 0;
    assert(by_page_id@.map_values(|e: PageNavigation| e@) =~= keyed_entries(visits));
    while k < site_model.books.len()
        invariant
            k <= site_model.books.len(),
            pages == site_model.pages@.map_values(|q: SitePage| q@),
            books == site_model.books@.map_values(|b: SiteBook| b@),
            books_nav(books, pages, k as int) == Ok::<Seq<PageNavigationView>, NavigationErrorView>(visits),
            by_page_id@.map_values(|e: PageNavigation| e@) == keyed_entries(visits),
        decreases site_model.books.len() - k,
    {
        let book = &site_model.books[k];
        assert(books[k as int] == book@);
        let ghost start = visits;
        let mut i: usize = 0;
        assert(start.skip(start.len() as int) =~= Seq::<PageNavigationView>::empty());
        assert(start.take(start.len() as int) =~= start);
        while i < book.page_ids_in_order.len()
            invariant
                i <= book.page_ids_in_order.len(),
                k < site_model.books.len(),
                book == site_model.books@[k as int],
                pages == site_model.pages@.map_values(|q: SitePage| q@),
                books == site_model.books@.map_values(|b: SiteBook| b@),
                books_nav(books, pages, k as int) == Ok::<Seq<PageNavigationView>, NavigationErrorView>(start),
                book_nav(book@, pages, i as int) == Ok::<Seq<PageNavigationView>, NavigationErrorView>(
                    visits.skip(start.len() as int),
                ),
                visits.take(start.len() as int) == start,
                visits.len() >= start.len(),
                by_page_id@.map_values(|e: PageNavigation| e@) == keyed_entries(visits),
            decreases book.page_ids_in_order.len() - i,
        {
            match nav_entry(book, &site_model.pages, i) {
                Err(e) => {
                    proof {
                        lemma_book_nav_err(book@, pages, i as int);
                        lemma_books_nav_err_at(books, pages, k as int, e@);
                        lemma_books_nav_err_propagates(books, pages, k as int + 1, books.len() as int);
                    }
                    return Err(e);
                },
                Ok(entry) => {
                    let ghost before = visits;
                    proof {
                        visits = visits.push(entry@);
                        assert(visits.drop_last() =~= before);
                        assert(visits.skip(start.len() as int) =~= before.skip(start.len() as int).push(entry@));
                        assert(visits.take(start.len() as int) =~= before.take(start.len() as int));
                    }
                    put_keyed(&mut by_page_id, entry);
                },
            }
            i += 1;
        }
        proof {
            assert(visits =~= start + visits.skip(start.len() as int));
        }
        k += 1;
    }
    Ok(NavigationMetadata { by_page_id })
}

proof fn lemma_book_nav_err(book: SiteBookView, pages: Seq<SitePageView>, i: int)
    requires
        0 <= i,
        book_nav(book, pages, i) is Ok,
        nav_step(book, pages, i) is Err,
    ensures
        book_nav(book, pages, i + 1) == Err::<Seq<PageNavigationView>, NavigationErrorView>(nav_step(book, pages, i)->Err_0),
{
}

proof fn lemma_book_nav_err_propagates(book: SiteBookView, pages: Seq<SitePageView>, a: int, b: int)
    requires
        0 <= a <= b,
        book_nav(book, pages, a) is Err,
    ensures
        book_nav(book, pages, b) == book_nav(book, pages, a),
    decreases b - a,
{
    if a < b {
        lemma_book_nav_err_propagates(book, pages, a, b - 1);
    }
}

proof fn lemma_books_nav_err_at(books: Seq<SiteBookView>, pages: Seq<SitePageView>, k: int, e: NavigationErrorView)
    requires
        0 <= k < books.len(),
        books_nav(books, pages, k) is Ok,
        exists|i: int| 0 <= i <= books[k].page_ids_in_order.len() && book_nav(books[k], pages, i) == Err::<Seq<PageNavigationView>, NavigationErrorView>(e),
    ensures
        books_nav(books, pages, k + 1) == Err::<Seq<PageNavigationView>, NavigationErrorView>(e),
{
    let i = choose|i: int| 0 <= i <= books[k].page_ids_in_order.len() && book_nav(books[k], pages, i) == Err::<Seq<PageNavigationView>, NavigationErrorView>(e);
    lemma_book_nav_err_propagates(books[k], pages, i, books[k].page_ids_in_order.len() as int);
}

proof fn lemma_books_nav_err_propagates(books: Seq<SiteBookView>, pages: Seq<SitePageView>, a: int, b: int)
    requires
        0 <= a <= b,
        books_nav(books, pages, a) is Err,
    ensures
        books_nav(books, pages, b) == books_nav(books, pages, a),
    decreases b - a,
{
    if a < b {
        lemma_books_nav_err_propagates(books, pages, a, b - 1);
    }
}

pub proof fn lemma_page_by_id(pages: Seq<SitePageView>, id: Seq<char>)
    ensures
        page_by_id(pages, id) matches Some(p) ==> p.page_id == id,
    decreases pages.len(),
{
    if pages.len() > 0 && pages.last().page_id != id {
        lemma_page_by_id(pages.drop_last(), id);
    }
}

proof fn lemma_book_nav_prefix(book: SiteBookView, pages: Seq<SitePageView>, n: int)
    requires
        0 <= n <= book.page_ids_in_order.len(),
    ensures
        book_nav(book, pages, n) matches Ok(es) ==> es.len() == n && forall|k: int|
            0 <= k < n ==> #[trigger] nav_step(book, pages, k) == Ok::<PageNavigationView, NavigationErrorView>(es[k])
                && es[k].page_id == book.page_ids_in_order[k],
    decreases n,
{
    if n > 0 {
        lemma_book_nav_prefix(book, pages, n - 1);
        lemma_page_by_id(pages, book.page_ids_in_order[n - 1]);
    }
}

/// Within a book, neighbours point at each other: the page after a page
/// has it as the page before, the first page has none before and the last
/// none after.
pub proof fn lemma_neighbours_are_mutual(book: SiteBookView, pages: Seq<SitePageView>, es: Seq<PageNavigationView>)
    requires
        book_nav(book, pages, book.page_ids_in_order.len() as int) == Ok::<
            Seq<PageNavigationView>,
            NavigationErrorView,
        >(es),
    ensures
        es.len() == book.page_ids_in_order.len(),
        forall|k: int|
            0 <= k < es.len() - 1 ==> (#[trigger] es[k]).next_page_id == Some(es[k + 1].page_id) && es[k
                + 1].prev_page_id == Some(es[k].page_id),
        es.len() > 0 ==> es[0].prev_page_id is None && es[es.len() - 1].next_page_id is None,
{
    lemma_book_nav_prefix(book, pages, book.page_ids_in_order.len() as int);
    assert forall|k: int| 0 <= k < es.len() - 1 implies (#[trigger] es[k]).next_page_id == Some(es[k + 1].page_id)
        && es[k + 1].prev_page_id == Some(es[k].page_id) by {
        assert(nav_step(book, pages, k) == Ok::<PageNavigationView, NavigationErrorView>(es[k]));
        assert(nav_step(book, pages, k + 1) == Ok::<PageNavigationView, NavigationErrorView>(es[k + 1]));
    }
    if es.len() > 0 {
        assert(nav_step(book, pages, 0) == Ok::<PageNavigationView, NavigationErrorView>(es[0]));
        assert(nav_step(book, pages, es.len() - 1) == Ok::<PageNavigationView, NavigationErrorView>(es[es.len() - 1]));
    }
}

/// The text that describes the error.
pub open spec fn navigation_error_text(e: &NavigationError) -> Seq<char> {
    match e {
        NavigationError::MissingPage { page_id, book_id } => "navigation metadata missing site page '"@ + page_id@ + "' referenced by book '"@ + book_id@ + "'"@,
        NavigationError::NotContentPage { page_id, book_id } => "navigation metadata expected content page '"@ + page_id@ + "' for book '"@ + book_id@ + "'"@,
        NavigationError::OwnershipMismatch { page_id, page_owner, book_id } => "navigation metadata ownership mismatch for page '"@ + page_id@ + "': page owns '"@ + page_owner@ + "'; book owns '"@ + book_id@ + "'"@,
    }
}

impl NavigationError {
    /// The text that describes the error, for reports.
    pub fn message(&self) -> (r: String)
        ensures
            r@ == navigation_error_text(self),
    {
        match self {
            NavigationError::MissingPage { page_id, book_id } => {
                let mut s = string_from("navigation metadata missing site page '");
                s.append(page_id.as_str());
                s.append("' referenced by book '");
                s.append(book_id.as_str());
                s.append("'");
                s
            },
            NavigationError::NotContentPage { page_id, book_id } => {
                let mut s = string_from("navigation metadata expected content page '");
                s.append(page_id.as_str());
                s.append("' for book '");
                s.append(book_id.as_str());
                s.append("'");
                s
            },
            NavigationError::OwnershipMismatch { page_id, page_owner, book_id } => {
                let mut s = string_from("navigation metadata ownership mismatch for page '");
                s.append(page_id.as_str());
                s.append("': page owns '");
                s.append(page_owner.as_str());
                s.append("'; book owns '");
                s.append(book_id.as_str());
                s.append("'");
                s
            },
        }
    }
}

} // verus!
