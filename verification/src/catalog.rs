//! The input catalog of the site builder: configured books with their
//! source and root directories.
use vstd::prelude::*;
use crate::numbers::{decimal, format_decimal};
use crate::paths::{join_path, parent_of, parent_path, path_join};
use crate::site_config::{book_step, books_prefix, config_check, ids_of, BookView, BookshelfBook, BookshelfConfig, RawBookView};
use crate::text::{copy_opt, copy_string, opt_view, str_eq, string_from};

verus! {

/// The books of a bookshelf, in configuration order.
#[derive(Debug, Clone, PartialEq, Eq)]
pub struct InputCatalog {
    pub config_path: String,
    pub config_dir: String,
    pub root_book_id: String,
    pub books: Vec<InputBook>,
}

/// One configured book.
#[derive(Debug, Clone, PartialEq, Eq)]
pub struct InputBook {
    pub id: String,
    pub title: String,
    pub description: Option<String>,
    pub book_root_rel: String,
    pub book_root_abs: String,
    pub book_src_rel: String,
    pub book_src_abs: String,
    pub summary_abs: String,
    pub is_root_book: bool,
}

/// Why the catalog could not be built.
#[derive(Debug, Clone, PartialEq, Eq)]
pub enum CatalogError {
    /// A summary path has no parent directory.
    InvalidSummaryPath { book_id: String, summary_rel: String },
    /// A book's summary file is missing.
    MissingSummary { book_id: String, summary_rel: String, summary_abs: String },
    /// The catalog does not hold exactly one root book.
    RootBookCount { root_book: String, count: usize },
}

/// The catalog entry of a configured book, before its summary file is
/// checked: its source directory is its summary's directory and its root
/// the directory above that (`.` when there is none), all also resolved
/// against the configuration directory.
pub fn catalog_book(config: &BookshelfConfig, book: &BookshelfBook) -> (r: Result<InputBook, CatalogError>)
    ensures
        match parent_path(book.summary_rel@) {
            None => r matches Err(CatalogError::InvalidSummaryPath { book_id, summary_rel })
                && book_id@ == book.id@ && summary_rel@ == book.summary_rel@,
            Some(src) => r matches Ok(b) && {
                let root = match parent_path(src) {
                    Some(p) => p,
                    None => "."@,
                };
                &&& b.id@ == book.id@
                &&& b.title@ == book.title@
                &&& opt_view(b.description) == opt_view(book.description)
                &&& b.book_src_rel@ == src
                &&& b.book_root_rel@ == root
                &&& b.book_root_abs@ == path_join(config.config_dir@, root)
                &&& b.book_src_abs@ == path_join(config.config_dir@, src)
                &&& b.summary_abs@ == path_join(config.config_dir@, book.summary_rel@)
                &&& b.is_root_book == (book.id@ == config.root_book@)
            },
        },
{
    let book_src_rel = match parent_of(book.summary_rel.as_str()) {
        None => {
            return Err(
                CatalogError::InvalidSummaryPath {
                    book_id: copy_string(&book.id),
                    summary_rel: copy_string(&book.summary_rel),
                },
            );
        },
        Some(p) => p,
    };
    let book_root_rel = match parent_of(book_src_rel.as_str()) {
        Some(p) => p,
        None => string_from("."),
    };
    let book_root_abs = join_path(config.config_dir.as_str(), book_root_rel.as_str());
    let book_src_abs = join_path(config.config_dir.as_str(), book_src_rel.as_str());
    let summary_abs = join_path(config.config_dir.as_str(), book.summary_rel.as_str());
    Ok(
        InputBook {
            id: copy_string(&book.id),
            title: copy_string(&book.title),
            description: copy_opt(&book.description),
            book_root_rel,
            book_root_abs,
            book_src_rel,
            book_src_abs,
            summary_abs,
            is_root_book: str_eq(book.id.as_str(), config.root_book.as_str()),
        },
    )
}

/// The number of root books among `bs`.
pub open spec fn root_count(bs: Seq<InputBook>) -> nat
    decreases bs.len(),
{
    if bs.len() == 0 {
        0
    } else {
        root_count(bs.drop_last()) + if bs.last().is_root_book {
            1nat
        } else {
            0nat
        }
    }
}

/// The catalog of a configuration from its books' entries; refused unless
/// exactly one of them is the root book.
pub fn input_catalog_from_books(config: &BookshelfConfig, books: Vec<InputBook>) -> (r: Result<InputCatalog, CatalogError>)
    ensures
        root_count(books@) == 1 ==> (r matches Ok(c) && c.books@ == books@ && c.config_path@ == config.config_path@
            && c.config_dir@ == config.config_dir@ && c.root_book_id@ == config.root_book@),
        root_count(books@) != 1 ==> (r matches Err(CatalogError::RootBookCount { root_book, count })
            && root_book@ == config.root_book@ && count == root_count(books@)),
{
    let mut count: usize = 0;
    let mut i: usize = 0;
    while i < books.len()
        invariant
            i <= books.len(),
            count == root_count(books@.take(i as int)),
            count <= i,
        decreases books.len() - i,
    {
        assert(books@.take(i + 1).drop_last() =~= books@.take(i as int));
        if books[i].is_root_book {
            count += 1;
        }
        i += 1;
    }
    assert(books@.take(books.len() as int) =~= books@);
    if count != 1 {
        return Err(CatalogError::RootBookCount { root_book: copy_string(&config.root_book), count });
    }
    Ok(
        InputCatalog {
            config_path: copy_string(&config.config_path),
            config_dir: copy_string(&config.config_dir),
            root_book_id: copy_string(&config.root_book),
            books,
        },
    )
}

/// The number of times `id` occurs in `ids`.
pub open spec fn id_count(ids: Seq<Seq<char>>, id: Seq<char>) -> nat
    decreases ids.len(),
{
    if ids.len() == 0 {
        0
    } else {
        id_count(ids.drop_last(), id) + if ids.last() == id {
            1nat
        } else {
            0nat
        }
    }
}

proof fn lemma_books_prefix_ids(raws: Seq<RawBookView>, dir: Seq<char>, n: int)
    requires
        0 <= n <= raws.len(),
    ensures
        books_prefix(raws, dir, n) matches Ok(bs) ==> ids_of(bs).no_duplicates(),
    decreases n,
{
    if n > 0 {
        lemma_books_prefix_ids(raws, dir, n - 1);
        if let Ok(bs) = books_prefix(raws, dir, n - 1) {
            if let Ok(b) = book_step(raws[n - 1], dir, bs) {
                let ids2 = ids_of(bs.push(b));
                assert(ids2 =~= ids_of(bs).push(b.id));
                assert forall|p: int, q: int| 0 <= p < ids2.len() && 0 <= q < ids2.len() && p != q implies ids2[p]
                    != ids2[q] by {
                    if q == bs.len() {
                        assert(ids_of(bs)[p] == ids2[p]);
                    } else if p == bs.len() {
                        assert(ids_of(bs)[q] == ids2[q]);
                    }
                }
            }
        }
    } else {
        assert(ids_of(Seq::<BookView>::empty()) =~= Seq::<Seq<char>>::empty());
    }
}

proof fn lemma_single_occurrence(ids: Seq<Seq<char>>, id: Seq<char>)
    requires
        ids.no_duplicates(),
        ids.contains(id),
    ensures
        id_count(ids, id) == 1,
    decreases ids.len(),
{
    let front = ids.drop_last();
    assert(front.no_duplicates()) by {
        assert forall|p: int, q: int| 0 <= p < front.len() && 0 <= q < front.len() && p != q implies front[p] != front[q] by {
            assert(front[p] == ids[p] && front[q] == ids[q]);
        }
    }
    if ids.last() == id {
        assert forall|k: int| 0 <= k < front.len() implies front[k] != id by {
            assert(front[k] == ids[k]);
            assert(ids[ids.len() - 1] == id);
        }
        lemma_absent(front, id);
    } else {
        let k = choose|k: int| 0 <= k < ids.len() && ids[k] == id;
        assert(front[k] == id);
        lemma_single_occurrence(front, id);
    }
}

proof fn lemma_absent(ids: Seq<Seq<char>>, id: Seq<char>)
    requires
        forall|k: int| 0 <= k < ids.len() ==> ids[k] != id,
    ensures
        id_count(ids, id) == 0,
    decreases ids.len(),
{
    if ids.len() > 0 {
        let front = ids.drop_last();
        assert forall|k: int| 0 <= k < front.len() implies front[k] != id by {
            assert(front[k] == ids[k]);
        }
        lemma_absent(front, id);
    }
}

/// An accepted configuration names every book once and its root book
/// exactly once, so its catalog has exactly one root book.
pub proof fn lemma_config_single_root(
    root_book: Option<Seq<char>>,
    raws: Seq<RawBookView>,
    config_path: Seq<char>,
    config_dir: Seq<char>,
)
    ensures
        config_check(root_book, raws, config_path, config_dir) matches Ok(c) ==> {
            &&& ids_of(c.books).no_duplicates()
            &&& id_count(ids_of(c.books), c.root_book) == 1
        },
{
    if let Ok(c) = config_check(root_book, raws, config_path, config_dir) {
        lemma_books_prefix_ids(raws, config_dir, raws.len() as int);
        lemma_single_occurrence(ids_of(c.books), c.root_book);
    }
}

/// The text that describes the error.
pub open spec fn catalog_error_text(e: &CatalogError) -> Seq<char> {
    match e {
        CatalogError::InvalidSummaryPath { book_id, summary_rel } => "book '"@ + book_id@ + "' has invalid configured summary path '"@ + summary_rel@ + "'"@,
        CatalogError::MissingSummary { book_id, summary_rel, summary_abs } => "book '"@ + book_id@ + "' missing configured canonical summary '"@ + summary_rel@ + "' at "@ + summary_abs@,
        CatalogError::RootBookCount { root_book, count } => "input catalog must contain exactly one root book '"@ + root_book@ + "', found "@ + decimal(*count as nat),
    }
}

impl CatalogError {
    /// The text that describes the error, for reports.
    pub fn message(&self) -> (r: String)
        ensures
            r@ == catalog_error_text(self),
    {
        match self {
            CatalogError::InvalidSummaryPath { book_id, summary_rel } => {
                let mut s = string_from("book '");
                s.append(book_id.as_str());
                s.append("' has invalid configured summary path '");
                s.append(summary_rel.as_str());
                s.append("'");
                s
            },
            CatalogError::MissingSummary { book_id, summary_rel, summary_abs } => {
                let mut s = string_from("book '");
                s.append(book_id.as_str());
                s.append("' missing configured canonical summary '");
                s.append(summary_rel.as_str());
                s.append("' at ");
                s.append(summary_abs.as_str());
                s
            },
            CatalogError::RootBookCount { root_book, count } => {
                let mut s = string_from("input catalog must contain exactly one root book '");
                s.append(root_book.as_str());
                s.append("', found ");
                s.append(format_decimal(*count).as_str());
                s
            },
        }
    }
}

} // verus!
