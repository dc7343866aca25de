//! The input catalog of a bookshelf site: for every book, where it is read
//! from and where it is written, the root book first.
use vstd::prelude::*;
use crate::paths::{components, cur_component, file_name, file_name_of, join_path, parent_of, parent_path, path_join};
use crate::serve::{resolve_config_dir_path, resolved_config_path};
use crate::shelf::search::slashed;
use crate::text::{opt_view, push_char, string_from};

verus! {

/// A book of the catalog.
#[derive(Debug, Clone, PartialEq, Eq)]
pub struct ShelfBook {
    pub id: String,
    pub output_rel: String,
    pub title: String,
    pub description: Option<String>,
    pub book_root_rel: String,
    pub book_root_abs: String,
    pub book_src_rel: String,
    pub book_src_abs: String,
    pub summary_abs: String,
    pub summary_rel: String,
    pub is_root_book: bool,
}

/// A directory of the configuration resolved against `base`: `base` itself
/// for `.`.
pub open spec fn rel_dir_joined(base: Seq<char>, rel: Seq<char>) -> Seq<char> {
    if components(rel) == seq![cur_component()] {
        base
    } else {
        path_join(base, rel)
    }
}

/// Resolves a directory of the configuration against `base`.
pub fn join_rel_dir(base: &str, rel: &str) -> (r: String)
    ensures
        r@ == rel_dir_joined(base@, rel@),
{
    let mut dot = String::new();
    push_char(&mut dot, '.');
    proof {
        reveal_with_fuel(crate::paths::scan_path, 3);
    }
    if crate::paths::same_path(rel, dot.as_str()) {
        assert(components(dot@) == seq![cur_component()]) by {
            assert(dot@ =~= seq!['.']);
        }
        string_from(base)
    } else {
        proof {
            assert(dot@ =~= seq!['.']);
        }
        join_path(base, rel)
    }
}

/// The root directory of a book with source directory `source_rel`: its
/// parent, `.` when it has none.
pub open spec fn book_root_of(source_rel: Seq<char>) -> Seq<char> {
    match parent_path(source_rel) {
        Some(p) => p,
        None => "."@,
    }
}

/// The root directory of a book from its source directory.
pub fn book_root_from_source_rel(source_rel: &str) -> (r: String)
    ensures
        r@ == book_root_of(source_rel@),
{
    match parent_of(source_rel) {
        Some(p) => p,
        None => string_from("."),
    }
}

/// A path as a key, with backslashes made forward slashes.
pub fn path_to_book_key(path: &str) -> (r: String)
    ensures
        r@ == slashed(path@),
{
    crate::site_model::slash_string(path)
}

/// The catalog entry of a book: its source directory (relative to its
/// root) and root resolved against the configuration directory, and its
/// summary file in the source directory.
pub open spec fn catalog_entry_ok(
    b: ShelfBook,
    config_dir: Seq<char>,
    id: Seq<char>,
    output_rel: Seq<char>,
    book_root_rel: Seq<char>,
    src: Seq<char>,
    title: Seq<char>,
    description: Option<Seq<char>>,
    is_root_book: bool,
) -> bool {
    let root_abs = rel_dir_joined(config_dir, book_root_rel);
    let src_abs = path_join(root_abs, src);
    &&& b.id@ == id
    &&& b.output_rel@ == output_rel
    &&& b.title@ == title
    &&& opt_view(b.description) == description
    &&& b.book_root_rel@ == book_root_rel
    &&& b.book_root_abs@ == root_abs
    &&& b.book_src_rel@ == src
    &&& b.book_src_abs@ == src_abs
    &&& b.summary_abs@ == path_join(src_abs, "SUMMARY.md"@)
    &&& b.summary_rel@ == path_join(src, "SUMMARY.md"@)
    &&& b.is_root_book == is_root_book
}

/// The catalog entry of a book, before its summary file is checked.
pub fn shelf_catalog_book(
    config_dir: &str,
    id: &str,
    output_rel: &str,
    book_root_rel: &str,
    src: &str,
    title: &str,
    description: Option<&str>,
    is_root_book: bool,
) -> (r: ShelfBook)
    ensures
        catalog_entry_ok(
            r,
            config_dir@,
            id@,
            output_rel@,
            book_root_rel@,
            src@,
            title@,
            match description {
                Some(d) => Some(d@),
                None => None,
            },
            is_root_book,
        ),
{
    let book_root_abs = join_rel_dir(config_dir, book_root_rel);
    let book_src_abs = join_path(book_root_abs.as_str(), src);
    let summary_abs = join_path(book_src_abs.as_str(), "SUMMARY.md");
    let summary_rel = join_path(src, "SUMMARY.md");
    ShelfBook {
        id: string_from(id),
        output_rel: string_from(output_rel),
        title: string_from(title),
        description: match description {
            Some(d) => Some(string_from(d)),
            None => None,
        },
        book_root_rel: string_from(book_root_rel),
        book_root_abs,
        book_src_rel: string_from(src),
        book_src_abs,
        summary_abs,
        summary_rel,
        is_root_book,
    }
}

/// Where the root book is written: `books/<id>`.
pub open spec fn root_output_rel(root_id: Seq<char>) -> Seq<char> {
    path_join("books"@, root_id)
}

/// The catalog entry of the root book, read from the configuration root.
pub fn root_catalog_book(config_dir: &str, root_id: &str, src: &str, title: &str, description: Option<&str>) -> (r:
    ShelfBook)
    ensures
        catalog_entry_ok(
            r,
            config_dir@,
            root_id@,
            root_output_rel(root_id@),
            "."@,
            src@,
            title@,
            match description {
                Some(d) => Some(d@),
                None => None,
            },
            true,
        ),
{
    let output_rel = join_path("books", root_id);
    shelf_catalog_book(config_dir, root_id, output_rel.as_str(), ".", src, title, description, true)
}

/// The catalog entry of a child book: written to its source directory and
/// read from the directory above it.
pub fn child_catalog_book(config_dir: &str, id: &str, source_rel: &str, src: &str, title: &str, description: Option<
    &str,
>) -> (r: ShelfBook)
    ensures
        catalog_entry_ok(
            r,
            config_dir@,
            id@,
            source_rel@,
            book_root_of(source_rel@),
            src@,
            title@,
            match description {
                Some(d) => Some(d@),
                None => None,
            },
            false,
        ),
{
    let root = book_root_from_source_rel(source_rel);
    shelf_catalog_book(config_dir, id, source_rel, root.as_str(), src, title, description, false)
}

/// The source directory of a child book relative to its root (the parent
/// of its source directory): the source directory's last name, or the
/// whole source directory when it ends in no name.
pub open spec fn src_in_root_of(source_rel: Seq<char>) -> Seq<char> {
    match file_name_of(source_rel) {
        Some(n) => n,
        None => source_rel,
    }
}

/// The source directory of a child book relative to its root.
pub fn src_in_book_root(source_rel: &str) -> (r: String)
    ensures
        r@ == src_in_root_of(source_rel@),
{
    match file_name(source_rel) {
        Some(n) => n,
        None => string_from(source_rel),
    }
}

/// A child book as the catalog reads it: its validated id and source
/// directory, and the source directory, title and description of its
/// mdBook configuration.
#[derive(Debug, Clone, PartialEq, Eq)]
pub struct ChildBookInput {
    pub id: String,
    pub source_rel: String,
    pub src: String,
    pub title: String,
    pub description: Option<String>,
}

/// Every book of the catalog, before their summary files are checked: the
/// root book first, then the child books in configuration order; the root
/// book is the only one marked as such.
pub fn shelf_catalog_books(
    config_dir: &str,
    root_id: &str,
    root_src: &str,
    root_title: &str,
    root_description: Option<&str>,
    children: &Vec<ChildBookInput>,
) -> (r: Vec<ShelfBook>)
    ensures
        r.len() == children.len() + 1,
        catalog_entry_ok(
            r@[0],
            config_dir@,
            root_id@,
            root_output_rel(root_id@),
            "."@,
            root_src@,
            root_title@,
            match root_description {
                Some(d) => Some(d@),
                None => None,
            },
            true,
        ),
        forall|i: int|
            0 <= i < children.len() ==> catalog_entry_ok(
                #[trigger] r@[i + 1],
                config_dir@,
                children@[i].id@,
                children@[i].source_rel@,
                book_root_of(children@[i].source_rel@),
                children@[i].src@,
                children@[i].title@,
                opt_view(children@[i].description),
                false,
            ),
        forall|i: int| 0 <= i < r.len() ==> ((#[trigger] r@[i]).is_root_book <==> i == 0),
{
    let mut books: Vec<ShelfBook> = Vec::new();
    books.push(root_catalog_book(config_dir, root_id, root_src, root_title, root_description));
    let mut i: usize = 0;
    while i < children.len()
        invariant
            i <= children.len(),
            books.len() == i + 1,
            catalog_entry_ok(
                books@[0],
                config_dir@,
                root_id@,
                root_output_rel(root_id@),
                "."@,
                root_src@,
                root_title@,
                match root_description {
                    Some(d) => Some(d@),
                    None => None,
                },
                true,
            ),
            forall|k: int|
                0 <= k < i ==> catalog_entry_ok(
                    #[trigger] books@[k + 1],
                    config_dir@,
                    children@[k].id@,
                    children@[k].source_rel@,
                    book_root_of(children@[k].source_rel@),
                    children@[k].src@,
                    children@[k].title@,
                    opt_view(children@[k].description),
                    false,
                ),
        decreases children.len() - i,
    {
        let c = &children[i];
        let description = match &c.description {
            Some(d) => Some(d.as_str()),
            None => None,
        };
        books.push(
            child_catalog_book(config_dir, c.id.as_str(), c.source_rel.as_str(), c.src.as_str(), c.title.as_str(), description),
        );
        i += 1;
    }
    proof {
        assert forall|k: int| 0 <= k < books.len() implies ((#[trigger] books@[k]).is_root_book <==> k == 0) by {
            if k > 0 {
                assert(books@[(k - 1) + 1] == books@[k]);
            }
        }
    }
    books
}

/// The output directory of the site: the given destination, or else the
/// build directory of the mdBook configuration read from the configuration
/// directory; each resolved against the one before it unless absolute.
pub open spec fn site_dest_dir_of(
    cwd: Seq<char>,
    config_dir: Seq<char>,
    build_dir: Seq<char>,
    dest_dir: Option<Seq<char>>,
) -> Seq<char> {
    match dest_dir {
        Some(d) => resolved_config_path(cwd, d),
        None => resolved_config_path(resolved_config_path(cwd, config_dir), build_dir),
    }
}

/// Where the site is written.
pub fn site_dest_dir(cwd: &str, config_dir: &str, build_dir: &str, dest_dir: Option<&str>) -> (r: String)
    ensures
        r@ == site_dest_dir_of(
            cwd@,
            config_dir@,
            build_dir@,
            match dest_dir {
                Some(d) => Some(d@),
                None => None,
            },
        ),
{
    match dest_dir {
        Some(d) => resolve_config_dir_path(cwd, d),
        None => {
            let dir = resolve_config_dir_path(cwd, config_dir);
            resolve_config_dir_path(dir.as_str(), build_dir)
        },
    }
}

/// The book with its root, source directory and summary file made absolute
/// against `cwd`; nothing else changes.
pub fn absolutize_book_paths(book: &mut ShelfBook, cwd: &str)
    ensures
        final(book).book_root_abs@ == resolved_config_path(cwd@, old(book).book_root_abs@),
        final(book).book_src_abs@ == resolved_config_path(cwd@, old(book).book_src_abs@),
        final(book).summary_abs@ == resolved_config_path(cwd@, old(book).summary_abs@),
        final(book).id == old(book).id,
        final(book).output_rel == old(book).output_rel,
        final(book).title == old(book).title,
        final(book).description == old(book).description,
        final(book).book_root_rel == old(book).book_root_rel,
        final(book).book_src_rel == old(book).book_src_rel,
        final(book).summary_rel == old(book).summary_rel,
        final(book).is_root_book == old(book).is_root_book,
{
    book.book_root_abs = resolve_config_dir_path(cwd, book.book_root_abs.as_str());
    book.book_src_abs = resolve_config_dir_path(cwd, book.book_src_abs.as_str());
    book.summary_abs = resolve_config_dir_path(cwd, book.summary_abs.as_str());
}

} // verus!
