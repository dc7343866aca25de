//! The Bookshelf page that the root book gets as its first chapter: a list
//! of every book with its title, description and a link to its index.
use vstd::prelude::*;
use crate::escape::{escape_html_attr, escape_html_text, html_attr_escaped, html_text_escaped};
use crate::paths::{file_name, file_name_of, join_path, path_join};
use crate::route_paths::{path_display, path_to_string, relative_path, relative_path_spec};
use crate::text::{chars_of, str_eq, string_from, string_of, trim_chars, trimmed};

verus! {

/// The name of the Bookshelf chapter.
pub const ROOT_BOOKSHELF_CHAPTER_NAME: &'static str = "Bookshelf";

/// The source path reserved for the Bookshelf chapter.
pub const ROOT_BOOKSHELF_CHAPTER_PATH: &'static str = "bookshelf.md";

/// The rendered path of the Bookshelf chapter.
pub const ROOT_BOOKSHELF_HTML_PATH: &'static str = "bookshelf.html";

/// Why the Bookshelf chapter could not be added.
#[derive(Debug, Clone, PartialEq, Eq)]
pub enum RootBookshelfError {
    /// A chapter of the book already uses the reserved path.
    ReservedPathTaken { book_id: String },
    /// The catalog has no root book.
    MissingRootBook,
}

/// A book as the Bookshelf page lists it.
#[derive(Debug, Clone, PartialEq, Eq)]
pub struct ShelfBook {
    pub title: String,
    pub description: Option<String>,
    pub output_rel: String,
    pub is_root_book: bool,
}

/// Where the site root's entry leads: the Bookshelf page of the root
/// book, written to `root_output_rel`.
pub fn site_root_bookshelf_entry_path(root_output_rel: &str) -> (r: String)
    ensures
        r@ == path_display(path_join(root_output_rel@, ROOT_BOOKSHELF_HTML_PATH@)),
{
    path_to_string(join_path(root_output_rel, ROOT_BOOKSHELF_HTML_PATH).as_str())
}

/// A chapter path has the reserved file name.
pub open spec fn is_reserved(path: Option<Seq<char>>) -> bool {
    match path {
        Some(p) => file_name_of(p) == Some(ROOT_BOOKSHELF_CHAPTER_PATH@),
        None => false,
    }
}

/// Some chapter path has the reserved file name.
pub open spec fn reserved_path_taken(paths: Seq<Option<Seq<char>>>) -> bool {
    exists|i: int| 0 <= i < paths.len() && #[trigger] is_reserved(paths[i])
}

fn has_reserved_name(path: &str) -> (r: bool)
    ensures
        r == (file_name_of(path@) == Some(ROOT_BOOKSHELF_CHAPTER_PATH@)),
{
    match file_name(path) {
        Some(n) => str_eq(n.as_str(), ROOT_BOOKSHELF_CHAPTER_PATH),
        None => false,
    }
}

/// Refuses a book one of whose chapters (given by their source paths)
/// already has the Bookshelf page's file name.
pub fn ensure_reserved_bookshelf_path_is_available(chapter_paths: &Vec<Option<String>>, book_id: &str) -> (r: Result<
    (),
    RootBookshelfError,
>)
    ensures
        reserved_path_taken(chapter_paths@.map_values(|p: Option<String>| crate::text::opt_view(p))) ==> (r matches Err(
            RootBookshelfError::ReservedPathTaken { book_id: b },
        ) && b@ == book_id@),
        !reserved_path_taken(chapter_paths@.map_values(|p: Option<String>| crate::text::opt_view(p))) ==> r is Ok,
{
    let ghost ps = chapter_paths@.map_values(|p: Option<String>| crate::text::opt_view(p));
    let mut i: usize = 0;
    while i < chapter_paths.len()
        invariant
            i <= chapter_paths.len(),
            ps == chapter_paths@.map_values(|p: Option<String>| crate::text::opt_view(p)),
            forall|j: int| 0 <= j < i ==> !#[trigger] is_reserved(ps[j]),
        decreases chapter_paths.len() - i,
    {
        assert(ps[i as int] == crate::text::opt_view(chapter_paths@[i as int]));
        match &chapter_paths[i] {
            Some(p) => {
                if has_reserved_name(p.as_str()) {
                    assert(is_reserved(ps[i as int]));
                    return Err(RootBookshelfError::ReservedPathTaken { book_id: string_from(book_id) });
                }
            },
            None => {},
        }
        i += 1;
    }
    Ok(())
}

/// The link from the Bookshelf page to a book's index, relative to the
/// root book's output directory.
pub open spec fn book_href(output_rel: Seq<char>, root_output_rel: Seq<char>) -> Seq<char> {
    path_display(relative_path_spec(root_output_rel, path_join(output_rel, "index.html"@)))
}

/// The link from the Bookshelf page to a book's index.
pub fn bookshelf_book_href(book: &ShelfBook, root_output_rel: &str) -> (r: String)
    ensures
        r@ == book_href(book.output_rel@, root_output_rel@),
{
    let target = join_path(book.output_rel.as_str(), "index.html");
    path_to_string(relative_path(root_output_rel, target.as_str()).as_str())
}

/// The list entry of a book.
pub open spec fn book_entry_markdown(b: ShelfBook, root_output_rel: Seq<char>) -> Seq<char> {
    let description = match b.description {
        Some(d) => if trimmed(d@).len() > 0 {
            "<span class=\"bookshelf-book-description\">"@ + html_text_escaped(trimmed(d@)) + "</span>\n"@
        } else {
            Seq::empty()
        },
        None => Seq::empty(),
    };
    "<li>\n<a class=\"bookshelf-book\" href=\""@ + html_attr_escaped(book_href(b.output_rel@, root_output_rel))
        + "\">\n<span class=\"bookshelf-book-title\">"@ + html_text_escaped(b.title@) + "</span>\n"@ + description
        + "</a>\n</li>\n"@
}

/// The list entries of the first `n` books.
pub open spec fn book_entries_markdown(bs: Seq<ShelfBook>, root_output_rel: Seq<char>, n: int) -> Seq<char>
    decreases n,
{
    if n <= 0 {
        Seq::empty()
    } else {
        book_entries_markdown(bs, root_output_rel, n - 1) + book_entry_markdown(bs[n - 1], root_output_rel)
    }
}

/// The first root book.
pub open spec fn first_root(bs: Seq<ShelfBook>) -> Option<ShelfBook>
    decreases bs.len(),
{
    if bs.len() == 0 {
        None
    } else if bs[0].is_root_book {
        Some(bs[0])
    } else {
        first_root(bs.subrange(1, bs.len() as int))
    }
}

/// The Markdown of the Bookshelf page, or the error when no book is the
/// root book.
pub open spec fn bookshelf_markdown(bs: Seq<ShelfBook>) -> Result<Seq<char>, RootBookshelfError> {
    match first_root(bs) {
        None => Err(RootBookshelfError::MissingRootBook),
        Some(root) => Ok(
            "# Bookshelf\n\n<div class=\"bookshelf\">\n<ul class=\"bookshelf-list\" role=\"list\">\n"@
                + book_entries_markdown(bs, root.output_rel@, bs.len() as int) + "</ul>\n</div>\n"@,
        ),
    }
}

/// Renders the Bookshelf page as Markdown: every book as a link to its
/// index relative to the root book, with its title and, when it has a
/// non-blank one, its description.
pub fn render_root_bookshelf_markdown(books: &Vec<ShelfBook>) -> (r: Result<String, RootBookshelfError>)
    ensures
        match bookshelf_markdown(books@) {
            Ok(m) => r matches Ok(s) && s@ == m,
            Err(e) => r == Err::<String, RootBookshelfError>(e),
        },
{
    let mut root_index: usize = 0;
    let ghost all = books@;
    assert(all.subrange(0, all.len() as int) =~= all);
    while root_index < books.len() && !books[root_index].is_root_book
        invariant
            root_index <= books.len(),
            all == books@,
            first_root(all) == first_root(all.subrange(root_index as int, all.len() as int)),
        decreases books.len() - root_index,
    {
        let ghost rest = all.subrange(root_index as int, all.len() as int);
        assert(rest.subrange(1, rest.len() as int) =~= all.subrange(root_index + 1, all.len() as int));
        root_index += 1;
    }
    if root_index >= books.len() {
        return Err(RootBookshelfError::MissingRootBook);
    }
    proof {
        let rest = all.subrange(root_index as int, all.len() as int);
        assert(rest[0] == all[root_index as int]);
    }
    let root_output_rel = &books[root_index].output_rel;
    let mut markdown = string_from(
        "# Bookshelf\n\n<div class=\"bookshelf\">\n<ul class=\"bookshelf-list\" role=\"list\">\n",
    );
    let ghost head = markdown@;
    let mut i: usize = 0;
    while i < books.len()
        invariant
            i <= books.len(),
            head == "# Bookshelf\n\n<div class=\"bookshelf\">\n<ul class=\"bookshelf-list\" role=\"list\">\n"@,
            markdown@ == head + book_entries_markdown(books@, root_output_rel@, i as int),
        decreases books.len() - i,
    {
        let book = &books[i];
        let ghost before = markdown@;
        markdown.append("<li>\n<a class=\"bookshelf-book\" href=\"");
        markdown.append(escape_html_attr(bookshelf_book_href(book, root_output_rel.as_str()).as_str()).as_str());
        markdown.append("\">\n<span class=\"bookshelf-book-title\">");
        markdown.append(escape_html_text(book.title.as_str()).as_str());
        markdown.append("</span>\n");
        match &book.description {
            Some(d) => {
                let description = string_of(&trim_chars(&chars_of(d.as_str())));
                if description.as_str().unicode_len() > 0 {
                    markdown.append("<span class=\"bookshelf-book-description\">");
                    markdown.append(escape_html_text(description.as_str()).as_str());
                    markdown.append("</span>\n");
                }
            },
            None => {},
        }
        markdown.append("</a>\n</li>\n");
        assert(markdown@ =~= before + book_entry_markdown(*book, root_output_rel@));
        i += 1;
    }
    markdown.append("</ul>\n</div>\n");
    Ok(markdown)
}

/// The text that describes a refusal of the Bookshelf chapter.
pub open spec fn root_bookshelf_error_text(e: &RootBookshelfError) -> Seq<char> {
    match e {
        RootBookshelfError::ReservedPathTaken { book_id } => "book '"@ + book_id@
            + "' already contains reserved bookshelf path '"@ + ROOT_BOOKSHELF_CHAPTER_PATH@ + "'"@,
        RootBookshelfError::MissingRootBook => "bookshelf catalog has no root book"@,
    }
}

impl RootBookshelfError {
    /// The text that describes the error, for reports.
    pub fn message(&self) -> (r: String)
        ensures
            r@ == root_bookshelf_error_text(self),
    {
        match self {
            RootBookshelfError::ReservedPathTaken { book_id } => {
                let mut s = string_from("book '");
                s.append(book_id.as_str());
                s.append("' already contains reserved bookshelf path '");
                s.append(ROOT_BOOKSHELF_CHAPTER_PATH);
                s.append("'");
                s
            },
            RootBookshelfError::MissingRootBook => string_from("bookshelf catalog has no root book"),
        }
    }
}

} // verus!
