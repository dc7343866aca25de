//! Loaded books: the chapters of every book in reading order, as mdBook
//! loads them from the canonical summaries.
use vstd::prelude::*;
use crate::paths::{components, is_absolute, join_components, strip_prefix, strip_prefix_components};
use crate::text::{opt_view, string_from};

verus! {

/// A chapter of a loaded book: its name, its path in the book, if it has
/// one (a draft chapter has none), and the path of the file it was read
/// from, if it differs.
#[derive(Debug, Clone, PartialEq, Eq)]
pub struct LoadedChapter {
    pub name: String,
    pub path: Option<String>,
    pub source_path: Option<String>,
}

/// One loaded book: its id and its chapters in reading order.
#[derive(Debug, Clone, PartialEq, Eq)]
pub struct LoadedBook {
    pub book_id: String,
    pub chapters: Vec<LoadedChapter>,
}

/// The loaded books of a catalog.
#[derive(Debug, Clone, PartialEq, Eq)]
pub struct LoadedBooks {
    pub root_book_id: String,
    pub books: Vec<LoadedBook>,
}

/// Why a book's source directory was refused.
#[derive(Debug, Clone, PartialEq, Eq)]
pub enum SrcPathError {
    /// An absolute source directory outside the book's root.
    NotUnderRoot { book_src: String, book_root: String },
    /// An empty source directory.
    Empty,
}

/// A source directory refusal as plain values.
pub enum SrcPathErrorView {
    NotUnderRoot { book_src: Seq<char>, book_root: Seq<char> },
    Empty,
}

impl View for SrcPathError {
    type V = SrcPathErrorView;

    open spec fn view(&self) -> SrcPathErrorView {
        match self {
            SrcPathError::NotUnderRoot { book_src, book_root } => SrcPathErrorView::NotUnderRoot {
                book_src: book_src@,
                book_root: book_root@,
            },
            SrcPathError::Empty => SrcPathErrorView::Empty,
        }
    }
}

/// A book's source directory relative to its root, as mdBook is given it:
/// an absolute one is taken relative to the root and refused when the
/// root is no ancestor of it; a relative one is kept as it is, and refused
/// when empty.
pub open spec fn src_relative(book_root: Seq<char>, book_src: Seq<char>) -> Result<Seq<char>, SrcPathErrorView> {
    if book_src.len() > 0 && book_src[0] == '/' {
        match strip_prefix_components(components(book_src), components(book_root)) {
            Some(cs) => Ok(join_components(cs)),
            None => Err(SrcPathErrorView::NotUnderRoot { book_src, book_root }),
        }
    } else if book_src.len() == 0 {
        Err(SrcPathErrorView::Empty)
    } else {
        Ok(book_src)
    }
}

/// A book's source directory relative to its root.
pub fn normalize_src_path(book_root: &str, book_src: &str) -> (r: Result<String, SrcPathError>)
    ensures
        match src_relative(book_root@, book_src@) {
            Ok(p) => r matches Ok(x) && x@ == p,
            Err(e) => r matches Err(x) && x@ == e,
        },
{
    if is_absolute(book_src) {
        match strip_prefix(book_src, book_root) {
            Some(rest) => Ok(rest),
            None => Err(SrcPathError::NotUnderRoot { book_src: string_from(book_src), book_root: string_from(book_root) }),
        }
    } else if book_src.unicode_len() == 0 {
        Err(SrcPathError::Empty)
    } else {
        Ok(string_from(book_src))
    }
}

/// The text that describes a refused source directory.
pub open spec fn src_path_error_text(e: &SrcPathError) -> Seq<char> {
    match e {
        SrcPathError::NotUnderRoot { book_src, book_root } => "book src path "@ + book_src@ + " must be under root "@
            + book_root@,
        SrcPathError::Empty => "book src path cannot be empty"@,
    }
}

impl SrcPathError {
    /// The text that describes the error, for reports.
    pub fn message(&self) -> (r: String)
        ensures
            r@ == src_path_error_text(self),
    {
        match self {
            SrcPathError::NotUnderRoot { book_src, book_root } => {
                let mut s = string_from("book src path ");
                s.append(book_src.as_str());
                s.append(" must be under root ");
                s.append(book_root.as_str());
                s
            },
            SrcPathError::Empty => string_from("book src path cannot be empty"),
        }
    }
}

/// A `SUMMARY.md` parsed by mdBook, carried to mdBook to load the book.
#[verifier::external_type_specification]
#[verifier::external_body]
pub struct ExSummary(mdbook_summary::Summary);

/// The error that `mdbook_summary::parse_summary` reports for a summary
/// text, written with its causes (`{:#}`); none when it parses.
pub uninterp spec fn summary_parse_error(text: Seq<char>) -> Option<Seq<char>>;

/// `mdbook_summary::parse_summary`: the parsed summary, or its error
/// written out. The contract says only whether it fails and with which
/// text; what the parsed summary holds is left to mdBook, which loads the
/// book from it.
#[verifier::external_body]
fn parse_summary_text(text: &str) -> (r: Result<mdbook_summary::Summary, String>)
    ensures
        match r {
            Ok(_) => summary_parse_error(text@) is None,
            Err(e) => summary_parse_error(text@) == Some(e@),
        },
{
    mdbook_summary::parse_summary(text).map_err(|err| format!("{err:#}"))
}

/// Why a summary could not be parsed: the book it belongs to (if any),
/// where it was read and what the parser reported.
#[derive(Debug, Clone, PartialEq, Eq)]
pub struct SummaryParseError {
    pub book_id: Option<String>,
    pub summary_path: String,
    pub cause: String,
}

/// Parses the `SUMMARY.md` read from `summary_path`, of the book `book_id`
/// where one is given; refused exactly when mdBook's parser refuses the
/// text, with what it reported.
pub fn parse_book_summary(book_id: Option<&str>, summary_path: &str, text: &str) -> (r: Result<
    mdbook_summary::Summary,
    SummaryParseError,
>)
    ensures
        match summary_parse_error(text@) {
            None => r is Ok,
            Some(c) => r matches Err(e) && e.cause@ == c && e.summary_path@ == summary_path@ && opt_view(e.book_id)
                == match book_id {
                Some(b) => Some(b@),
                None => None,
            },
        },
{
    match parse_summary_text(text) {
        Ok(summary) => Ok(summary),
        Err(cause) => Err(
            SummaryParseError {
                book_id: match book_id {
                    Some(b) => Some(string_from(b)),
                    None => None,
                },
                summary_path: string_from(summary_path),
                cause,
            },
        ),
    }
}

/// The text that describes a refused summary.
pub open spec fn summary_error_text(e: SummaryParseError) -> Seq<char> {
    match e.book_id {
        Some(b) => "book '"@ + b@ + "' failed to parse canonical summary at "@ + e.summary_path@ + ": "@ + e.cause@,
        None => "failed to parse "@ + e.summary_path@ + ": "@ + e.cause@,
    }
}

impl SummaryParseError {
    /// The text that describes the error, for reports.
    pub fn message(&self) -> (r: String)
        ensures
            r@ == summary_error_text(*self),
    {
        let mut s = match &self.book_id {
            Some(b) => {
                let mut s = string_from("book '");
                s.append(b.as_str());
                s.append("' failed to parse canonical summary at ");
                s
            },
            None => string_from("failed to parse "),
        };
        s.append(self.summary_path.as_str());
        s.append(": ");
        s.append(self.cause.as_str());
        s
    }
}

} // verus!
