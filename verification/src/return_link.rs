//! The link from every page of a book back to the root book's Bookshelf
//! page: its script, its style and where they are written.
use vstd::prelude::*;
use crate::paths::path_join;
use crate::paths::join_path;
use crate::text::{str_eq, string_from};

verus! {

pub const RETURN_JS_HEAD: &'static str = r##"(() => {
const bookshelfTarget = ""##;

pub const RETURN_JS_TAIL: &'static str = r##"";
const currentPage = window.location.pathname.split("/").pop();
if (currentPage === "bookshelf.html") {
    return;
}
const buttonContainer = document.querySelector("#mdbook-menu-bar .right-buttons");
if (!buttonContainer || document.getElementById("bookshelf-return-link")) {
    return;
}
const rootPath = typeof path_to_root === "string" ? path_to_root : "";
const link = document.createElement("a");
link.id = "bookshelf-return-link";
link.className = "bookshelf-return-link";
link.href = `${rootPath}${bookshelfTarget}`;
link.rel = "up";
link.title = "Return to Bookshelf";
link.setAttribute("aria-label", "Return to Bookshelf");
link.textContent = "Bookshelf";
buttonContainer.prepend(link);
})();
"##;

pub const RETURN_CSS: &'static str = r##"#mdbook-menu-bar .right-buttons .bookshelf-return-link {
    align-items: center;
    border: 1px solid currentColor;
    border-radius: 999px;
    color: var(--fg);
    display: inline-flex;
    font-size: 0.85em;
    font-weight: 600;
    line-height: 1;
    margin-right: 0.75rem;
    padding: 0.3rem 0.75rem;
    text-decoration: none;
    white-space: nowrap;
}
#mdbook-menu-bar .right-buttons .bookshelf-return-link:hover,
#mdbook-menu-bar .right-buttons .bookshelf-return-link:focus-visible {
    border-color: var(--links);
    color: var(--links);
}
"##;

/// Where the return link of a book's pages leads: the Bookshelf page next
/// to them in the root book, or the root book's Bookshelf page from a
/// sibling book's output directory.
pub open spec fn return_target(book_id: Seq<char>, root_book_id: Seq<char>) -> Seq<char> {
    if book_id == root_book_id {
        "bookshelf.html"@
    } else {
        "../"@ + root_book_id + "/bookshelf.html"@
    }
}

/// The target of the return link of the book `book_id`.
pub fn bookshelf_return_target_from_book_root(book_id: &str, root_book_id: &str) -> (target: String)
    ensures
        target@ == return_target(book_id@, root_book_id@),
{
    if str_eq(book_id, root_book_id) {
        string_from("bookshelf.html")
    } else {
        let mut target = string_from("../");
        target.append(root_book_id);
        target.append("/bookshelf.html");
        target
    }
}

/// The return link's script for the pages of the book `book_id`.
pub fn render_bookshelf_return_js(book_id: &str, root_book_id: &str) -> (js: String)
    ensures
        js@ == RETURN_JS_HEAD@ + return_target(book_id@, root_book_id@) + RETURN_JS_TAIL@,
{
    let target = bookshelf_return_target_from_book_root(book_id, root_book_id);
    let mut js = string_from(RETURN_JS_HEAD);
    js.append(target.as_str());
    js.append(RETURN_JS_TAIL);
    js
}

/// The return link's style sheet.
pub fn render_bookshelf_return_css() -> (css: String)
    ensures
        css@ == RETURN_CSS@,
{
    string_from(RETURN_CSS)
}

/// Where the return link's style sheet is written, relative to the project
/// root.
pub fn bookshelf_return_css_path() -> (path: String)
    ensures
        path@ == ".mdbook-bookshelf/shared/bookshelf-return.css"@,
{
    string_from(".mdbook-bookshelf/shared/bookshelf-return.css")
}

/// Where the return link's script of the book `book_id` is written,
/// relative to the project root.
pub fn bookshelf_return_js_path(book_id: &str) -> (path: String)
    ensures
        path@ == path_join(path_join(".mdbook-bookshelf/books"@, book_id@), "bookshelf-return.js"@),
{
    let dir = join_path(".mdbook-bookshelf/books", book_id);
    join_path(dir.as_str(), "bookshelf-return.js")
}

} // verus!
