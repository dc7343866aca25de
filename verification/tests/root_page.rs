use mdbook_bookshelf::shelf::root_page::{
    bookshelf_book_href, ensure_reserved_bookshelf_path_is_available, render_root_bookshelf_markdown,
    site_root_bookshelf_entry_path, RootBookshelfError, ShelfBook, ROOT_BOOKSHELF_CHAPTER_NAME,
    ROOT_BOOKSHELF_CHAPTER_PATH, ROOT_BOOKSHELF_HTML_PATH,
};

fn sample_book(id: &str, title: &str, description: Option<&str>, is_root_book: bool) -> ShelfBook {
    ShelfBook {
        title: title.to_string(),
        description: description.map(str::to_string),
        output_rel: id.to_string(),
        is_root_book,
    }
}

fn sample_books() -> Vec<ShelfBook> {
    vec![
        sample_book("docs", "Sample Core", Some("Repository-wide onboarding and architecture notes."), true),
        sample_book(
            "modules/parser/docs",
            "Sample Parser",
            Some("Parser-specific reference pages with their own reading order."),
            false,
        ),
    ]
}

#[test]
fn root_bookshelf_markdown_links_every_book_relative_to_the_root_book() {
    let content = render_root_bookshelf_markdown(&sample_books()).expect("rendering should succeed");

    assert!(content.starts_with("# Bookshelf\n\n"));
    assert!(content.contains("class=\"bookshelf-list\""));
    assert!(content.contains("<a class=\"bookshelf-book\" href=\"index.html\">"));
    assert!(content.contains("<span class=\"bookshelf-book-title\">Sample Core</span>"));
    assert!(content.contains("Repository-wide onboarding"));
    assert!(content.contains("<a class=\"bookshelf-book\" href=\"../modules/parser/docs/index.html\">"));
    assert!(content.ends_with("</ul>\n</div>\n"));
}

#[test]
fn root_bookshelf_markdown_escapes_and_trims() {
    let books = vec![sample_book("docs", "A & <B>", Some("  \"quoted\"  "), true), sample_book("x", "X", Some("  "), false)];
    let content = render_root_bookshelf_markdown(&books).unwrap();
    assert_eq!(
        content,
        "# Bookshelf\n\n<div class=\"bookshelf\">\n<ul class=\"bookshelf-list\" role=\"list\">\n\
<li>\n<a class=\"bookshelf-book\" href=\"index.html\">\n<span class=\"bookshelf-book-title\">A &amp; &lt;B&gt;</span>\n\
<span class=\"bookshelf-book-description\">\"quoted\"</span>\n</a>\n</li>\n\
<li>\n<a class=\"bookshelf-book\" href=\"../x/index.html\">\n<span class=\"bookshelf-book-title\">X</span>\n</a>\n</li>\n\
</ul>\n</div>\n"
    );
}

#[test]
fn root_bookshelf_markdown_needs_a_root_book() {
    let books = vec![sample_book("docs", "Only", None, false)];
    assert_eq!(render_root_bookshelf_markdown(&books), Err(RootBookshelfError::MissingRootBook));
}

#[test]
fn reserved_bookshelf_path_collisions_are_refused() {
    let paths = vec![Some("intro.md".to_string()), None, Some(ROOT_BOOKSHELF_CHAPTER_PATH.to_string())];
    assert_eq!(
        ensure_reserved_bookshelf_path_is_available(&paths, "root book"),
        Err(RootBookshelfError::ReservedPathTaken { book_id: "root book".to_string() })
    );
    let nested = vec![Some("guide/bookshelf.md".to_string())];
    assert!(ensure_reserved_bookshelf_path_is_available(&nested, "docs").is_err());
    let free = vec![Some("index.md".to_string()), Some("architecture.md".to_string()), None];
    assert_eq!(ensure_reserved_bookshelf_path_is_available(&free, "docs"), Ok(()));
}

#[test]
fn entry_path_and_hrefs() {
    assert_eq!(site_root_bookshelf_entry_path("docs"), "docs/bookshelf.html");
    assert_eq!(bookshelf_book_href(&sample_books()[1], "docs"), "../modules/parser/docs/index.html");
    assert_eq!(bookshelf_book_href(&sample_books()[0], "docs"), "index.html");
}

#[test]
fn inject_root_bookshelf_page_prepends_a_synthetic_chapter() {
    let chapter_paths = vec![Some("index.md".to_string()), Some("architecture.md".to_string())];
    assert_eq!(ensure_reserved_bookshelf_path_is_available(&chapter_paths, "root book"), Ok(()));
    assert_eq!(ROOT_BOOKSHELF_CHAPTER_NAME, "Bookshelf");
    assert_eq!(ROOT_BOOKSHELF_CHAPTER_PATH, "bookshelf.md");
    assert_eq!(ROOT_BOOKSHELF_HTML_PATH, "bookshelf.html");

    let content = render_root_bookshelf_markdown(&sample_books()).expect("injection should succeed");
    assert!(content.contains("class=\"bookshelf-list\""));
    assert!(content.contains("<a class=\"bookshelf-book\" href=\"index.html\">"));
    assert!(content.contains("<span class=\"bookshelf-book-title\">Sample Core</span>"));
    assert!(content.contains("Repository-wide onboarding"));
    assert!(content.contains("<a class=\"bookshelf-book\" href=\"../modules/parser/docs/index.html\">"));
}

#[test]
fn inject_root_bookshelf_page_rejects_reserved_path_collisions() {
    let chapter_paths = vec![Some(ROOT_BOOKSHELF_CHAPTER_PATH.to_string())];
    let error = ensure_reserved_bookshelf_path_is_available(&chapter_paths, "root book").expect_err("must fail");
    assert!(error.message().contains("reserved bookshelf path"));
    assert_eq!(error.message(), "book 'root book' already contains reserved bookshelf path 'bookshelf.md'");
    assert_eq!(RootBookshelfError::MissingRootBook.message(), "bookshelf catalog has no root book");
}
