use mdbook_bookshelf::input_catalog::{
    check_new_book_id, finish_input_catalog, input_book, parse_summary_root, summary_entry, LoadInputCatalogError,
};

#[test]
fn derives_root_from_first_summary_link() {
    let summary = "# Summary\n\n- [Book](index.md)\n  - [Next](next.md)\n";
    let root = parse_summary_root("book", "/tmp/docs/SUMMARY.md", summary).unwrap();
    assert_eq!(root, "/tmp/docs/index.md");
}

#[test]
fn rejects_authored_bookshelf_entries() {
    let summary = "# Summary\n\n- [Book](index.md)\n- [Bookshelf](bookshelf.md)\n";
    let error = parse_summary_root("book", "/tmp/docs/SUMMARY.md", summary).unwrap_err();
    assert!(matches!(
        error,
        LoadInputCatalogError::AuthoredBookshelfEntry { .. }
    ));
}

#[test]
fn duplicate_book_ids_are_refused() {
    let seen = vec!["core".to_string(), "parser".to_string()];
    assert!(check_new_book_id(&seen, "guide").is_ok());
    match check_new_book_id(&seen, "parser") {
        Err(LoadInputCatalogError::DuplicateBookId { book_id }) => assert_eq!(book_id, "parser"),
        other => panic!("unexpected {other:?}"),
    }
    assert_eq!(
        check_new_book_id(&seen, "core").unwrap_err().message(),
        "duplicate bookshelf book id `core`"
    );
}

#[test]
fn summary_entries_are_trimmed_and_must_not_be_empty() {
    assert_eq!(summary_entry("core", "  docs/SUMMARY.md \t").unwrap(), "docs/SUMMARY.md");
    match summary_entry("core", "   ") {
        Err(LoadInputCatalogError::MissingSummary { book_id }) => assert_eq!(book_id, "core"),
        other => panic!("unexpected {other:?}"),
    }
}

#[test]
fn input_books_take_their_content_root_from_the_summary() {
    let book = input_book("core", "Core", Some("About"), "/tmp/docs/SUMMARY.md", "- [Intro](intro.md#top)\n").unwrap();
    assert_eq!(book.id, "core");
    assert_eq!(book.title, "Core");
    assert_eq!(book.description.as_deref(), Some("About"));
    assert_eq!(book.summary_path, "/tmp/docs/SUMMARY.md");
    assert_eq!(book.content_root, "/tmp/docs/intro.md");
    assert!(matches!(
        input_book("core", "Core", None, "/tmp/docs/SUMMARY.md", "# Summary\n"),
        Err(LoadInputCatalogError::EmptySummary { .. })
    ));
}

#[test]
fn the_root_book_must_be_configured() {
    let book = input_book("core", "Core", None, "/tmp/docs/SUMMARY.md", "- [Intro](intro.md)\n").unwrap();
    let catalog = finish_input_catalog("bookshelf.toml", "core", vec![book]).unwrap();
    assert_eq!(catalog.root_book, "core");
    assert_eq!(catalog.books.len(), 1);
    let other = input_book("guide", "Guide", None, "/tmp/g/SUMMARY.md", "- [G](g.md)\n").unwrap();
    let err = finish_input_catalog("bookshelf.toml", "core", vec![other]).unwrap_err();
    assert_eq!(err.message(), "configured root_book `core` is not present in `[[bookshelf.book]]`");
}
