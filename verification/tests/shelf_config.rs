use mdbook_bookshelf::shelf::config::{
    default_bookshelf_asset_dir, ensure_output_root_available, is_ancestor, is_ancestor_or_descendant,
    normalize_bookshelf_asset_dir_path, normalize_child_source_rel_path, normalize_optional_cover_path,
    normalize_rel_dir_path, normalize_rel_file_path, normalize_root_source_rel_path, validate_and_build,
    validate_book_id, validate_book_title, validate_canonical_output_root, validate_categories, BookshelfCategory,
    ConfigError, RawCategory, RawChildBook, RawShelf,
};

fn s(v: &str) -> String {
    v.to_string()
}

fn category(title: &str, books: &[&str]) -> RawCategory {
    RawCategory { title: s(title), books: books.iter().map(|b| s(b)).collect() }
}

fn child(id: &str, src: &str) -> RawChildBook {
    RawChildBook { id: s(id), cover: None, title: Some(format!("{id} title")), src: Some(s(src)) }
}

fn sample_shelf() -> RawShelf {
    RawShelf {
        root_book_id: s("root"),
        root_book_cover: None,
        asset_dir: s(".mdbook/bookshelf"),
        books: vec![Ok(child("parser", "modules/parser/docs")), Ok(child("ui", "modules/ui/docs"))],
        categories: vec![category("Start", &["root"]), category(" Modules ", &["parser", "ui"])],
    }
}

#[test]
fn book_ids_accept_ascii_names_only() {
    assert_eq!(validate_book_id("parser-2.x_y", "k"), Ok(()));
    assert_eq!(validate_book_id("", "k"), Err(ConfigError::EmptyId { key: s("k") }));
    assert_eq!(validate_book_id("a b", "k"), Err(ConfigError::InvalidId { key: s("k") }));
    assert_eq!(validate_book_id("a/b", "k"), Err(ConfigError::InvalidId { key: s("k") }));
}

#[test]
fn relative_directories_are_normalized_or_refused() {
    assert_eq!(normalize_rel_dir_path("b", "./docs//guide/", "src path", false), Ok(s("docs/guide")));
    assert_eq!(normalize_rel_dir_path("b", "./", "src path", false), Ok(s(".")));
    assert_eq!(
        normalize_rel_dir_path("b", "", "src path", false),
        Err(ConfigError::EmptyPath { book_id: s("b"), noun: s("src path") })
    );
    assert_eq!(
        normalize_rel_dir_path("b", "/abs", "src path", false),
        Err(ConfigError::AbsolutePath { book_id: s("b"), noun: s("src path"), raw: s("/abs") })
    );
    assert_eq!(
        normalize_rel_dir_path("b", "docs/../x", "src path", false),
        Err(ConfigError::ParentDirInPath { book_id: s("b"), noun: s("src path"), raw: s("docs/../x") })
    );
    assert_eq!(
        normalize_rel_dir_path("b", "docs/SUMMARY.md", "src path", true),
        Err(ConfigError::SummaryFileAsSource { book_id: s("b"), noun: s("src path"), raw: s("docs/SUMMARY.md") })
    );
    assert_eq!(normalize_rel_dir_path("b", "docs/SUMMARY.md", "src path", false), Ok(s("docs/SUMMARY.md")));
    assert_eq!(normalize_root_source_rel_path("docs"), Ok(s("docs")));
    assert_eq!(
        normalize_child_source_rel_path("/x"),
        Err(ConfigError::AbsolutePath { book_id: s("bookshelf.book"), noun: s("src path"), raw: s("/x") })
    );
}

#[test]
fn file_paths_and_asset_dirs_must_name_something_below_the_root() {
    assert_eq!(normalize_rel_file_path("b", "img/cover.png", "cover"), Ok(s("img/cover.png")));
    assert_eq!(
        normalize_rel_file_path("b", ".", "cover"),
        Err(ConfigError::FilePathIsRoot { book_id: s("b"), noun: s("cover") })
    );
    assert_eq!(normalize_optional_cover_path(None, "k"), Ok(None));
    assert_eq!(normalize_optional_cover_path(Some("./c.png"), "k"), Ok(Some(s("c.png"))));
    assert_eq!(normalize_bookshelf_asset_dir_path("./assets/"), Ok(s("assets")));
    assert_eq!(normalize_bookshelf_asset_dir_path("."), Err(ConfigError::AssetDirIsRoot));
    assert_eq!(default_bookshelf_asset_dir(), ".mdbook/bookshelf");
}

#[test]
fn output_roots_must_be_distinct_and_disjoint() {
    assert_eq!(validate_canonical_output_root("docs", "k"), Ok(()));
    assert_eq!(
        validate_canonical_output_root(".", "k"),
        Err(ConfigError::OutputRootIsSiteRoot { key: s("k"), path: s(".") })
    );
    assert!(is_ancestor("docs", "docs/guide"));
    assert!(!is_ancestor("docs", "docs"));
    assert!(!is_ancestor("docs", "docsx/guide"));
    assert!(is_ancestor_or_descendant("docs/guide", "docs"));
    let existing = vec![s("docs"), s("modules/parser/docs")];
    assert_eq!(ensure_output_root_available("modules/ui/docs", &existing), Ok(()));
    assert_eq!(
        ensure_output_root_available("docs/", &existing),
        Err(ConfigError::DuplicateOutputRoot { candidate: s("docs/") })
    );
    assert_eq!(
        ensure_output_root_available("modules/parser", &existing),
        Err(ConfigError::OverlappingOutputRoot { candidate: s("modules/parser"), existing: s("modules/parser/docs") })
    );
}

#[test]
fn titles_must_be_present_and_not_empty() {
    assert_eq!(validate_book_title(Some("T"), "k"), Ok(()));
    assert_eq!(validate_book_title(Some(""), "k"), Err(ConfigError::EmptyTitle { key: s("k") }));
    assert_eq!(validate_book_title(None, "k"), Err(ConfigError::MissingTitle { key: s("k") }));
}

#[test]
fn categories_partition_the_books() {
    let all = vec![s("root"), s("parser"), s("ui")];
    let ok = validate_categories(&vec![category(" A ", &["root", "ui"]), category("B", &["parser"])], &all).unwrap();
    assert_eq!(
        ok,
        vec![
            BookshelfCategory { title: s("A"), book_ids: vec![s("root"), s("ui")] },
            BookshelfCategory { title: s("B"), book_ids: vec![s("parser")] },
        ]
    );
    assert_eq!(validate_categories(&vec![], &all), Err(ConfigError::NoCategories));
    assert_eq!(validate_categories(&vec![category("  ", &["root"])], &all), Err(ConfigError::EmptyCategoryTitle));
    assert_eq!(validate_categories(&vec![category("A", &[])], &all), Err(ConfigError::EmptyCategory { title: s("A") }));
    assert_eq!(
        validate_categories(&vec![category("A", &["root", "nope"])], &all),
        Err(ConfigError::UnknownCategoryBook { title: s("A"), book_id: s("nope") })
    );
    assert_eq!(
        validate_categories(&vec![category("A", &["root", "ui", "parser"]), category("B", &["ui"])], &all),
        Err(ConfigError::BookInTwoCategories { book_id: s("ui") })
    );
    assert_eq!(
        validate_categories(&vec![category("A", &["root"])], &all),
        Err(ConfigError::UncategorizedBook { book_id: s("parser") })
    );
}

#[test]
fn a_whole_configuration_validates() {
    let shelf = validate_and_build(&sample_shelf(), Some("Root"), "docs").expect("valid configuration");
    assert_eq!(shelf.root_book_id, "root");
    assert_eq!(shelf.root_source_rel, "docs");
    assert_eq!(shelf.asset_dir, ".mdbook/bookshelf");
    assert_eq!(shelf.books.len(), 2);
    assert_eq!(shelf.books[0].id, "parser");
    assert_eq!(shelf.books[0].source_rel, "modules/parser/docs");
    assert_eq!(shelf.books[1].source_rel, "modules/ui/docs");
    assert_eq!(shelf.categories[1].title, "Modules");
}

#[test]
fn configuration_errors_come_in_order() {
    assert_eq!(
        validate_and_build(&sample_shelf(), None, "docs").unwrap_err(),
        ConfigError::MissingTitle { key: s("book.title") }
    );
    assert_eq!(
        validate_and_build(&sample_shelf(), Some("Root"), ".").unwrap_err(),
        ConfigError::OutputRootIsSiteRoot { key: s("book.src"), path: s(".") }
    );
    let mut dup = sample_shelf();
    dup.books.push(Ok(child("parser", "other/docs")));
    assert_eq!(
        validate_and_build(&dup, Some("Root"), "docs").unwrap_err(),
        ConfigError::DuplicateBookId { id: s("parser") }
    );
    let mut nested = sample_shelf();
    nested.books.push(Ok(child("inner", "docs/inner")));
    nested.categories[0].books.push(s("inner"));
    assert_eq!(
        validate_and_build(&nested, Some("Root"), "docs").unwrap_err(),
        ConfigError::OverlappingOutputRoot { candidate: s("docs/inner"), existing: s("docs") }
    );
    let mut broken = sample_shelf();
    broken.books.insert(0, Err(s("missing field `id`")));
    assert_eq!(
        validate_and_build(&broken, Some("Root"), "docs").unwrap_err(),
        ConfigError::InvalidBookEntry { message: s("missing field `id`") }
    );
    let mut same_as_root = sample_shelf();
    same_as_root.books[0].as_mut().unwrap().src = None;
    assert_eq!(
        validate_and_build(&same_as_root, Some("Root"), "docs").unwrap_err(),
        ConfigError::DuplicateOutputRoot { candidate: s("docs") }
    );
}
