use mdbook_bookshelf::shelf::catalog::{
    book_root_from_source_rel, child_catalog_book, join_rel_dir, path_to_book_key, root_catalog_book,
    absolutize_book_paths, shelf_catalog_books, site_dest_dir, src_in_book_root, ChildBookInput,
};
use mdbook_bookshelf::numbers::format_page_count;
use mdbook_bookshelf::shelf::doc_index::documentation_index_title;

#[test]
fn directories_resolve_against_the_configuration() {
    assert_eq!(join_rel_dir("/site", "."), "/site");
    assert_eq!(join_rel_dir("/site", "modules/parser"), "/site/modules/parser");
    assert_eq!(book_root_from_source_rel("modules/parser/docs"), "modules/parser");
    assert_eq!(book_root_from_source_rel("docs"), "");
    assert_eq!(path_to_book_key("modules\\parser\\docs"), "modules/parser/docs");
    assert_eq!(src_in_book_root("modules/parser/docs"), "docs");
    assert_eq!(src_in_book_root("docs/"), "docs");
    assert_eq!(src_in_book_root(".."), "..");
}

#[test]
fn root_and_child_entries() {
    let root = root_catalog_book("/site", "core", "docs", "Core", Some("About"));
    assert_eq!(root.output_rel, "books/core");
    assert_eq!(root.book_root_rel, ".");
    assert_eq!(root.book_root_abs, "/site");
    assert_eq!(root.book_src_abs, "/site/docs");
    assert_eq!(root.summary_abs, "/site/docs/SUMMARY.md");
    assert_eq!(root.summary_rel, "docs/SUMMARY.md");
    assert!(root.is_root_book);

    let child = child_catalog_book("/site", "parser", "modules/parser/docs", "docs", "Parser", None);
    assert_eq!(child.output_rel, "modules/parser/docs");
    assert_eq!(child.book_root_rel, "modules/parser");
    assert_eq!(child.book_root_abs, "/site/modules/parser");
    assert_eq!(child.book_src_abs, "/site/modules/parser/docs");
    assert_eq!(child.summary_abs, "/site/modules/parser/docs/SUMMARY.md");
    assert_eq!(child.description, None);
    assert!(!child.is_root_book);
}

#[test]
fn catalog_lists_the_root_book_first_and_only_once() {
    let children = vec![
        ChildBookInput {
            id: "parser".to_string(),
            source_rel: "modules/parser/docs".to_string(),
            src: src_in_book_root("modules/parser/docs"),
            title: "Parser".to_string(),
            description: Some("Grammar".to_string()),
        },
        ChildBookInput {
            id: "guide".to_string(),
            source_rel: "guide".to_string(),
            src: src_in_book_root("guide"),
            title: "Guide".to_string(),
            description: None,
        },
    ];
    let books = shelf_catalog_books("/site", "core", "docs", "Core", None, &children);
    let ids: Vec<_> = books.iter().map(|b| b.id.as_str()).collect();
    assert_eq!(ids, vec!["core", "parser", "guide"]);
    let roots: Vec<_> = books.iter().map(|b| b.is_root_book).collect();
    assert_eq!(roots, vec![true, false, false]);
    assert_eq!(books[1].book_src_abs, "/site/modules/parser/docs");
    assert_eq!(books[2].book_root_abs, "/site/");
    assert_eq!(books[2].book_src_abs, "/site/guide");
}

#[test]
fn the_site_is_written_to_the_destination_or_the_build_directory() {
    assert_eq!(site_dest_dir("/work", "site", "book", Some("out")), "/work/out");
    assert_eq!(site_dest_dir("/work", "site", "book", Some("/tmp/out")), "/tmp/out");
    assert_eq!(site_dest_dir("/work", "site", "book", None), "/work/site/book");
    assert_eq!(site_dest_dir("/work", "/srv/site", "book", None), "/srv/site/book");
    assert_eq!(site_dest_dir("/work", "site", "/var/www", None), "/var/www");
}

#[test]
fn book_paths_are_made_absolute() {
    let mut book = child_catalog_book("site", "parser", "modules/parser/docs", "docs", "Parser", None);
    absolutize_book_paths(&mut book, "/work");
    assert_eq!(book.book_root_abs, "/work/site/modules/parser");
    assert_eq!(book.book_src_abs, "/work/site/modules/parser/docs");
    assert_eq!(book.summary_abs, "/work/site/modules/parser/docs/SUMMARY.md");
    assert_eq!(book.book_src_rel, "docs");
    let mut root = root_catalog_book("/srv", "core", "docs", "Core", None);
    absolutize_book_paths(&mut root, "/work");
    assert_eq!(root.book_src_abs, "/srv/docs");
}

#[test]
fn page_counts_and_index_titles() {
    assert_eq!(format_page_count(1), "1 page");
    assert_eq!(format_page_count(0), "0 pages");
    assert_eq!(format_page_count(12), "12 pages");
    assert_eq!(documentation_index_title(None), "Documentation");
    assert_eq!(documentation_index_title(Some("Docs".to_string())), "Docs");
}
