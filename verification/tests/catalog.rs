use mdbook_bookshelf::catalog::{catalog_book, input_catalog_from_books, CatalogError};
use mdbook_bookshelf::site_config::{BookshelfBook, BookshelfConfig};

fn book(id: &str, summary_rel: &str) -> BookshelfBook {
    BookshelfBook {
        id: id.to_string(),
        title: format!("{id} title"),
        description: None,
        summary_rel: summary_rel.to_string(),
        summary_abs: format!("site/{summary_rel}"),
        book_root: "site".to_string(),
        book_src: String::new(),
    }
}

fn config(books: Vec<BookshelfBook>) -> BookshelfConfig {
    BookshelfConfig {
        config_path: "site/bookshelf.toml".to_string(),
        config_dir: "site".to_string(),
        root_book: "core".to_string(),
        books,
    }
}

#[test]
fn catalog_entries_resolve_source_and_root_directories() {
    let cfg = config(vec![book("core", "docs/SUMMARY.md"), book("parser", "modules/parser/docs/SUMMARY.md")]);
    let core = catalog_book(&cfg, &cfg.books[0]).unwrap();
    assert_eq!(core.book_src_rel, "docs");
    assert_eq!(core.book_root_rel, "");
    assert_eq!(core.book_src_abs, "site/docs");
    assert_eq!(core.summary_abs, "site/docs/SUMMARY.md");
    assert!(core.is_root_book);
    let parser = catalog_book(&cfg, &cfg.books[1]).unwrap();
    assert_eq!(parser.book_src_rel, "modules/parser/docs");
    assert_eq!(parser.book_root_rel, "modules/parser");
    assert_eq!(parser.book_root_abs, "site/modules/parser");
    assert!(!parser.is_root_book);
}

#[test]
fn summary_without_parent_is_refused() {
    let cfg = config(vec![book("core", "")]);
    assert_eq!(
        catalog_book(&cfg, &cfg.books[0]),
        Err(CatalogError::InvalidSummaryPath { book_id: "core".to_string(), summary_rel: String::new() })
    );
}

#[test]
fn catalog_needs_exactly_one_root_book() {
    let cfg = config(vec![book("core", "docs/SUMMARY.md"), book("parser", "p/SUMMARY.md")]);
    let books: Vec<_> = cfg.books.iter().map(|b| catalog_book(&cfg, b).unwrap()).collect();
    let catalog = input_catalog_from_books(&cfg, books.clone()).unwrap();
    assert_eq!(catalog.root_book_id, "core");
    assert_eq!(catalog.books, books);

    let none = vec![books[1].clone()];
    assert_eq!(
        input_catalog_from_books(&cfg, none),
        Err(CatalogError::RootBookCount { root_book: "core".to_string(), count: 0 })
    );
    let two = vec![books[0].clone(), books[0].clone()];
    assert_eq!(
        input_catalog_from_books(&cfg, two),
        Err(CatalogError::RootBookCount { root_book: "core".to_string(), count: 2 })
    );
}
