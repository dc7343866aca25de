use mdbook_bookshelf::reader_context::{
    build_reader_context_model, find_sidebar_title, BuildReaderContextError,
};
use mdbook_bookshelf::reader_site::{
    AuthoredPage, BookshelfPage, ReaderBook, ReaderSite, ShelfItem, SiteRoot,
};
use mdbook_bookshelf::sidebar::{build_sidebar_model, SidebarChapter, SidebarModel};

#[test]
fn finds_nested_sidebar_titles_by_source_path() {
    let chapters = vec![SidebarChapter {
        title: "Root".to_owned(),
        source_path: "/tmp/root.md".to_owned(),
        summary_depth: 0,
        children: vec![SidebarChapter {
            title: "Nested".to_owned(),
            source_path: "/tmp/nested.md".to_owned(),
            summary_depth: 1,
            children: vec![],
        }],
    }];

    assert_eq!(
        find_sidebar_title(&chapters, "/tmp/nested.md"),
        Some("Nested".to_owned())
    );
}

#[test]
fn sidebar_title_lookup_compares_paths_by_components() {
    let chapters = vec![SidebarChapter {
        title: "Root".to_owned(),
        source_path: "/tmp/root.md".to_owned(),
        summary_depth: 0,
        children: vec![],
    }];
    assert_eq!(find_sidebar_title(&chapters, "/tmp//./root.md"), Some("Root".to_owned()));
    assert_eq!(find_sidebar_title(&chapters, "/tmp/other.md"), None);
}

fn page(title: &str, source_path: &str, book_id: &str, order: usize, summary_depth: usize) -> AuthoredPage {
    AuthoredPage {
        title: title.to_owned(),
        source_path: source_path.to_owned(),
        book_id: book_id.to_owned(),
        order,
        summary_depth,
    }
}

fn sample_site() -> ReaderSite {
    ReaderSite {
        config_path: "/site/bookshelf.toml".to_owned(),
        root_book: "meta".to_owned(),
        books: vec![
            ReaderBook {
                id: "meta".to_owned(),
                title: "Meta".to_owned(),
                authored_page_order: vec!["/site/docs/index.md".to_owned()],
            },
            ReaderBook {
                id: "parser".to_owned(),
                title: "Parser".to_owned(),
                authored_page_order: vec![
                    "/site/parser/intro.md".to_owned(),
                    "/site/parser/grammar.md".to_owned(),
                ],
            },
        ],
        authored_pages: vec![
            page("Grammar", "/site/parser/grammar.md", "parser", 1, 1),
            page("Welcome", "/site/docs/index.md", "meta", 0, 0),
            page("Intro", "/site/parser/intro.md", "parser", 0, 0),
        ],
        bookshelf_page: BookshelfPage {
            page_id: "bookshelf:root".to_owned(),
            title: "Bookshelf".to_owned(),
            route_path: "".to_owned(),
            owner_book_id: "meta".to_owned(),
            shelf_items: vec![ShelfItem {
                book_id: "parser".to_owned(),
                title: "Parser".to_owned(),
                description: None,
                target_source_path: "/site/parser/intro.md".to_owned(),
            }],
        },
        root_entry: SiteRoot::BookshelfPage {
            page_id: "bookshelf:root".to_owned(),
        },
    }
}

#[test]
fn reader_context_links_neighbours_and_bookshelf() {
    let site = sample_site();
    let sidebars = build_sidebar_model(&site);
    let model = build_reader_context_model(&site, &sidebars).unwrap();
    assert_eq!(model.authored_page_contexts.len(), 3);
    let intro = &model.authored_page_contexts[1];
    assert_eq!(intro.source_path, "/site/parser/intro.md");
    assert_eq!(intro.page_title, "Intro");
    assert_eq!(intro.active_book.book_id, "parser");
    assert_eq!(intro.breadcrumbs.book_title, "Parser");
    assert!(intro.previous_page.is_none());
    assert_eq!(intro.next_page.as_ref().unwrap().title, "Grammar");
    let grammar = &model.authored_page_contexts[2];
    assert_eq!(grammar.previous_page.as_ref().unwrap().source_path, "/site/parser/intro.md");
    assert!(grammar.next_page.is_none());
    assert_eq!(grammar.bookshelf_return.page_id, "bookshelf:root");
    assert_eq!(model.bookshelf_page_context.active_book.book_id, "meta");
    assert_eq!(model.bookshelf_page_context.breadcrumbs.page_title, "Bookshelf");
    assert!(model.bookshelf_context_for_page_id("bookshelf:root").is_some());
    assert!(model.bookshelf_context_for_page_id("other").is_none());
    assert_eq!(
        model
            .authored_context_for_source_path("/site/parser/grammar.md")
            .unwrap()
            .page_title,
        "Grammar"
    );
}

#[test]
fn reader_context_reports_missing_sidebar_and_book() {
    let site = sample_site();
    let empty = SidebarModel { sidebars: vec![] };
    assert_eq!(
        build_reader_context_model(&site, &empty).unwrap_err(),
        BuildReaderContextError::MissingSidebar { book_id: "meta".to_owned() }
    );
    let mut site2 = sample_site();
    site2.bookshelf_page.owner_book_id = "gone".to_owned();
    let sidebars = build_sidebar_model(&site2);
    assert_eq!(
        build_reader_context_model(&site2, &sidebars).unwrap_err(),
        BuildReaderContextError::MissingBook { book_id: "gone".to_owned() }
    );
    let mut site3 = sample_site();
    site3.books[1].authored_page_order.push("/site/parser/missing.md".to_owned());
    let sidebars = build_sidebar_model(&site3);
    assert_eq!(
        build_reader_context_model(&site3, &sidebars).unwrap_err(),
        BuildReaderContextError::MissingAuthoredPage {
            book_id: "parser".to_owned(),
            source_path: "/site/parser/missing.md".to_owned()
        }
    );
}
