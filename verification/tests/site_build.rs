use mdbook_bookshelf::catalog::{InputBook, InputCatalog};
use mdbook_bookshelf::html_site::{
    content_output_paths, content_page_html, root_index_html, BookPresentation, HtmlSiteError,
};
use mdbook_bookshelf::loader::{LoadedBook, LoadedBooks, LoadedChapter};
use mdbook_bookshelf::navigation::build_navigation_metadata;
use mdbook_bookshelf::search_model::build_search_documents;
use mdbook_bookshelf::site_model::{build_site_model, SiteModelError, SitePageKind};

fn input_book(id: &str, title: &str, is_root_book: bool) -> InputBook {
    InputBook {
        id: id.to_string(),
        title: title.to_string(),
        description: None,
        book_root_rel: String::new(),
        book_root_abs: "site".to_string(),
        book_src_rel: id.to_string(),
        book_src_abs: format!("site/{id}"),
        summary_abs: format!("site/{id}/SUMMARY.md"),
        is_root_book,
    }
}

fn catalog() -> InputCatalog {
    InputCatalog {
        config_path: "site/bookshelf.toml".to_string(),
        config_dir: "site".to_string(),
        root_book_id: "core".to_string(),
        books: vec![input_book("core", "Core <Docs>", true), input_book("parser", "Parser", false)],
    }
}

fn chapter(name: &str, path: Option<&str>) -> LoadedChapter {
    LoadedChapter { name: name.to_string(), path: path.map(str::to_string), source_path: path.map(str::to_string) }
}

fn loaded() -> LoadedBooks {
    LoadedBooks {
        root_book_id: "core".to_string(),
        books: vec![
            LoadedBook {
                book_id: "core".to_string(),
                chapters: vec![
                    chapter("Intro", Some("intro.md")),
                    chapter("Draft", None),
                    chapter("Guide", Some("guide/setup.md")),
                ],
            },
            LoadedBook { book_id: "parser".to_string(), chapters: vec![chapter("Grammar", Some("grammar.md"))] },
        ],
    }
}

fn presentations() -> Vec<BookPresentation> {
    vec![
        BookPresentation { book_id: "core".to_string(), language: Some("fr".to_string()), default_theme: None },
        BookPresentation { book_id: "parser".to_string(), language: None, default_theme: Some("navy".to_string()) },
    ]
}

#[test]
fn site_model_numbers_content_pages_and_adds_the_bookshelf_page() {
    let model = build_site_model(&catalog(), &loaded()).expect("site model");
    assert_eq!(model.synthetic_bookshelf_page_id, "bookshelf:root");
    assert_eq!(model.pages.len(), 4);
    assert_eq!(model.pages[0].kind, SitePageKind::SyntheticBookshelf);
    assert_eq!(model.pages[0].route, "/");
    assert_eq!(model.pages[0].owning_book_id, "core");
    assert_eq!(model.pages[1].page_id, "core:0000");
    assert_eq!(model.pages[1].route, "/core/intro");
    assert_eq!(model.pages[2].page_id, "core:0001");
    assert_eq!(model.pages[2].route, "/core/guide/setup");
    assert_eq!(model.pages[2].order_in_book, Some(1));
    assert_eq!(model.pages[3].page_id, "parser:0000");
    assert_eq!(model.books[0].page_ids_in_order, vec!["core:0000".to_string(), "core:0001".to_string()]);
    assert!(model.books[0].is_root_book);
}

#[test]
fn site_model_mismatches_are_refused() {
    let mut other_root = loaded();
    other_root.root_book_id = "parser".to_string();
    assert!(matches!(build_site_model(&catalog(), &other_root), Err(SiteModelError::RootBookMismatch { .. })));
    let mut fewer = loaded();
    fewer.books.pop();
    assert_eq!(
        build_site_model(&catalog(), &fewer),
        Err(SiteModelError::BookCountMismatch { catalog: 2, loaded: 1 })
    );
    let mut swapped = loaded();
    swapped.books.swap(0, 1);
    assert!(matches!(
        build_site_model(&catalog(), &swapped),
        Err(SiteModelError::BookOrderMismatch { index: 0, .. })
    ));
}

#[test]
fn navigation_links_neighbours_within_a_book() {
    let model = build_site_model(&catalog(), &loaded()).unwrap();
    let nav = build_navigation_metadata(&model).expect("navigation");
    let first = nav.for_page("core:0000").unwrap();
    assert_eq!(first.prev_page_id, None);
    assert_eq!(first.next_page_id.as_deref(), Some("core:0001"));
    assert_eq!(first.breadcrumb.as_deref(), Some("Core <Docs> / Intro"));
    let second = nav.for_page("core:0001").unwrap();
    assert_eq!(second.prev_page_id.as_deref(), Some("core:0000"));
    assert_eq!(second.next_page_id, None);
    assert_eq!(nav.resolve_active_book_id("parser:0000"), Some("parser"));
    assert!(nav.for_page("bookshelf:root").is_none());
}

#[test]
fn navigation_keeps_one_entry_per_page_id() {
    let mut model = build_site_model(&catalog(), &loaded()).unwrap();
    model.books[0].page_ids_in_order =
        vec!["core:0001".to_string(), "core:0000".to_string(), "core:0001".to_string()];
    let nav = build_navigation_metadata(&model).expect("navigation");
    let ids: Vec<&str> = nav.by_page_id.iter().map(|e| e.page_id.as_str()).collect();
    assert_eq!(ids, vec!["core:0000", "core:0001", "parser:0000"]);
    let again = nav.for_page("core:0001").unwrap();
    assert_eq!(again.prev_page_id.as_deref(), Some("core:0000"));
    assert_eq!(again.next_page_id, None);
    let first = nav.for_page("core:0000").unwrap();
    assert_eq!(first.prev_page_id.as_deref(), Some("core:0001"));
    assert_eq!(first.next_page_id.as_deref(), Some("core:0001"));
}

#[test]
fn search_documents_follow_book_order() {
    let model = build_site_model(&catalog(), &loaded()).unwrap();
    let nav = build_navigation_metadata(&model).unwrap();
    let docs = build_search_documents(&model, &nav).expect("search documents").documents;
    assert_eq!(docs.len(), 3);
    assert_eq!(docs[0].document_id, "search:core:0000");
    assert_eq!(docs[0].content_text, "Intro");
    assert_eq!(docs[0].owning_book_label, "Core <Docs>");
    assert_eq!(docs[2].breadcrumb, "Parser / Grammar");
}

#[test]
fn html_site_pages_and_root_index() {
    let model = build_site_model(&catalog(), &loaded()).unwrap();
    let nav = build_navigation_metadata(&model).unwrap();
    let outputs = content_output_paths(&model);
    let paths: Vec<_> = outputs.iter().map(|o| (o.page_id.as_str(), o.rel_path.as_str())).collect();
    assert_eq!(
        paths,
        vec![("core:0000", "core/p0000.html"), ("core:0001", "core/p0001.html"), ("parser:0000", "parser/p0000.html")]
    );

    assert_eq!(content_page_html(&model, 0, &nav, &outputs, &presentations()), Ok(None));
    let page = content_page_html(&model, 1, &nav, &outputs, &presentations()).unwrap().unwrap();
    assert_eq!(page.rel_path, "core/p0000.html");
    assert_eq!(
        page.html,
        "<!doctype html><html lang=\"fr\"><head><meta charset=\"utf-8\"><title>Intro</title></head>\
<body data-mdbook-default-theme=\"light\"><h1>Intro</h1><p>Core &lt;Docs&gt; / Intro</p><p>Book core</p>\
<p>Order 0</p><nav> <a href=\"/core/p0001.html\">Next</a></nav></body></html>"
    );
    let grammar = content_page_html(&model, 3, &nav, &outputs, &presentations()).unwrap().unwrap();
    assert!(grammar.html.contains("lang=\"en\""));
    assert!(grammar.html.contains("data-mdbook-default-theme=\"navy\""));

    assert_eq!(
        root_index_html(&model, &outputs, &presentations()).unwrap(),
        "<!doctype html><html lang=\"fr\"><head><meta charset=\"utf-8\"><title>Bookshelf</title></head>\
<body data-mdbook-default-theme=\"light\"><h1>Bookshelf</h1><ul>\
<li data-book-id=\"core\"><a href=\"/core/p0000.html\">Core &lt;Docs&gt;</a></li>\
<li data-book-id=\"parser\"><a href=\"/parser/p0000.html\">Parser</a></li></ul></body></html>"
    );
}

#[test]
fn html_site_reports_missing_presentations() {
    let model = build_site_model(&catalog(), &loaded()).unwrap();
    let nav = build_navigation_metadata(&model).unwrap();
    let outputs = content_output_paths(&model);
    let only_parser = vec![presentations().remove(1)];
    assert_eq!(
        content_page_html(&model, 1, &nav, &outputs, &only_parser),
        Err(HtmlSiteError::MissingProjectedConfig { book_id: "core".to_string() })
    );
    assert_eq!(root_index_html(&model, &outputs, &only_parser), Err(HtmlSiteError::MissingRootProjectedConfig));
}
