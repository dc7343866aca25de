use mdbook_bookshelf::reader_site::{
    AuthoredPage, BookshelfPage, ReaderBook, ReaderSite, ShelfItem, SiteRoot,
};
use mdbook_bookshelf::sidebar::{build_sidebar_chapters, build_sidebar_model, SidebarChapter};

fn page(title: &str, source_path: &str, book_id: &str, order: usize, summary_depth: usize) -> AuthoredPage {
    AuthoredPage {
        title: title.to_owned(),
        source_path: source_path.to_owned(),
        book_id: book_id.to_owned(),
        order,
        summary_depth,
    }
}

fn chapter(title: &str, source_path: &str, summary_depth: usize, children: Vec<SidebarChapter>) -> SidebarChapter {
    SidebarChapter {
        title: title.to_owned(),
        source_path: source_path.to_owned(),
        summary_depth,
        children,
    }
}

#[test]
fn builds_nested_sidebar_chapters_from_summary_depth() {
    let pages = vec![
        AuthoredPage {
            title: "Root".to_owned(),
            source_path: "root.md".to_owned(),
            book_id: "book".to_owned(),
            order: 0,
            summary_depth: 0,
        },
        AuthoredPage {
            title: "Child".to_owned(),
            source_path: "child.md".to_owned(),
            book_id: "book".to_owned(),
            order: 1,
            summary_depth: 1,
        },
        AuthoredPage {
            title: "Sibling".to_owned(),
            source_path: "sibling.md".to_owned(),
            book_id: "book".to_owned(),
            order: 2,
            summary_depth: 0,
        },
    ];
    let mut index = 0;

    let chapters = build_sidebar_chapters(&pages, &mut index, 0);

    assert_eq!(
        chapters,
        vec![
            SidebarChapter {
                title: "Root".to_owned(),
                source_path: "root.md".to_owned(),
                summary_depth: 0,
                children: vec![SidebarChapter {
                    title: "Child".to_owned(),
                    source_path: "child.md".to_owned(),
                    summary_depth: 1,
                    children: vec![],
                }],
            },
            SidebarChapter {
                title: "Sibling".to_owned(),
                source_path: "sibling.md".to_owned(),
                summary_depth: 0,
                children: vec![],
            },
        ]
    );
}

#[test]
fn sidebar_chapters_stop_at_shallower_page_and_report_index() {
    let pages = vec![
        page("A", "a.md", "b", 0, 1),
        page("B", "b.md", "b", 1, 2),
        page("C", "c.md", "b", 2, 0),
    ];
    let mut index = 0;
    let chapters = build_sidebar_chapters(&pages, &mut index, 1);
    assert_eq!(index, 2);
    assert_eq!(
        chapters,
        vec![chapter("A", "a.md", 1, vec![chapter("B", "b.md", 2, vec![])])]
    );
}

#[test]
fn sidebar_chapters_leave_index_past_end_unchanged() {
    let pages = vec![page("A", "a.md", "b", 0, 0)];
    let mut index = 5;
    let chapters = build_sidebar_chapters(&pages, &mut index, 0);
    assert_eq!(index, 5);
    assert!(chapters.is_empty());
}

#[test]
fn sidebar_chapters_nest_deep_summaries() {
    let pages = vec![
        page("A", "a.md", "b", 0, 0),
        page("B", "b.md", "b", 1, 1),
        page("C", "c.md", "b", 2, 2),
        page("D", "d.md", "b", 3, 1),
        page("E", "e.md", "b", 4, 0),
    ];
    let mut index = 0;
    let chapters = build_sidebar_chapters(&pages, &mut index, 0);
    assert_eq!(index, 5);
    assert_eq!(
        chapters,
        vec![
            chapter(
                "A",
                "a.md",
                0,
                vec![
                    chapter("B", "b.md", 1, vec![chapter("C", "c.md", 2, vec![])]),
                    chapter("D", "d.md", 1, vec![]),
                ]
            ),
            chapter("E", "e.md", 0, vec![]),
        ]
    );
}

fn sample_site() -> ReaderSite {
    ReaderSite {
        config_path: "/site/bookshelf.toml".to_owned(),
        root_book: "meta".to_owned(),
        books: vec![
            ReaderBook {
                id: "meta".to_owned(),
                title: "Meta".to_owned(),
                authored_page_order: vec!["/site/docs/index.md".to_owned()],
            },
            ReaderBook {
                id: "parser".to_owned(),
                title: "Parser".to_owned(),
                authored_page_order: vec![
                    "/site/parser/intro.md".to_owned(),
                    "/site/parser/grammar.md".to_owned(),
                ],
            },
        ],
        authored_pages: vec![
            page("Grammar", "/site/parser/grammar.md", "parser", 1, 1),
            page("Welcome", "/site/docs/index.md", "meta", 0, 0),
            page("Intro", "/site/parser/intro.md", "parser", 0, 0),
        ],
        bookshelf_page: BookshelfPage {
            page_id: "bookshelf:root".to_owned(),
            title: "Bookshelf".to_owned(),
            route_path: "".to_owned(),
            owner_book_id: "meta".to_owned(),
            shelf_items: vec![ShelfItem {
                book_id: "parser".to_owned(),
                title: "Parser <core>".to_owned(),
                description: Some("Grammar & runtime".to_owned()),
                target_source_path: "/site/parser/intro.md".to_owned(),
            }],
        },
        root_entry: SiteRoot::BookshelfPage {
            page_id: "bookshelf:root".to_owned(),
        },
    }
}

#[test]
fn sidebar_model_sorts_pages_by_order_and_links_root_book_to_bookshelf() {
    let site = sample_site();
    let model = build_sidebar_model(&site);
    assert_eq!(model.sidebars.len(), 2);
    assert_eq!(model.sidebars[0].book_id, "meta");
    assert_eq!(model.sidebars[0].affix_entries.len(), 1);
    assert_eq!(model.sidebars[0].affix_entries[0].title, "Bookshelf");
    assert_eq!(model.sidebars[0].affix_entries[0].target_page_id, "bookshelf:root");
    assert_eq!(model.sidebars[1].book_id, "parser");
    assert!(model.sidebars[1].affix_entries.is_empty());
    assert_eq!(
        model.sidebars[1].chapter_entries,
        vec![chapter(
            "Intro",
            "/site/parser/intro.md",
            0,
            vec![chapter("Grammar", "/site/parser/grammar.md", 1, vec![])]
        )]
    );
    assert_eq!(model.sidebar_for("parser").unwrap().book_id, "parser");
    assert!(model.sidebar_for("missing").is_none());
}

#[test]
fn deeper_jumps_replace_the_children_of_the_chapter_before() {
    let pages = vec![
        page("Top", "top.md", "book", 0, 0),
        page("Deep", "deep.md", "book", 1, 3),
        page("Middle", "middle.md", "book", 2, 2),
        page("Next", "next.md", "book", 3, 0),
    ];
    let mut index = 0;
    let chapters = build_sidebar_chapters(&pages, &mut index, 0);
    assert_eq!(index, 4);
    assert_eq!(
        chapters,
        vec![
            chapter("Top", "top.md", 0, vec![chapter("Middle", "middle.md", 2, Vec::new())]),
            chapter("Next", "next.md", 0, Vec::new()),
        ]
    );
}

#[test]
fn a_deep_first_page_starts_the_level() {
    let pages = vec![page("Deep", "deep.md", "book", 0, 2), page("Top", "top.md", "book", 1, 0)];
    let mut index = 0;
    let chapters = build_sidebar_chapters(&pages, &mut index, 0);
    assert_eq!(index, 2);
    assert_eq!(
        chapters,
        vec![chapter("Deep", "deep.md", 2, Vec::new()), chapter("Top", "top.md", 0, Vec::new())]
    );
}
