use mdbook_bookshelf::shelf::config::BookshelfCategory;
use mdbook_bookshelf::shelf::doc_index::{
    documentation_index_source_rel, hex_digit, percent_encode_path_component, render_documentation_index_markdown,
    render_documentation_index_summary, site_relative_url, DocIndexError, IndexBook,
};

fn sample_book(id: &str, src: &str, title: &str, description: Option<&str>) -> IndexBook {
    IndexBook {
        id: id.to_string(),
        title: title.to_string(),
        description: description.map(str::to_string),
        output_rel: src.to_string(),
    }
}

fn sample_books() -> Vec<IndexBook> {
    vec![
        sample_book("root", "root-book/docs", "Root Book", Some("Repository-wide docs.")),
        sample_book("parser", "modules/parser/docs", "Parser Book", None),
    ]
}

fn sample_categories() -> Vec<BookshelfCategory> {
    vec![BookshelfCategory {
        title: "Start Here".to_string(),
        book_ids: vec!["root".to_string(), "parser".to_string()],
    }]
}

#[test]
fn renders_markdown_summary_categories_books_and_descriptions() {
    let summary = render_documentation_index_summary("Documentation");
    let index = render_documentation_index_markdown("Documentation", &sample_books(), &sample_categories())
        .expect("index markdown should render");

    assert_eq!(summary, "# Summary\n\n- [Documentation](index.md)\n");
    assert_eq!(
        index,
        "\
# Documentation

## Start Here

<div class=\"bookshelf\">
<ul class=\"bookshelf-list\" role=\"list\">
<li>
<a class=\"bookshelf-book\" href=\"root-book/docs/index.html\">
<span class=\"bookshelf-book-title\">Root Book</span>
<span class=\"bookshelf-book-description\">Repository-wide docs.</span>
</a>
</li>
<li>
<a class=\"bookshelf-book\" href=\"modules/parser/docs/index.html\">
<span class=\"bookshelf-book-title\">Parser Book</span>
</a>
</li>
</ul>
</div>

"
    );
}

#[test]
fn renders_configured_index_title() {
    let summary = render_documentation_index_summary("Docs Portal");
    let index = render_documentation_index_markdown("Docs Portal", &sample_books(), &sample_categories())
        .expect("index markdown should render");

    assert_eq!(summary, "# Summary\n\n- [Docs Portal](index.md)\n");
    assert!(index.starts_with("# Docs Portal\n\n"));
    assert!(!index.contains("# Documentation\n\n"));
}

#[test]
fn escapes_markdown_link_text() {
    let mut books = sample_books();
    let mut categories = sample_categories();
    categories[0].title = "Start & <Here>".to_string();
    books[0].title = "Root [Book]".to_string();
    books[0].description = Some("A <trusted> & useful book.".to_string());
    let summary = render_documentation_index_summary("Docs [Portal]");
    let index = render_documentation_index_markdown("Docs [Portal]", &books, &categories)
        .expect("index markdown should render");

    assert!(summary.contains("[Docs \\[Portal\\]](index.md)"));
    assert!(index.contains("# Docs [Portal]"));
    assert!(index.contains("## Start & <Here>"));
    assert!(index.contains("<span class=\"bookshelf-book-title\">Root [Book]</span>"));
    assert!(index.contains("A &lt;trusted&gt; &amp; useful book."));
}

#[test]
fn encodes_generated_book_urls_per_path_component() {
    let mut books = sample_books();
    books[0].output_rel = "root docs/chapter#draft?review%done/javascript:example".to_string();

    let index = render_documentation_index_markdown("Documentation", &books, &sample_categories())
        .expect("index markdown should render");

    assert!(index.contains("href=\"root%20docs/chapter%23draft%3Freview%25done/javascript%3Aexample/index.html\""));
}

#[test]
fn unknown_category_book_is_reported() {
    let mut categories = sample_categories();
    categories[0].book_ids.push("missing".to_string());
    let err = render_documentation_index_markdown("Documentation", &sample_books(), &categories).unwrap_err();
    assert_eq!(
        err,
        DocIndexError::UnknownBook { category: "Start Here".to_string(), book_id: "missing".to_string() }
    );
}

#[test]
fn blank_descriptions_are_left_out_and_others_trimmed() {
    let mut books = sample_books();
    books[0].description = Some("   ".to_string());
    books[1].description = Some("  Parses. ".to_string());
    let index = render_documentation_index_markdown("Documentation", &books, &sample_categories()).unwrap();
    assert_eq!(index.matches("bookshelf-book-description").count(), 1);
    assert!(index.contains("<span class=\"bookshelf-book-description\">Parses.</span>"));
}

#[test]
fn percent_encoding_keeps_unreserved_and_encodes_utf8_bytes() {
    assert_eq!(percent_encode_path_component("a-b_c.d~E9"), "a-b_c.d~E9");
    assert_eq!(percent_encode_path_component("é"), "%C3%A9");
    assert_eq!(percent_encode_path_component("a b"), "a%20b");
    assert_eq!(hex_digit(10), 'A');
    assert_eq!(hex_digit(9), '9');
}

#[test]
fn site_relative_urls_drop_dot_components() {
    assert_eq!(site_relative_url("./a b/./c"), "a%20b/c");
    assert_eq!(site_relative_url("docs/index.html"), "docs/index.html");
}

#[test]
fn index_sources_live_under_the_asset_dir() {
    assert_eq!(documentation_index_source_rel(".mdbook/bookshelf"), ".mdbook/bookshelf/documentation-index");
}
