use mdbook_bookshelf::render_manifest::rendered_output_path;

#[test]
fn replaces_markdown_extensions_with_html_outputs() {
    assert_eq!(rendered_output_path("docs/index.md"), "docs/index.html");
    assert_eq!(
        rendered_output_path("modules/parser/docs/grammar.markdown"),
        "modules/parser/docs/grammar.html"
    );
}
