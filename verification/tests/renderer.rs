use mdbook_bookshelf::renderer::{relative_href, render_markdown};

#[test]
fn computes_relative_hrefs_between_outputs() {
    assert_eq!(
        relative_href("modules/parser/docs/grammar.html", "index.html"),
        "../../../index.html"
    );
    assert_eq!(
        relative_href("docs/onboarding.html", "index.html"),
        "../index.html"
    );
    assert_eq!(
        relative_href(
            "modules/parser/docs/grammar.html",
            "modules/parser/docs/runtime.html"
        ),
        "runtime.html"
    );
}

#[test]
fn renders_basic_markdown_blocks_and_inline_markup() {
    let markdown = "# Title\n\nParagraph with [link](./next.md) and `code`.\n\n- One\n- Two\n";
    let html = render_markdown(markdown);

    assert!(html.contains("<h1>Title</h1>"));
    assert!(html.contains(
        "<p>Paragraph with <a href=\"./next.md\">link</a> and <code>code</code>.</p>"
    ));
    assert!(html.contains("<ul><li>One</li><li>Two</li></ul>"));
}
