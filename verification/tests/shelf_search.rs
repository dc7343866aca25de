use mdbook_bookshelf::shelf::search::{translate_doc_url, unescape_js_single_quoted};

#[test]
fn translate_doc_url_targets_book_siblings() {
    assert_eq!(
        translate_doc_url("parser", "grammar.html#grammar"),
        "../parser/grammar.html#grammar"
    );
    assert_eq!(
        translate_doc_url("meta", "./architecture.html#architecture"),
        "../meta/architecture.html#architecture"
    );
}

#[test]
fn unescape_js_single_quoted_decodes_stock_wrapper_payloads() {
    let decoded =
        unescape_js_single_quoted(r#"{"title":"Don\'t","body":"line\nbreak","tab":"\t"}"#)
            .expect("payload should decode");

    assert_eq!(
        decoded,
        "{\"title\":\"Don't\",\"body\":\"line\nbreak\",\"tab\":\"\t\"}"
    );
}
