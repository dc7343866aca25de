use mdbook_bookshelf::search::{extract_inline_text, extract_search_body};
use mdbook_bookshelf::search_index::{SearchDocument, SearchIndex};

#[test]
fn extracts_search_body_text_from_markdown() {
    let markdown = "# Title\n\nText with [link](./page.md) and `code`.\n\n- Item\n";
    let body = extract_search_body(markdown);

    assert_eq!(body, "Title Text with link and code. Item");
}

#[test]
fn extracts_inline_text_from_links() {
    assert_eq!(
        extract_inline_text("Jump to [Example UI](/modules/ui/docs/index.md)."),
        "Jump to Example UI."
    );
}

fn document(title: &str, href: &str, book_label: &str, body: &str) -> SearchDocument {
    SearchDocument {
        title: title.to_string(),
        href: href.to_string(),
        book_label: book_label.to_string(),
        body: body.to_string(),
    }
}

#[test]
fn search_index_json_text_is_exact() {
    let index = SearchIndex { documents: vec![document("A \"q\"", "a.html", "Core", "x\\y\nz")] };
    assert_eq!(
        index.to_json_string(),
        "{\"docs\":[{\"title\":\"A \\\"q\\\"\",\"href\":\"a.html\",\"book_label\":\"Core\",\"body\":\"x\\\\y\\nz\"}]}"
    );
    assert_eq!(SearchIndex { documents: Vec::new() }.to_json_string(), "{\"docs\":[]}");
}

#[test]
fn search_index_json_reads_back_to_its_documents() {
    let index = SearchIndex {
        documents: vec![
            document("Intro \"one\"", "core/intro.html", "Core", "line\none\ttab\r\\"),
            document("Grammar", "parser/grammar.html", "Parser", "é ünïcode"),
        ],
    };
    let value: serde_json::Value = serde_json::from_str(&index.to_json_string()).expect("valid JSON");
    let top = value.as_object().unwrap();
    assert_eq!(top.len(), 1);
    let docs = top["docs"].as_array().unwrap();
    assert_eq!(docs.len(), 2);
    for (doc, expected) in docs.iter().zip(index.documents.iter()) {
        let object = doc.as_object().unwrap();
        assert_eq!(object.len(), 4);
        assert_eq!(object["title"].as_str(), Some(expected.title.as_str()));
        assert_eq!(object["href"].as_str(), Some(expected.href.as_str()));
        assert_eq!(object["book_label"].as_str(), Some(expected.book_label.as_str()));
        assert_eq!(object["body"].as_str(), Some(expected.body.as_str()));
    }
}
