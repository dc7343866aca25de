use mdbook_bookshelf::shelf::json::{
    json_clone, json_eq, merge_inverted_index_nodes, remap_inverted_index_doc_refs, JsonMember, JsonValue, NodeError,
};
use mdbook_bookshelf::shelf::payload::{
    compose_shared_search_index, compose_step, decode_search_index_source, ensure_payload_compatibility,
    ingest_book_payload, is_search_index_file_name, render_search_index_js, select_emitted_search_index,
    DocumentStore, PayloadError, PayloadPart, SavedIndex, SearchPayload, StoredDoc,
};
use mdbook_bookshelf::shelf::search::UnescapeError;

fn obj(members: Vec<(&str, JsonValue)>) -> JsonValue {
    JsonValue::Object(members.into_iter().map(|(k, v)| JsonMember { key: k.to_string(), value: v }).collect())
}

fn tf() -> JsonValue {
    obj(vec![("tf", JsonValue::Number("1.0".to_string()))])
}

fn get<'a>(v: &'a JsonValue, key: &str) -> Option<&'a JsonValue> {
    match v {
        JsonValue::Object(ms) => ms.iter().find(|m| m.key == key).map(|m| &m.value),
        _ => None,
    }
}

fn uint(v: Option<&JsonValue>) -> Option<u64> {
    match v {
        Some(JsonValue::UInt(n)) => Some(*n),
        _ => None,
    }
}

fn is_object(v: Option<&JsonValue>) -> bool {
    matches!(v, Some(JsonValue::Object(_)))
}

#[test]
fn merge_inverted_index_nodes_sums_df_and_unions_docs() {
    let target = obj(vec![
        ("df", JsonValue::UInt(1)),
        ("docs", obj(vec![("0", tf())])),
        ("a", obj(vec![("df", JsonValue::UInt(1)), ("docs", obj(vec![("0", tf())]))])),
    ]);
    let source = obj(vec![
        ("df", JsonValue::UInt(2)),
        ("docs", obj(vec![("1", tf()), ("2", tf())])),
        ("a", obj(vec![("df", JsonValue::UInt(1)), ("docs", obj(vec![("2", tf())]))])),
    ]);

    let target = merge_inverted_index_nodes(&target, &source).expect("nodes should merge");

    assert_eq!(uint(get(&target, "df")), Some(3));
    let docs = get(&target, "docs").unwrap();
    assert!(is_object(get(docs, "0")));
    assert!(is_object(get(docs, "1")));
    assert!(is_object(get(docs, "2")));
    let a = get(&target, "a").unwrap();
    assert_eq!(uint(get(a, "df")), Some(2));
    assert!(is_object(get(get(a, "docs").unwrap(), "0")));
    assert!(is_object(get(get(a, "docs").unwrap(), "2")));
}

#[test]
fn merge_copies_new_terms_and_refuses_bad_nodes() {
    let target = obj(vec![("df", JsonValue::UInt(1))]);
    let source = obj(vec![("b", obj(vec![("df", JsonValue::UInt(4))]))]);
    let merged = merge_inverted_index_nodes(&target, &source).unwrap();
    assert_eq!(uint(get(get(&merged, "b").unwrap(), "df")), Some(4));
    assert_eq!(uint(get(&merged, "df")), Some(1));

    assert_eq!(merge_inverted_index_nodes(&JsonValue::Null, &source), Err(NodeError::TargetNotObject));
    assert_eq!(merge_inverted_index_nodes(&target, &JsonValue::Bool(true)), Err(NodeError::SourceNotObject));
    let bad_df = obj(vec![("df", JsonValue::Number("1.5".to_string()))]);
    assert_eq!(merge_inverted_index_nodes(&target, &bad_df), Err(NodeError::DfNotUnsigned));
    let huge = obj(vec![("df", JsonValue::UInt(u64::MAX))]);
    assert_eq!(merge_inverted_index_nodes(&target, &huge), Err(NodeError::DfOverflow));
    let dup_target = obj(vec![("docs", obj(vec![("0", tf())]))]);
    let dup_source = obj(vec![("docs", obj(vec![("0", tf())]))]);
    assert_eq!(
        merge_inverted_index_nodes(&dup_target, &dup_source),
        Err(NodeError::DuplicateDocRef { doc_id: "0".to_string() })
    );
}

#[test]
fn remap_renumbers_docs_at_every_depth() {
    let node = obj(vec![
        ("df", JsonValue::UInt(2)),
        ("docs", obj(vec![("0", tf()), ("1", tf())])),
        ("x", obj(vec![("docs", obj(vec![("1", tf())]))])),
    ]);
    let id_map = vec![("0".to_string(), "5".to_string()), ("1".to_string(), "6".to_string())];
    let remapped = remap_inverted_index_doc_refs(&node, &id_map).unwrap();
    let docs = get(&remapped, "docs").unwrap();
    assert!(is_object(get(docs, "5")) && is_object(get(docs, "6")) && get(docs, "0").is_none());
    assert!(is_object(get(get(get(&remapped, "x").unwrap(), "docs").unwrap(), "6")));
    assert_eq!(uint(get(&remapped, "df")), Some(2));

    let unknown = obj(vec![("docs", obj(vec![("9", tf())]))]);
    assert_eq!(
        remap_inverted_index_doc_refs(&unknown, &id_map),
        Err(NodeError::UnknownDocRef { doc_id: "9".to_string() })
    );
    assert_eq!(remap_inverted_index_doc_refs(&JsonValue::UInt(1), &id_map), Err(NodeError::NodeNotObject));
    let bad_docs = obj(vec![("docs", JsonValue::Null)]);
    assert_eq!(remap_inverted_index_doc_refs(&bad_docs, &id_map), Err(NodeError::DocsNotObject));
}

#[test]
fn json_values_compare_and_copy() {
    let v = obj(vec![("a", JsonValue::Array(vec![JsonValue::Str("x".to_string()), JsonValue::Null]))]);
    assert!(json_eq(&v, &json_clone(&v)));
    assert!(!json_eq(&v, &obj(vec![("a", JsonValue::Array(vec![]))])));
    assert!(!json_eq(&JsonValue::UInt(1), &JsonValue::Number("1".to_string())));
}

fn book_payload(urls: &[&str], term_docs: &[&str]) -> SearchPayload {
    let docs = (0..urls.len())
        .map(|i| StoredDoc {
            id: i.to_string(),
            fields: vec![
                JsonMember { key: "id".to_string(), value: JsonValue::Str(i.to_string()) },
                JsonMember { key: "title".to_string(), value: JsonValue::Str(format!("T{i}")) },
            ],
        })
        .collect();
    let doc_info = (0..urls.len()).map(|i| JsonMember { key: i.to_string(), value: obj(vec![("title", JsonValue::UInt(1))]) }).collect();
    let term = obj(vec![
        ("df", JsonValue::UInt(term_docs.len() as u64)),
        ("docs", obj(term_docs.iter().map(|d| (*d, tf())).collect())),
    ]);
    SearchPayload {
        doc_urls: urls.iter().map(|u| u.to_string()).collect(),
        index: SavedIndex {
            document_store: DocumentStore { doc_info, docs, length: urls.len() as u64, save: true },
            fields: vec!["title".to_string(), "body".to_string()],
            index: vec![JsonMember { key: "title".to_string(), value: obj(vec![("root", term)]) }],
            lang: "English".to_string(),
            pipeline: vec!["trimmer".to_string()],
            ref_field: "id".to_string(),
            version: "0.9.5".to_string(),
        },
        results_options: obj(vec![("limit_results", JsonValue::UInt(30))]),
        search_options: obj(vec![("bool", JsonValue::Str("OR".to_string()))]),
    }
}

#[test]
fn composing_two_books_renumbers_documents_and_merges_terms() {
    let core = book_payload(&["index.html", "./guide.html#intro"], &["1"]);
    let parser = book_payload(&["grammar.html#grammar"], &["0"]);
    let shared =
        compose_shared_search_index(vec![("core".to_string(), core), ("parser".to_string(), parser)]).unwrap();

    assert_eq!(
        shared.doc_urls,
        vec!["../core/index.html", "../core/guide.html#intro", "../parser/grammar.html#grammar"]
    );
    let ids: Vec<_> = shared.index.document_store.docs.iter().map(|d| d.id.as_str()).collect();
    assert_eq!(ids, vec!["0", "1", "2"]);
    assert_eq!(shared.index.document_store.length, 3);
    let third = &shared.index.document_store.docs[2];
    assert!(matches!(&third.fields[0].value, JsonValue::Str(s) if s == "2"));
    let info_keys: Vec<_> = shared.index.document_store.doc_info.iter().map(|m| m.key.as_str()).collect();
    assert_eq!(info_keys, vec!["0", "1", "2"]);
    let root = get(&shared.index.index[0].value, "root").unwrap();
    assert_eq!(uint(get(root, "df")), Some(2));
    let docs = get(root, "docs").unwrap();
    assert!(is_object(get(docs, "1")) && is_object(get(docs, "2")));
    assert_eq!(shared.index.fields, vec!["title", "body"]);
}

#[test]
fn composition_refusals() {
    assert_eq!(compose_shared_search_index(Vec::new()).unwrap_err(), PayloadError::NoBooks);

    let first = compose_step(None, "core", book_payload(&["a.html"], &["0"])).unwrap();
    let mut other = book_payload(&["b.html"], &["0"]);
    other.index.lang = "French".to_string();
    assert_eq!(
        ensure_payload_compatibility(&first, &other, "parser"),
        Err(PayloadError::Incompatible { book_id: "parser".to_string(), part: PayloadPart::Lang })
    );
    assert_eq!(
        compose_step(Some(first), "parser", other).unwrap_err(),
        PayloadError::Incompatible { book_id: "parser".to_string(), part: PayloadPart::Lang }
    );

    let mut short = book_payload(&["a.html", "b.html"], &["0"]);
    short.index.document_store.docs.pop();
    let empty = SearchPayload::empty_from(&short);
    assert_eq!(
        ingest_book_payload(empty, "core", short).unwrap_err(),
        PayloadError::DocCountMismatch { book_id: "core".to_string(), doc_urls: 2, docs: 1 }
    );

    let mut renamed = book_payload(&["a.html"], &["0"]);
    renamed.index.document_store.docs[0].id = "7".to_string();
    let empty = SearchPayload::empty_from(&renamed);
    assert_eq!(
        ingest_book_payload(empty, "core", renamed).unwrap_err(),
        PayloadError::MissingDoc { book_id: "core".to_string(), doc_id: "0".to_string() }
    );

    let bad_ref = book_payload(&["a.html"], &["3"]);
    let empty = SearchPayload::empty_from(&bad_ref);
    assert_eq!(
        ingest_book_payload(empty, "core", bad_ref).unwrap_err(),
        PayloadError::Remap {
            book_id: "core".to_string(),
            field: "title".to_string(),
            cause: NodeError::UnknownDocRef { doc_id: "3".to_string() },
        }
    );
}

#[test]
fn wrapped_search_index_sources_are_decoded() {
    let source = "  window.search = Object.assign(window.search, JSON.parse('{\"a\":\"Don\\'t\"}'));\n";
    assert_eq!(decode_search_index_source(source), Ok("{\"a\":\"Don't\"}".to_string()));
    assert_eq!(decode_search_index_source("window.search = {};"), Err(PayloadError::NotStockWrapper));
    assert_eq!(
        decode_search_index_source("window.search = Object.assign(window.search, JSON.parse('\\'));"),
        Err(PayloadError::Unescape { cause: UnescapeError::UnterminatedEscape })
    );
    assert_eq!(
        decode_search_index_source("window.search = Object.assign(window.search, JSON.parse('\\u12'));"),
        Err(PayloadError::Unescape { cause: UnescapeError::UnterminatedHexEscape })
    );
    assert_eq!(
        render_search_index_js("{}"),
        "window.search = Object.assign(window.search, {});\n"
    );
}

#[test]
fn exactly_one_emitted_search_index_is_picked() {
    assert!(is_search_index_file_name("searchindex-abc123.js"));
    assert!(!is_search_index_file_name("searchindex.json"));
    assert!(!is_search_index_file_name("index.js"));
    let names = vec!["index.html".to_string(), "searchindex-1f.js".to_string(), "book.js".to_string()];
    assert_eq!(select_emitted_search_index(&names), Ok("searchindex-1f.js".to_string()));
    assert_eq!(select_emitted_search_index(&vec!["a.js".to_string()]), Err(PayloadError::SearchIndexCount { count: 0 }));
    let two = vec!["searchindex-a.js".to_string(), "searchindex-b.js".to_string()];
    assert_eq!(select_emitted_search_index(&two), Err(PayloadError::SearchIndexCount { count: 2 }));
}

#[test]
fn doc_info_refusals() {
    let mut short = book_payload(&["a.html", "b.html"], &["0"]);
    short.index.document_store.doc_info.pop();
    let empty = SearchPayload::empty_from(&short);
    assert_eq!(
        ingest_book_payload(empty, "core", short).unwrap_err(),
        PayloadError::DocInfoCountMismatch { book_id: "core".to_string(), doc_urls: 2, doc_info: 1 }
    );

    let mut renamed = book_payload(&["a.html"], &["0"]);
    renamed.index.document_store.doc_info[0].key = "7".to_string();
    let empty = SearchPayload::empty_from(&renamed);
    assert_eq!(
        ingest_book_payload(empty, "core", renamed).unwrap_err(),
        PayloadError::MissingDocInfo { book_id: "core".to_string(), doc_id: "0".to_string() }
    );
}

#[test]
fn merge_refusals_name_the_field() {
    let first = compose_step(None, "core", book_payload(&["a.html"], &["0"])).unwrap();
    let mut bad_df = book_payload(&["b.html"], &["0"]);
    bad_df.index.index[0].value = obj(vec![(
        "root",
        obj(vec![("df", JsonValue::Str("one".to_string())), ("docs", obj(vec![("0", tf())]))]),
    )]);
    assert_eq!(
        compose_step(Some(first), "parser", bad_df).unwrap_err(),
        PayloadError::Merge {
            book_id: "parser".to_string(),
            field: "title".to_string(),
            cause: NodeError::DfNotUnsigned,
        }
    );
}

#[test]
fn docs_tables_must_be_objects_when_merging() {
    let with_docs = obj(vec![("docs", obj(vec![("0", tf())]))]);
    let null_docs = obj(vec![("docs", JsonValue::Null)]);
    assert_eq!(merge_inverted_index_nodes(&null_docs, &with_docs), Err(NodeError::TargetDocsNotObject));
    assert_eq!(merge_inverted_index_nodes(&with_docs, &null_docs), Err(NodeError::SourceDocsNotObject));
}

#[test]
fn hex_escapes_must_be_digits_and_scalar_values() {
    assert_eq!(
        decode_search_index_source("window.search = Object.assign(window.search, JSON.parse('\\u12zz'));"),
        Err(PayloadError::Unescape { cause: UnescapeError::InvalidHexDigits })
    );
    assert_eq!(
        decode_search_index_source("window.search = Object.assign(window.search, JSON.parse('\\ud800'));"),
        Err(PayloadError::Unescape { cause: UnescapeError::InvalidScalarValue })
    );
    assert_eq!(
        decode_search_index_source("window.search = Object.assign(window.search, JSON.parse('\\u00e9\\x41'));"),
        Ok("\u{e9}A".to_string())
    );
}
