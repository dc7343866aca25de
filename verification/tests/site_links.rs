use mdbook_bookshelf::shelf::site_links::{
    index_preprocessed_path, is_markdown_page_path, is_readme_path, is_site_root_destination,
    normalize_site_root_destination_path, normalize_url_path_components, split_destination_suffix, SiteLinkError,
    SiteRootLinkMap, SiteRootLinkPreprocessor,
};

fn sample_preprocessor(book_output_rel: &str) -> SiteRootLinkPreprocessor {
    let pairs: Vec<(String, String)> = [
        ("docs/index.md", "docs/index.html"),
        ("docs/architecture.md", "docs/architecture.html"),
        ("docs/deep/topic.md", "docs/deep/topic.html"),
        ("modules/parser/docs/index.md", "modules/parser/docs/index.html"),
        ("modules/ui/docs/index.md", "modules/ui/docs/index.html"),
    ]
    .iter()
    .map(|(s, o)| (s.to_string(), o.to_string()))
    .collect();
    SiteRootLinkPreprocessor::new(book_output_rel, SiteRootLinkMap::from_page_pairs(&pairs))
}

/// Rewrites a chapter of the sample site named `Sample`.
fn rewrite_sample_chapter(chapter_path: &str, book_output_rel: &str, content: &str) -> Result<String, SiteLinkError> {
    let preprocessor = sample_preprocessor(book_output_rel);
    Ok(preprocessor
        .rewrite_chapter_links(content, Some(chapter_path), "Sample")?
        .expect("rewritten events should serialize"))
}

#[test]
fn rewrites_site_root_links_and_images_relative_to_current_page() {
    let rewritten = rewrite_sample_chapter(
        "onboarding.md",
        "docs",
        r#"# Onboarding

[Root](/)
[Core](/docs/index.md)
[Same book](/docs/architecture.md)
[Nested](/docs/deep/topic.md)
[Cross book](/modules/parser/docs/index.md?mode=fast#grammar)
![Diagram](/assets/diagram.svg#icon)
"#,
    )
    .expect("chapter should rewrite");

    assert!(rewritten.contains("[Root](../index.html)"));
    assert!(rewritten.contains("[Core](index.html)"));
    assert!(rewritten.contains("[Same book](architecture.html)"));
    assert!(rewritten.contains("[Nested](deep/topic.html)"));
    assert!(rewritten.contains("[Cross book](../modules/parser/docs/index.html?mode=fast#grammar)"));
    assert!(rewritten.contains("![Diagram](../assets/diagram.svg#icon)"));
}

#[test]
fn rewrites_nested_cross_book_page_links() {
    let rewritten = rewrite_sample_chapter("runtime.md", "modules/parser/docs", "[Sample UI](/modules/ui/docs/index.md)\n")
        .expect("chapter should rewrite");

    assert!(rewritten.contains("[Sample UI](../../ui/docs/index.html)"));
}

#[test]
fn preserves_query_and_fragment_for_root_and_page_links() {
    let rewritten = rewrite_sample_chapter(
        "runtime.md",
        "modules/parser/docs",
        "[Root](/?print=true#top)\n[Core](/docs/index.md?from=parser#intro)\n",
    )
    .expect("chapter should rewrite");

    assert!(rewritten.contains("[Root](../../../index.html?print=true#top)"));
    assert!(rewritten.contains("[Core](../../../docs/index.html?from=parser#intro)"));
}

#[test]
fn leaves_external_protocol_fragment_and_local_links_unchanged() {
    let rewritten = rewrite_sample_chapter(
        "index.md",
        "docs",
        r#"[External](https://example.com/docs/index.md)
[Mail](mailto:team@example.com)
[Protocol](//cdn.example.com/app.js)
[Fragment](#section)
[Local](./onboarding.md)
[Parent](../README.md)
"#,
    )
    .expect("chapter should rewrite");

    assert!(rewritten.contains("[External](https://example.com/docs/index.md)"));
    assert!(rewritten.contains("[Mail](mailto:team@example.com)"));
    assert!(rewritten.contains("[Protocol](//cdn.example.com/app.js)"));
    assert!(rewritten.contains("[Fragment](#section)"));
    assert!(rewritten.contains("[Local](./onboarding.md)"));
    assert!(rewritten.contains("[Parent](../README.md)"));
}

#[test]
fn rejects_unresolved_site_root_markdown_page_links() {
    let error = rewrite_sample_chapter("index.md", "docs", "[Missing](/missing.md)\n")
        .expect_err("unresolved .md page link should fail");
    let message = error.message();

    assert!(message.contains("chapter 'Sample'"));
    assert!(message.contains("unresolved site-root Markdown page link '/missing.md'"));
}

#[test]
fn rejects_site_root_paths_that_escape_the_site_root() {
    let error = rewrite_sample_chapter("index.md", "docs", "[Bad](/../secret.md)\n").expect_err("escaping path should fail");
    let message = error.message();

    assert!(message.contains("chapter 'Sample'"));
    assert!(message.contains("escapes site root"));
}

#[test]
fn each_destination_is_rewritten_on_its_own() {
    let preprocessor = sample_preprocessor("docs");
    let dir = preprocessor.chapter_output_dir("onboarding.md");
    assert_eq!(dir, "docs");
    assert_eq!(preprocessor.rewrite_destination("/docs/deep/topic.md", &dir, "Sample").unwrap(), "deep/topic.html");
    assert_eq!(preprocessor.rewrite_destination("#section", &dir, "Sample").unwrap(), "#section");
    assert_eq!(
        preprocessor.rewrite_destination("/../secret.md", &dir, "Sample"),
        Err(SiteLinkError::InvalidLink {
            chapter: "Sample".to_string(),
            destination: "/../secret.md".to_string(),
            path: "../secret.md".to_string(),
        })
    );
    assert_eq!(
        normalize_url_path_components("../secret.md"),
        Err(SiteLinkError::EscapesSiteRoot { path: "../secret.md".to_string() })
    );
    assert_eq!(
        SiteLinkError::BookOrderMismatch { index: 2, catalog: "a".to_string(), loaded: "b".to_string() }.message(),
        "site-root Markdown link map book order mismatch at index 2: catalog='a' loaded='b'"
    );
}

#[test]
fn chapters_without_a_path_are_left_alone() {
    let preprocessor = sample_preprocessor("docs");
    assert_eq!(
        preprocessor.rewrite_chapter_links("[Root](/)\n", None, "Draft"),
        Ok(Some("[Root](/)\n".to_string()))
    );
}

#[test]
fn readme_sources_are_available_as_index_markdown_targets() {
    let mut map = SiteRootLinkMap::new();

    map.insert_chapter("docs", Some("README.md"), None).expect("README chapter should be inserted");

    assert_eq!(map.page_output_path("docs/README.md"), Some(&"docs/index.html".to_string()));
    assert_eq!(map.page_output_path("docs/index.md"), Some(&"docs/index.html".to_string()));
}

#[test]
fn conflicting_outputs_for_one_source_are_refused() {
    let mut map = SiteRootLinkMap::new();
    map.insert_page("docs/a.md".to_string(), "docs/a.html".to_string()).unwrap();
    map.insert_page("docs/./a.md".to_string(), "docs/a.html".to_string()).unwrap();
    assert_eq!(
        map.insert_page("docs/a.md".to_string(), "docs/b.html".to_string()),
        Err(SiteLinkError::ConflictingPage {
            source: "docs/a.md".to_string(),
            existing: "docs/a.html".to_string(),
            output: "docs/b.html".to_string(),
        })
    );
    assert_eq!(map.page_output_path("docs/a.md"), Some(&"docs/a.html".to_string()));
}

#[test]
fn insert_then_lookup_gives_the_output() {
    let mut map = SiteRootLinkMap::new();
    assert_eq!(map.page_output_path("guide/intro.md"), None);
    map.insert_page("guide/intro.md".to_string(), "guide/intro.html".to_string()).unwrap();
    assert_eq!(map.page_output_path("guide/intro.md"), Some(&"guide/intro.html".to_string()));
}

#[test]
fn destination_helpers_classify_and_split() {
    assert!(is_site_root_destination("/docs"));
    assert!(!is_site_root_destination("//cdn"));
    assert!(!is_site_root_destination("docs"));
    assert_eq!(split_destination_suffix("/a/b.md?x=1#y"), ("/a/b.md".to_string(), "?x=1#y".to_string()));
    assert_eq!(split_destination_suffix("/a"), ("/a".to_string(), String::new()));
    assert_eq!(normalize_site_root_destination_path("/a/./b//c/../d"), Ok("a/b/d".to_string()));
    assert_eq!(
        normalize_site_root_destination_path("a"),
        Err(SiteLinkError::NotRooted { path: "a".to_string() })
    );
    assert!(is_markdown_page_path("docs/Intro.MD"));
    assert!(!is_markdown_page_path("docs/intro.html"));
    assert!(is_readme_path("docs/ReadMe.md"));
    assert_eq!(index_preprocessed_path("docs/README.md"), "docs/index.md");
    assert_eq!(index_preprocessed_path("docs/other.md"), "docs/other.md");
}
