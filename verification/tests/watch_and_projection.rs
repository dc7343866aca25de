use mdbook_bookshelf::catalog::{InputBook, InputCatalog};
use mdbook_bookshelf::config_projection::{project_book_configs, SharedBookSettings};
use mdbook_bookshelf::shelf::doc_index::{adapted_input_404, input_404_candidates};
use mdbook_bookshelf::watch::{changed_paths, is_watched_path, FileStamp};

fn stamp(secs: u64, len: u64) -> FileStamp {
    FileStamp { is_dir: false, is_file: true, is_symlink: false, modified_secs: secs, modified_nanos: 0, len }
}

fn entry(path: &str, s: FileStamp) -> (String, FileStamp) {
    (path.to_string(), s)
}

#[test]
fn unchanged_scans_report_nothing() {
    let scan = vec![entry("/site/docs/a.md", stamp(1, 10)), entry("/site/docs/b.md", stamp(2, 20))];
    assert!(changed_paths(&scan, &scan).is_empty());
}

#[test]
fn changed_added_and_removed_files_are_reported() {
    let old = vec![entry("/a", stamp(1, 10)), entry("/b", stamp(2, 20)), entry("/gone", stamp(3, 30))];
    let new = vec![entry("/a", stamp(1, 10)), entry("/b", stamp(5, 20)), entry("/new", stamp(4, 1))];
    assert_eq!(changed_paths(&old, &new), vec!["/b".to_string(), "/new".to_string(), "/gone".to_string()]);
}

#[test]
fn watch_roots_exclude_output_and_generated_bookshelf_asset_trees() {
    assert!(is_watched_path("/site/shared/changed.txt", "/site/book"));
    assert!(!is_watched_path("/site/.mdbook-bookshelf/build-test/shared/generated.css", "/site/book"));
    assert!(!is_watched_path("/site/book/generated.html", "/site/book"));
    assert!(!is_watched_path("/site/book", "/site/book"));
}

fn input_book(id: &str, root: &str, src: &str) -> InputBook {
    InputBook {
        id: id.to_string(),
        title: format!("{id} title"),
        description: None,
        book_root_rel: String::new(),
        book_root_abs: root.to_string(),
        book_src_rel: "fallback".to_string(),
        book_src_abs: src.to_string(),
        summary_abs: format!("{src}/SUMMARY.md"),
        is_root_book: id == "core",
    }
}

#[test]
fn projected_configs_share_site_settings() {
    let catalog = InputCatalog {
        config_path: "/site/bookshelf.toml".to_string(),
        config_dir: "/site".to_string(),
        root_book_id: "core".to_string(),
        books: vec![input_book("core", "/site", "/site/docs"), input_book("ext", "/other", "/site/ext/docs")],
    };
    let shared = SharedBookSettings {
        language: Some("de".to_string()),
        authors: Some(vec!["Ada".to_string()]),
        default_theme: Some("rust".to_string()),
    };
    let projected = project_book_configs(&catalog, &shared);
    assert_eq!(projected.len(), 2);
    assert_eq!(projected[0].src, "docs");
    assert_eq!(projected[1].src, "fallback");
    assert_eq!(projected[1].title, "ext title");
    assert_eq!(projected[0].authors, vec!["Ada".to_string()]);
    let p = projected[0].presentation();
    assert_eq!(p.language.as_deref(), Some("de"));
    assert_eq!(p.default_theme.as_deref(), Some("rust"));
}

#[test]
fn generated_index_disables_missing_relative_custom_404() {
    let c = input_404_candidates(Some("missing.md"), "/cfg", ".mdbook/bookshelf/documentation-index").unwrap();
    assert_eq!(c.generated_source, "/cfg/.mdbook/bookshelf/documentation-index/missing.md");
    assert_eq!(c.config_root, "/cfg/missing.md");
    assert_eq!(adapted_input_404(&c, false, false), Some(String::new()));
}

#[test]
fn generated_index_can_use_config_root_custom_404() {
    let c = input_404_candidates(Some("missing.md"), "/cfg", ".mdbook/bookshelf/documentation-index").unwrap();
    assert_eq!(adapted_input_404(&c, false, true), Some("/cfg/missing.md".to_string()));
    assert_eq!(adapted_input_404(&c, true, true), None);
    assert_eq!(input_404_candidates(Some(""), "/cfg", "x"), None);
    assert_eq!(input_404_candidates(None, "/cfg", "x"), None);
    let abs = input_404_candidates(Some("/abs/404.md"), "/cfg", "x").unwrap();
    assert_eq!(abs.generated_source, "/abs/404.md");
    assert_eq!(abs.config_root, "/abs/404.md");
}
