use mdbook_bookshelf::serve::{
    content_type, is_generated_bookshelf_asset_path, map_request_to_output_path, push_watch_root, request_action,
    resolve_config_dir_path, response_head, watch_root_candidates, RequestAction,
};

fn strings(items: &[&str]) -> Vec<String> {
    items.iter().map(|s| s.to_string()).collect()
}

/// The watch roots of a configuration: each candidate in order, without
/// the output tree and without repeats.
fn watch_roots(candidates: Vec<String>, output_dir: &str) -> Vec<String> {
    let mut roots = Vec::new();
    for c in &candidates {
        push_watch_root(&mut roots, c, output_dir);
    }
    roots
}

#[test]
fn requests_map_to_files_below_the_output_directory() {
    assert_eq!(map_request_to_output_path("/"), Some("index.html".to_string()));
    assert_eq!(map_request_to_output_path("/?x=1"), Some("index.html".to_string()));
    assert_eq!(map_request_to_output_path("/docs/index.html?q=a"), Some("docs/index.html".to_string()));
    assert_eq!(map_request_to_output_path("//docs/a.html"), Some("docs/a.html".to_string()));
    assert_eq!(map_request_to_output_path("/docs/"), None);
    assert_eq!(map_request_to_output_path("/docs/../secret"), None);
    assert_eq!(map_request_to_output_path("/docs//a.html"), None);
    assert_eq!(map_request_to_output_path("docs/a.html"), None);
}

#[test]
fn content_types_follow_the_extension() {
    assert_eq!(content_type("docs/index.html"), "text/html; charset=utf-8");
    assert_eq!(content_type("search.json"), "application/json; charset=utf-8");
    assert_eq!(content_type("app.js"), "application/octet-stream");
    assert_eq!(content_type("README"), "application/octet-stream");
}

#[test]
fn response_heads_name_status_length_and_type() {
    assert_eq!(
        response_head(200, "text/html; charset=utf-8", 12),
        "HTTP/1.1 200 OK\r\nContent-Length: 12\r\nContent-Type: text/html; charset=utf-8\r\nConnection: close\r\n\r\n"
    );
    assert!(response_head(404, "text/plain", 0).starts_with("HTTP/1.1 404 Not Found\r\n"));
    assert!(response_head(405, "text/plain", 0).starts_with("HTTP/1.1 405 Method Not Allowed\r\n"));
}

#[test]
fn requests_are_answered_by_method_and_target() {
    assert_eq!(
        request_action("GET /docs/a.html HTTP/1.1\r\nHost: x\r\n\r\n"),
        RequestAction::ServeFile { rel_path: "docs/a.html".to_string() }
    );
    assert_eq!(request_action("GET\r\n"), RequestAction::ServeFile { rel_path: "index.html".to_string() });
    assert_eq!(request_action("POST / HTTP/1.1\r\n"), RequestAction::MethodNotAllowed);
    assert_eq!(request_action("GET /a/../b HTTP/1.1\r\n"), RequestAction::NotFound);
}

#[test]
fn watch_roots_include_shared_config_stock_categories() {
    let candidates = watch_root_candidates(
        "/site/bookshelf.toml",
        "/site",
        &strings(&["/site/docs", "/site/modules/child/docs"]),
        &strings(&["/site", "/site/modules/child"]),
        Some("shared/theme"),
        &strings(&["shared/watch"]),
        &strings(&["assets/site.css", "scripts/site.js", "/elsewhere/absolute-script.js"]),
    );
    assert_eq!(
        watch_roots(candidates, "/site/book"),
        strings(&[
            "/site/bookshelf.toml",
            "/site/docs",
            "/site/modules/child/docs",
            "/site/shared/theme",
            "/site/shared/watch",
            "/site/assets/site.css",
            "/site/scripts/site.js",
            "/elsewhere/absolute-script.js",
        ])
    );
}

#[test]
fn watch_roots_include_default_book_theme_dirs_without_shared_theme() {
    let candidates = watch_root_candidates(
        "/site/bookshelf.toml",
        "/site",
        &strings(&["/site/docs", "/site/modules/child/docs"]),
        &strings(&["/site", "/site/modules/child"]),
        None,
        &Vec::new(),
        &Vec::new(),
    );
    assert_eq!(
        watch_roots(candidates, "/site/book"),
        strings(&[
            "/site/bookshelf.toml",
            "/site/docs",
            "/site/modules/child/docs",
            "/site/theme",
            "/site/modules/child/theme",
        ])
    );
}

#[test]
fn watch_roots_exclude_output_and_repeats() {
    let mut roots = Vec::new();
    push_watch_root(&mut roots, "/site/docs", "/site/book");
    push_watch_root(&mut roots, "/site/docs", "/site/book");
    push_watch_root(&mut roots, "/site/book", "/site/book");
    push_watch_root(&mut roots, "/site/book/generated.html", "/site/book");
    push_watch_root(&mut roots, "/site/bookshelf.toml", "/site/book");
    assert_eq!(roots, strings(&["/site/docs", "/site/bookshelf.toml"]));
    assert!(is_generated_bookshelf_asset_path("/site/.mdbook-bookshelf/build-test/shared/generated.css"));
    assert!(!is_generated_bookshelf_asset_path("/site/shared/changed.txt"));
    assert_eq!(resolve_config_dir_path("/site", "/abs/x"), "/abs/x");
    assert_eq!(resolve_config_dir_path("/site", "rel/x"), "/site/rel/x");
}
