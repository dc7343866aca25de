use mdbook_bookshelf::return_link::{
    bookshelf_return_css_path, bookshelf_return_js_path, bookshelf_return_target_from_book_root,
    render_bookshelf_return_js,
};
use mdbook_bookshelf::shelf::ui::{
    append_output_asset, render_bookshelf_search_js, BookshelfAssets,
    BookshelfPageMetadataPreprocessor,
};

#[test]
fn root_book_return_target_points_to_local_bookshelf_page() {
    assert_eq!(
        bookshelf_return_target_from_book_root("meta", "meta"),
        "bookshelf.html"
    );
}

#[test]
fn non_root_book_return_target_points_back_to_root_bookshelf_page() {
    assert_eq!(
        bookshelf_return_target_from_book_root("parser", "meta"),
        "../meta/bookshelf.html"
    );
}

#[test]
fn return_script_embeds_target_and_asset_paths_are_fixed() {
    let js = render_bookshelf_return_js("parser", "meta");
    assert!(js.contains("const bookshelfTarget = \"../meta/bookshelf.html\";"));
    assert_eq!(
        bookshelf_return_css_path(),
        ".mdbook-bookshelf/shared/bookshelf-return.css"
    );
    assert_eq!(
        bookshelf_return_js_path("parser"),
        ".mdbook-bookshelf/books/parser/bookshelf-return.js"
    );
}

#[test]
fn render_bookshelf_search_js_uses_page_metadata() {
    let script = render_bookshelf_search_js();

    assert!(script.contains("searchIndexTarget"));
    assert!(script.contains("window.path_to_searchindex_js = metadata.searchIndexTarget;"));
}

#[test]
fn runtime_assets_live_under_the_asset_dir() {
    let assets = BookshelfAssets::new("/tmp/root", ".generated/bookshelf");
    let files = assets.runtime_assets();
    assert_eq!(files.len(), 5);
    assert_eq!(files[0].rel_path, ".generated/bookshelf/.gitignore");
    assert_eq!(files[0].contents, "*\n");
    assert_eq!(files[2].abs_path, "/tmp/root/.generated/bookshelf/bookshelf-return.css");
    let outputs = assets.output_assets();
    assert_eq!(outputs[0].key, "output.html.additional-css");
    assert_eq!(outputs[2].rel_path, ".generated/bookshelf/bookshelf-search.js");
}

#[test]
fn output_assets_are_added_once() {
    let mut assets = vec!["shared/site.css".to_owned()];
    append_output_asset(&mut assets, ".generated/bookshelf/bookshelf-return.css");
    append_output_asset(&mut assets, ".generated/bookshelf/./bookshelf-return.css");
    assert_eq!(
        assets,
        vec![
            "shared/site.css".to_owned(),
            ".generated/bookshelf/bookshelf-return.css".to_owned()
        ]
    );
}

#[test]
fn page_metadata_preprocessor_uses_page_relative_targets() {
    let preprocessor = BookshelfPageMetadataPreprocessor::new(
        "modules/parser/docs",
        "index.html",
        "modules/parser/docs/bookshelf-searchindex.js",
    );
    let mut content = "# Modal Groups".to_string();
    preprocessor
        .inject_chapter_metadata(&mut content, Some("reference/modal-groups.md"))
        .expect("metadata should inject");
    assert!(content.contains("mdbook-bookshelf-page-metadata"));
    assert!(content.contains("\"bookshelfTarget\":\"../../../../index.html\""));
    assert!(content.contains("\"searchIndexTarget\":\"../bookshelf-searchindex.js\""));
    let again = content.clone();
    preprocessor
        .inject_chapter_metadata(&mut content, Some("reference/modal-groups.md"))
        .unwrap();
    assert_eq!(content, again);
}

#[test]
fn page_metadata_preprocessor_includes_return_target_on_authored_bookshelf_page() {
    let preprocessor = BookshelfPageMetadataPreprocessor::new(
        "docs",
        "index.html",
        "docs/bookshelf-searchindex.js",
    );
    let mut content = "# Bookshelf".to_string();
    preprocessor
        .inject_chapter_metadata(&mut content, Some("bookshelf.md"))
        .expect("metadata should inject");
    assert!(content.contains("\"bookshelfTarget\":\"../index.html\""));
    assert!(content.contains("\"searchIndexTarget\":\"bookshelf-searchindex.js\""));
}
