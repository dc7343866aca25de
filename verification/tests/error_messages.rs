use mdbook_bookshelf::catalog::CatalogError;
use mdbook_bookshelf::html_site::HtmlSiteError;
use mdbook_bookshelf::input_catalog::LoadInputCatalogError;
use mdbook_bookshelf::navigation::NavigationError;
use mdbook_bookshelf::search_model::SearchModelError;
use mdbook_bookshelf::site_model::SiteModelError;
use mdbook_bookshelf::page_render::{RenderBookshelfRootError, RenderSiteError};
use mdbook_bookshelf::reader_context::BuildReaderContextError;
use mdbook_bookshelf::render_manifest::BuildRenderManifestError;
use mdbook_bookshelf::search_index::SearchIndexError;
use mdbook_bookshelf::serve::ServeSiteError;

fn s(v: &str) -> String {
    v.to_string()
}

#[test]
fn input_catalog_errors_describe_themselves() {
    assert_eq!(
        LoadInputCatalogError::InvalidConfig { path: s("b.toml"), line: 12, message: s("bad") }.message(),
        "invalid config b.toml:12: bad"
    );
    assert_eq!(
        LoadInputCatalogError::AuthoredBookshelfEntry { book_id: s("core"), summary_path: s("docs/SUMMARY.md"), line: 3 }
            .message(),
        "canonical SUMMARY.md for `core` at docs/SUMMARY.md authors a forbidden `Bookshelf` entry on line 3"
    );
    assert_eq!(
        LoadInputCatalogError::RootBookNotConfigured { root_book_id: s("x") }.message(),
        "configured root_book `x` is not present in `[[bookshelf.book]]`"
    );
    assert_eq!(LoadInputCatalogError::MissingConfig { path: s("a") }.message(), "missing bookshelf config at a");
}

#[test]
fn render_errors_describe_themselves() {
    let root = RenderBookshelfRootError::MissingBookshelfManifestEntry { page_id: s("bookshelf:root") };
    assert_eq!(root.message(), "render manifest is missing synthetic Bookshelf page `bookshelf:root`");
    assert_eq!(RenderSiteError::BookshelfRoot(root).message(), "render manifest is missing synthetic Bookshelf page `bookshelf:root`");
    assert_eq!(
        RenderSiteError::MissingSidebar { book_id: s("core") }.message(),
        "sidebar model is missing sidebar data for book `core`"
    );
    assert_eq!(
        BuildRenderManifestError::OutputPathCollision { output_path: s("a.html"), first_page: s("p1"), second_page: s("p2") }
            .message(),
        "rendered output path a.html is claimed by both p1 and p2"
    );
    assert_eq!(
        BuildReaderContextError::MissingSidebarChapter { book_id: s("core"), source_path: s("a.md") }.message(),
        "sidebar model is missing chapter a.md for book `core` while building reader context"
    );
    assert_eq!(
        SearchIndexError::Io { path: s("out"), message: s("denied") }.message(),
        "failed to build or write search index from out: denied"
    );
    assert_eq!(
        ServeSiteError::Bind { bind_addr: s("127.0.0.1:3000"), message: s("in use") }.message(),
        "failed to bind HTTP server at 127.0.0.1:3000: in use"
    );
}

#[test]
fn site_model_errors_describe_themselves() {
    assert_eq!(
        SiteModelError::RootBookMismatch { catalog: s("core"), loaded: s("guide") }.message(),
        "site model root book mismatch: catalog='core' loaded='guide'"
    );
    assert_eq!(
        SiteModelError::BookCountMismatch { catalog: 2, loaded: 13 }.message(),
        "site model book count mismatch: catalog=2 loaded=13"
    );
    assert_eq!(
        SiteModelError::BookOrderMismatch { index: 0, catalog: s("a"), loaded: s("b") }.message(),
        "site model book order mismatch at index 0: catalog='a' loaded='b'"
    );
}

#[test]
fn navigation_errors_describe_themselves() {
    assert_eq!(
        NavigationError::MissingPage { page_id: s("core:0001"), book_id: s("core") }.message(),
        "navigation metadata missing site page 'core:0001' referenced by book 'core'"
    );
    assert_eq!(
        NavigationError::NotContentPage { page_id: s("bookshelf:root"), book_id: s("core") }.message(),
        "navigation metadata expected content page 'bookshelf:root' for book 'core'"
    );
    assert_eq!(
        NavigationError::OwnershipMismatch { page_id: s("p:0000"), page_owner: s("p"), book_id: s("core") }.message(),
        "navigation metadata ownership mismatch for page 'p:0000': page owns 'p'; book owns 'core'"
    );
}

#[test]
fn search_model_errors_describe_themselves() {
    assert_eq!(
        SearchModelError::MissingPage { page_id: s("x"), book_id: s("core") }.message(),
        "search model missing site page 'x' referenced by book 'core'"
    );
    assert_eq!(
        SearchModelError::NotContentPage { page_id: s("x"), book_id: s("core") }.message(),
        "search model expected content page 'x' for book 'core'"
    );
    assert_eq!(
        SearchModelError::MissingNavigation { page_id: s("x") }.message(),
        "search model missing navigation metadata for page 'x'"
    );
    assert_eq!(
        SearchModelError::MissingBreadcrumb { page_id: s("x") }.message(),
        "search model missing breadcrumb for content page 'x'"
    );
    assert_eq!(
        SearchModelError::MissingOwningBook { owning_book_id: s("gone"), page_id: s("x") }.message(),
        "search model missing owning book 'gone' for page 'x'"
    );
}

#[test]
fn catalog_errors_describe_themselves() {
    assert_eq!(
        CatalogError::InvalidSummaryPath { book_id: s("core"), summary_rel: s("SUMMARY.md") }.message(),
        "book 'core' has invalid configured summary path 'SUMMARY.md'"
    );
    assert_eq!(
        CatalogError::MissingSummary { book_id: s("core"), summary_rel: s("docs/SUMMARY.md"), summary_abs: s("/s/docs/SUMMARY.md") }
            .message(),
        "book 'core' missing configured canonical summary 'docs/SUMMARY.md' at /s/docs/SUMMARY.md"
    );
    assert_eq!(
        CatalogError::RootBookCount { root_book: s("core"), count: 0 }.message(),
        "input catalog must contain exactly one root book 'core', found 0"
    );
}

#[test]
fn html_site_errors_describe_themselves() {
    assert_eq!(
        HtmlSiteError::MissingNavigation { page_id: s("core:0000") }.message(),
        "missing navigation metadata for 'core:0000'"
    );
    assert_eq!(
        HtmlSiteError::MissingProjectedConfig { book_id: s("core") }.message(),
        "missing projected config for 'core'"
    );
    assert_eq!(HtmlSiteError::MissingRootProjectedConfig.message(), "missing projected config for root book");
}
