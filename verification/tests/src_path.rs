use mdbook_bookshelf::loader::{normalize_src_path, SrcPathError};

#[test]
fn relative_sources_are_kept() {
    assert_eq!(normalize_src_path("/work/site", "docs"), Ok("docs".to_string()));
    assert_eq!(normalize_src_path("/work/site", "modules/parser/docs"), Ok("modules/parser/docs".to_string()));
}

#[test]
fn absolute_sources_are_taken_relative_to_the_root() {
    assert_eq!(normalize_src_path("/work/site", "/work/site/docs"), Ok("docs".to_string()));
    assert_eq!(normalize_src_path("/work/site/", "/work/site//guide/./src"), Ok("guide/src".to_string()));
    assert_eq!(normalize_src_path("/work/site", "/work/site"), Ok(String::new()));
}

#[test]
fn sources_outside_the_root_or_empty_are_refused() {
    let outside = normalize_src_path("/work/site", "/work/other/docs").unwrap_err();
    assert_eq!(
        outside,
        SrcPathError::NotUnderRoot { book_src: "/work/other/docs".to_string(), book_root: "/work/site".to_string() }
    );
    assert_eq!(outside.message(), "book src path /work/other/docs must be under root /work/site");
    assert_eq!(normalize_src_path("/work/site", "/work/sitemap/docs").unwrap_err().message(),
        "book src path /work/sitemap/docs must be under root /work/site");
    assert_eq!(normalize_src_path("/work/site", ""), Err(SrcPathError::Empty));
    assert_eq!(SrcPathError::Empty.message(), "book src path cannot be empty");
}
