use mdbook_bookshelf::site_config::{
    normalize_summary_rel_path, parse_bookshelf_config_text, parse_key_value, parse_raw_config, parse_section,
    required, ConfigTextError, Section,
};

fn s(v: &str) -> String {
    v.to_string()
}

const SAMPLE: &str = "\
# site configuration
[book]
title = \"ignored\"

[bookshelf]
root_book = \"core\"

[[bookshelf.book]]
id = \"core\"
title = \"Sample Core\"
description = \"Repository-wide docs.\"
summary = \"docs/SUMMARY.md\"

[[bookshelf.book]]
id = \"parser\"
title = \"Parser\"
summary = \"modules/parser/docs/SUMMARY.md\"
extra = \"kept out\"
";

#[test]
fn parses_a_whole_configuration() {
    let config = parse_bookshelf_config_text(SAMPLE, "site/bookshelf.toml", "site").expect("valid configuration");
    assert_eq!(config.config_path, "site/bookshelf.toml");
    assert_eq!(config.config_dir, "site");
    assert_eq!(config.root_book, "core");
    assert_eq!(config.books.len(), 2);
    let core = &config.books[0];
    assert_eq!(core.id, "core");
    assert_eq!(core.title, "Sample Core");
    assert_eq!(core.description.as_deref(), Some("Repository-wide docs."));
    assert_eq!(core.summary_rel, "docs/SUMMARY.md");
    assert_eq!(core.summary_abs, "site/docs/SUMMARY.md");
    assert_eq!(core.book_root, "site");
    assert_eq!(core.book_src, "docs");
    let parser = &config.books[1];
    assert_eq!(parser.description, None);
    assert_eq!(parser.book_src, "modules/parser/docs");
}

#[test]
fn sections_and_key_values() {
    assert_eq!(parse_section("[bookshelf]"), Some(Section::Bookshelf));
    assert_eq!(parse_section("[[bookshelf.book]]"), Some(Section::BookshelfBook));
    assert_eq!(parse_section("[output.html]"), Some(Section::Other));
    assert_eq!(parse_section("id = \"x\""), None);
    assert_eq!(parse_key_value("id = \"a=b\"", 3), Ok((s("id"), s("a=b"))));
    assert_eq!(parse_key_value("id = \"\"", 3), Ok((s("id"), s(""))));
    assert_eq!(parse_key_value("novalue", 4), Err(ConfigTextError::ExpectedKeyValue { line: 4 }));
    assert_eq!(parse_key_value("id = x", 5), Err(ConfigTextError::UnquotedValue { line: 5, key: s("id") }));
    assert_eq!(parse_key_value("id = \"", 6), Err(ConfigTextError::UnquotedValue { line: 6, key: s("id") }));
}

#[test]
fn raw_configuration_collects_book_tables() {
    let raw = parse_raw_config(SAMPLE).unwrap();
    assert_eq!(raw.root_book.as_deref(), Some("core"));
    assert_eq!(raw.books.len(), 2);
    assert_eq!(raw.books[1].summary.as_deref(), Some("modules/parser/docs/SUMMARY.md"));
    assert_eq!(parse_raw_config("[bookshelf]\nroot_book = core\n"), Err(ConfigTextError::UnquotedValue {
        line: 2,
        key: s("root_book"),
    }));
}

#[test]
fn summary_paths_must_be_relative_named_and_inside_a_directory() {
    assert_eq!(normalize_summary_rel_path("b", "docs/SUMMARY.md"), Ok(s("docs/SUMMARY.md")));
    assert_eq!(
        normalize_summary_rel_path("b", "/docs/SUMMARY.md"),
        Err(ConfigTextError::SummaryNotRelative { book_id: s("b"), raw: s("/docs/SUMMARY.md") })
    );
    assert_eq!(
        normalize_summary_rel_path("b", "docs/summary.txt"),
        Err(ConfigTextError::SummaryNotNamedSummary { book_id: s("b"), raw: s("docs/summary.txt") })
    );
    assert_eq!(
        normalize_summary_rel_path("b", "../docs/SUMMARY.md"),
        Err(ConfigTextError::SummaryDotComponent { book_id: s("b"), raw: s("../docs/SUMMARY.md") })
    );
    assert_eq!(
        normalize_summary_rel_path("b", "./docs/SUMMARY.md"),
        Err(ConfigTextError::SummaryDotComponent { book_id: s("b"), raw: s("./docs/SUMMARY.md") })
    );
    assert_eq!(
        normalize_summary_rel_path("b", "SUMMARY.md"),
        Err(ConfigTextError::SummaryWithoutSourceDir { book_id: s("b"), raw: s("SUMMARY.md") })
    );
}

#[test]
fn configuration_errors() {
    assert_eq!(required(&None, "k"), Err(ConfigTextError::MissingKey { key: s("k") }));
    assert_eq!(required(&Some(s("v")), "k"), Ok(s("v")));
    assert_eq!(
        parse_bookshelf_config_text("[[bookshelf.book]]\nid = \"a\"\n", "p", "d"),
        Err(ConfigTextError::MissingRootBook)
    );
    assert_eq!(
        parse_bookshelf_config_text("[bookshelf]\nroot_book = \"a\"\n", "p", "d"),
        Err(ConfigTextError::EmptyCatalog)
    );
    assert_eq!(
        parse_bookshelf_config_text("[bookshelf]\nroot_book = \"a\"\n[[bookshelf.book]]\nid = \"a\"\n", "p", "d"),
        Err(ConfigTextError::MissingKey { key: s("bookshelf.book.title") })
    );
    let dup = "[bookshelf]\nroot_book = \"a\"\n[[bookshelf.book]]\nid = \"a\"\ntitle = \"A\"\nsummary = \"a/SUMMARY.md\"\n\
[[bookshelf.book]]\nid = \"a\"\ntitle = \"B\"\nsummary = \"b/SUMMARY.md\"\n";
    assert_eq!(parse_bookshelf_config_text(dup, "p", "d"), Err(ConfigTextError::DuplicateId { id: s("a") }));
    let undeclared = "[bookshelf]\nroot_book = \"z\"\n[[bookshelf.book]]\nid = \"a\"\ntitle = \"A\"\nsummary = \"a/SUMMARY.md\"\n";
    assert_eq!(
        parse_bookshelf_config_text(undeclared, "p", "d"),
        Err(ConfigTextError::RootBookNotDeclared { root_book: s("z") })
    );
}
