use mdbook_bookshelf::render_html::{render_content_page, ContentPageRenderInput, SidebarItem};

fn input(page_id: &str) -> ContentPageRenderInput {
    ContentPageRenderInput {
        html_lang: "en".to_string(),
        default_theme: "light".to_string(),
        page_title: "Intro & <More>".to_string(),
        page_id: page_id.to_string(),
        owning_book_id: "core".to_string(),
        breadcrumb: "Core / Intro".to_string(),
        bookshelf_href: "../index.html".to_string(),
        sidebar_items: vec![
            SidebarItem { page_id: "core:0000".to_string(), href: "p0000.html".to_string(), title: "Intro".to_string(), is_active: true },
            SidebarItem { page_id: "core:0001".to_string(), href: "p0001.html".to_string(), title: "Next".to_string(), is_active: false },
        ],
        prev_href: None,
        next_href: Some("p0001.html".to_string()),
    }
}

#[test]
fn content_pages_do_not_depend_on_the_page_id() {
    assert_eq!(render_content_page(&input("core:0000")), render_content_page(&input("other")));
}

#[test]
fn content_page_marks_the_active_item_and_escapes_text() {
    let page = render_content_page(&input("core:0000"));
    assert_eq!(page.matches(" data-active=\"true\"").count(), 1);
    assert!(page.contains("<title>Intro &amp; &lt;More&gt;</title>"));
    assert!(page.contains("<li data-page-id=\"core:0000\" data-active=\"true\"><a href=\"p0000.html\">Intro</a></li>"));
    assert!(page.contains("<span class=\"prev missing\"></span> <a class=\"next\" href=\"p0001.html\">Next</a>"));
}

#[test]
fn content_page_holds_one_marker_per_active_item() {
    let mut many = input("core:0000");
    many.sidebar_items[1].is_active = true;
    many.page_title = " data-active=\"true\"".to_string();
    many.default_theme = "true".to_string();
    many.html_lang = " data-active=".to_string();
    assert_eq!(render_content_page(&many).matches(" data-active=\"true\"").count(), 2);
    let mut none = input("core:0000");
    none.sidebar_items[0].is_active = false;
    assert_eq!(render_content_page(&none).matches(" data-active=\"true\"").count(), 0);
}
