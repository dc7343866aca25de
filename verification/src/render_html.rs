//! The plain HTML pages of the minimal site renderer: the root bookshelf
//! list and content pages with sidebar and pager.
use vstd::prelude::*;
use crate::escape::{escape_html, html_escaped, lemma_html_escape_has_no_markup};

verus! {

/// A book link on the root page.
#[derive(Debug, Clone, PartialEq, Eq)]
pub struct RootBookLink {
    pub book_id: String,
    pub href: String,
    pub title: String,
}

/// One entry of a content page's sidebar.
#[derive(Debug, Clone, PartialEq, Eq)]
pub struct SidebarItem {
    pub page_id: String,
    pub href: String,
    pub title: String,
    pub is_active: bool,
}

/// Everything a content page shows.
#[derive(Debug, Clone, PartialEq, Eq)]
pub struct ContentPageRenderInput {
    pub html_lang: String,
    pub default_theme: String,
    pub page_title: String,
    pub page_id: String,
    pub owning_book_id: String,
    pub breadcrumb: String,
    pub bookshelf_href: String,
    pub sidebar_items: Vec<SidebarItem>,
    pub prev_href: Option<String>,
    pub next_href: Option<String>,
}

/// The `<li>` elements of the root page's book list.
pub open spec fn root_book_items(books: Seq<RootBookLink>) -> Seq<char>
    decreases books.len(),
{
    if books.len() == 0 {
        Seq::empty()
    } else {
        let b = books.last();
        root_book_items(books.drop_last()) + "<li data-book-id=\""@ + html_escaped(b.book_id@)
            + "\"><a href=\""@ + html_escaped(b.href@) + "\">"@ + html_escaped(b.title@)
            + "</a></li>"@
    }
}

/// The root page: a Bookshelf heading over the list of books.
pub open spec fn root_page_html(html_lang: Seq<char>, default_theme: Seq<char>, books: Seq<RootBookLink>) -> Seq<char> {
    "<!doctype html><html lang=\""@ + html_escaped(html_lang)
        + "\"><head><meta charset=\"utf-8\"><title>Bookshelf</title></head><body data-mdbook-default-theme=\""@
        + html_escaped(default_theme) + "\"><h1>Bookshelf</h1><ul>"@ + root_book_items(books)
        + "</ul></body></html>"@
}

/// Renders the root page that lists every book.
pub fn render_root_page(html_lang: &str, default_theme: &str, books: &[RootBookLink]) -> (page: String)
    ensures
        page@ == root_page_html(html_lang@, default_theme@, books@),
{
    let mut book_list_items = String::new();
    let mut i: usize = 0;
    while i < books.len()
        invariant
            i <= books.len(),
            book_list_items@ == root_book_items(books@.take(i as int)),
        decreases books.len() - i,
    {
        assert(books@.take(i + 1).drop_last() =~= books@.take(i as int));
        let book = &books[i];
        book_list_items.append("<li data-book-id=\"");
        book_list_items.append(escape_html(book.book_id.as_str()).as_str());
        book_list_items.append("\"><a href=\"");
        book_list_items.append(escape_html(book.href.as_str()).as_str());
        book_list_items.append("\">");
        book_list_items.append(escape_html(book.title.as_str()).as_str());
        book_list_items.append("</a></li>");
        i += 1;
    }
    assert(books@.take(books.len() as int) =~= books@);
    let mut page = String::new();
    page.append("<!doctype html><html lang=\"");
    page.append(escape_html(html_lang).as_str());
    page.append(
        "\"><head><meta charset=\"utf-8\"><title>Bookshelf</title></head><body data-mdbook-default-theme=\"",
    );
    page.append(escape_html(default_theme).as_str());
    page.append("\"><h1>Bookshelf</h1><ul>");
    page.append(book_list_items.as_str());
    page.append("</ul></body></html>");
    page
}

/// The `<li>` elements of a content page's sidebar.
pub open spec fn sidebar_items_html(items: Seq<SidebarItem>) -> Seq<char>
    decreases items.len(),
{
    if items.len() == 0 {
        Seq::empty()
    } else {
        let it = items.last();
        sidebar_items_html(items.drop_last()) + "<li data-page-id=\""@ + html_escaped(it.page_id@)
            + "\""@ + (if it.is_active {
            " data-active=\"true\""@
        } else {
            ""@
        }) + "><a href=\""@ + html_escaped(it.href@) + "\">"@ + html_escaped(it.title@)
            + "</a></li>"@
    }
}

/// A pager link, or its placeholder when there is no such page.
pub open spec fn pager_html(href: Option<String>, is_next: bool) -> Seq<char> {
    match href {
        Some(h) => (if is_next {
            "<a class=\"next\" href=\""@
        } else {
            "<a class=\"prev\" href=\""@
        }) + html_escaped(h@) + (if is_next {
            "\">Next</a>"@
        } else {
            "\">Prev</a>"@
        }),
        None => if is_next {
            "<span class=\"next missing\"></span>"@
        } else {
            "<span class=\"prev missing\"></span>"@
        },
    }
}

/// A content page: return link, sidebar, title, breadcrumb and pager.
pub open spec fn content_page_html(input: ContentPageRenderInput) -> Seq<char> {
    "<!doctype html><html lang=\""@ + html_escaped(input.html_lang@)
        + "\"><head><meta charset=\"utf-8\"><title>"@ + html_escaped(input.page_title@)
        + "</title></head><body data-mdbook-default-theme=\""@ + html_escaped(input.default_theme@)
        + "\"><a class=\"bookshelf-return\" href=\""@ + html_escaped(input.bookshelf_href@)
        + "\">Bookshelf</a><aside class=\"sidebar\" data-active-book=\""@ + html_escaped(
        input.owning_book_id@,
    ) + "\"><ul>"@ + sidebar_items_html(input.sidebar_items@) + "</ul></aside><main><h1>"@
        + html_escaped(input.page_title@) + "</h1><div class=\"breadcrumb\">"@ + html_escaped(
        input.breadcrumb@,
    ) + "</div><nav class=\"pager\">"@ + pager_html(input.prev_href, false) + " "@ + pager_html(
        input.next_href,
        true,
    ) + "</nav></main></body></html>"@
}

/// Law: a content page does not depend on its page id: two inputs that
/// differ only in `page_id` render the same page.
pub proof fn lemma_content_page_ignores_page_id(a: ContentPageRenderInput, b: ContentPageRenderInput)
    requires
        a.html_lang == b.html_lang,
        a.default_theme == b.default_theme,
        a.page_title == b.page_title,
        a.owning_book_id == b.owning_book_id,
        a.breadcrumb == b.breadcrumb,
        a.bookshelf_href == b.bookshelf_href,
        a.sidebar_items == b.sidebar_items,
        a.prev_href == b.prev_href,
        a.next_href == b.next_href,
    ensures
        content_page_html(a) == content_page_html(b),
{
}

fn render_pager(href: &Option<String>, is_next: bool) -> (html: String)
    ensures
        html@ == pager_html(*href, is_next),
{
    let mut html = String::new();
    match href {
        Some(h) => {
            if is_next {
                html.append("<a class=\"next\" href=\"");
            } else {
                html.append("<a class=\"prev\" href=\"");
            }
            html.append(escape_html(h.as_str()).as_str());
            if is_next {
                html.append("\">Next</a>");
            } else {
                html.append("\">Prev</a>");
            }
        },
        None => {
            if is_next {
                html.append("<span class=\"next missing\"></span>");
            } else {
                html.append("<span class=\"prev missing\"></span>");
            }
        },
    }
    html
}

/// Renders a content page.
pub fn render_content_page(input: &ContentPageRenderInput) -> (page: String)
    ensures
        page@ == content_page_html(*input),
{
    let mut sidebar_items = String::new();
    let mut i: usize = 0;
    while i < input.sidebar_items.len()
        invariant
            i <= input.sidebar_items.len(),
            sidebar_items@ == sidebar_items_html(input.sidebar_items@.take(i as int)),
        decreases input.sidebar_items.len() - i,
    {
        assert(input.sidebar_items@.take(i + 1).drop_last() =~= input.sidebar_items@.take(i as int));
        let item = &input.sidebar_items[i];
        sidebar_items.append("<li data-page-id=\"");
        sidebar_items.append(escape_html(item.page_id.as_str()).as_str());
        sidebar_items.append("\"");
        if item.is_active {
            sidebar_items.append(" data-active=\"true\"");
        } else {
            sidebar_items.append("");
        }
        sidebar_items.append("><a href=\"");
        sidebar_items.append(escape_html(item.href.as_str()).as_str());
        sidebar_items.append("\">");
        sidebar_items.append(escape_html(item.title.as_str()).as_str());
        sidebar_items.append("</a></li>");
        i += 1;
    }
    assert(input.sidebar_items@.take(input.sidebar_items.len() as int) =~= input.sidebar_items@);
    let prev_html = render_pager(&input.prev_href, false);
    let next_html = render_pager(&input.next_href, true);
    let mut page = String::new();
    page.append("<!doctype html><html lang=\"");
    page.append(escape_html(input.html_lang.as_str()).as_str());
    page.append("\"><head><meta charset=\"utf-8\"><title>");
    page.append(escape_html(input.page_title.as_str()).as_str());
    page.append("</title></head><body data-mdbook-default-theme=\"");
    page.append(escape_html(input.default_theme.as_str()).as_str());
    page.append("\"><a class=\"bookshelf-return\" href=\"");
    page.append(escape_html(input.bookshelf_href.as_str()).as_str());
    page.append("\">Bookshelf</a><aside class=\"sidebar\" data-active-book=\"");
    page.append(escape_html(input.owning_book_id.as_str()).as_str());
    page.append("\"><ul>");
    page.append(sidebar_items.as_str());
    page.append("</ul></aside><main><h1>");
    page.append(escape_html(input.page_title.as_str()).as_str());
    page.append("</h1><div class=\"breadcrumb\">");
    page.append(escape_html(input.breadcrumb.as_str()).as_str());
    page.append("</div><nav class=\"pager\">");
    page.append(prev_html.as_str());
    page.append(" ");
    page.append(next_html.as_str());
    page.append("</nav></main></body></html>");
    page
}

/// The marker of the active sidebar item.
pub open spec fn active_marker() -> Seq<char> {
    " data-active=\"true\""@
}

/// `s` ends with `p`.
pub open spec fn ends_with(s: Seq<char>, p: Seq<char>) -> bool {
    s.len() >= p.len() && s.skip(s.len() - p.len()) == p
}

/// The number of places at which `p` occurs in `s`, each counted at the
/// position where it ends.
pub open spec fn occurrences(s: Seq<char>, p: Seq<char>) -> nat
    decreases s.len(),
{
    if s.len() == 0 {
        0
    } else {
        occurrences(s.drop_last(), p) + (if ends_with(s, p) {
            1nat
        } else {
            0nat
        })
    }
}

/// The number of active sidebar items.
pub open spec fn active_count(items: Seq<SidebarItem>) -> nat
    decreases items.len(),
{
    if items.len() == 0 {
        0
    } else {
        active_count(items.drop_last()) + (if items.last().is_active {
            1nat
        } else {
            0nat
        })
    }
}

/// No occurrence of `p` in `x + y` begins in `x` and ends in `y`.
pub open spec fn no_straddle(x: Seq<char>, y: Seq<char>, p: Seq<char>) -> bool {
    forall|j: int| 1 <= j < p.len() && j <= y.len() ==> !ends_with(#[trigger] (x + y.take(j)), p)
}

/// A character of the marker.
pub open spec fn in_marker(c: char) -> bool {
    c == ' ' || c == 'd' || c == 'a' || c == 't' || c == '-' || c == 'c' || c == 'i' || c == 'v' || c == 'e'
        || c == '=' || c == '"' || c == 'r' || c == 'u'
}

/// No `"` is followed by `t`.
pub open spec fn no_quote_t(s: Seq<char>) -> bool
    decreases s.len(),
{
    s.len() < 2 || (!(s[0] == '"' && s[1] == 't') && no_quote_t(s.skip(1)))
}

/// `"`, then `e`, then `"`: an attribute value.
pub open spec fn quoted(e: Seq<char>) -> Seq<char> {
    seq!['"'] + e + seq!['"']
}

proof fn lemma_marker()
    ensures
        active_marker() == seq![' ', 'd', 'a', 't', 'a', '-', 'a', 'c', 't', 'i', 'v', 'e', '=', '"', 't', 'r', 'u', 'e', '"'],
        forall|k: int| 0 <= k < 19 ==> in_marker(#[trigger] active_marker()[k]),
{
    reveal_strlit(" data-active=\"true\"");
    let p = active_marker();
    assert forall|k: int| 0 <= k < 19 implies in_marker(#[trigger] p[k]) by {
        assert(k == 0 || k == 1 || k == 2 || k == 3 || k == 4 || k == 5 || k == 6 || k == 7 || k == 8 || k == 9
            || k == 10 || k == 11 || k == 12 || k == 13 || k == 14 || k == 15 || k == 16 || k == 17 || k == 18);
    }
}

proof fn lemma_join(x: Seq<char>, y: Seq<char>)
    requires
        no_straddle(x, y, active_marker()),
    ensures
        occurrences(x + y, active_marker()) == occurrences(x, active_marker()) + occurrences(y, active_marker()),
    decreases y.len(),
{
    let p = active_marker();
    lemma_marker();
    if y.len() == 0 {
        assert(x + y =~= x);
    } else {
        let y0 = y.drop_last();
        assert forall|j: int| 1 <= j < p.len() && j <= y0.len() implies !ends_with(
            #[trigger] (x + y0.take(j)),
            p,
        ) by {
            assert(y0.take(j) =~= y.take(j));
            assert(!ends_with(x + y.take(j), p));
        }
        lemma_join(x, y0);
        assert((x + y).drop_last() =~= x + y0);
        if y.len() >= p.len() {
            assert((x + y).skip((x + y).len() - p.len()) =~= y.skip(y.len() - p.len()));
        } else {
            assert(y.take(y.len() as int) =~= y);
            assert(!ends_with(x + y.take(y.len() as int), p));
            assert(!ends_with(y, p));
        }
    }
}

proof fn lemma_no_straddle_outside(x: Seq<char>, y: Seq<char>)
    requires
        (x.len() > 0 && !in_marker(x.last())) || (y.len() > 0 && !in_marker(y[0])) || x.len() == 0 || y.len()
            == 0,
    ensures
        no_straddle(x, y, active_marker()),
{
    let p = active_marker();
    lemma_marker();
    assert forall|j: int| 1 <= j < p.len() && j <= y.len() implies !ends_with(#[trigger] (x + y.take(j)), p) by {
        let s = x + y.take(j);
        if ends_with(s, p) {
            let k = p.len() - j;
            assert(s.len() == x.len() + j);
            if x.len() == 0 {
                assert(s.len() < p.len());
            } else if !in_marker(x.last()) {
                assert(s.skip(s.len() - p.len())[k - 1] == s[x.len() - 1]);
                assert(s[x.len() - 1] == x.last());
            } else {
                assert(s.skip(s.len() - p.len())[k] == s[x.len() as int]);
                assert(s[x.len() as int] == y[0]);
            }
        }
    }
}

proof fn lemma_no_straddle_attribute(x: Seq<char>, y: Seq<char>)
    requires
        x.len() >= 3,
        x.last() == '=',
        !(x[x.len() - 2] == 'e' && x[x.len() - 3] == 'v'),
        y.len() > 0,
        y[0] == '"',
    ensures
        no_straddle(x, y, active_marker()),
{
    let p = active_marker();
    lemma_marker();
    assert forall|j: int| 1 <= j < p.len() && j <= y.len() implies !ends_with(#[trigger] (x + y.take(j)), p) by {
        let s = x + y.take(j);
        if ends_with(s, p) {
            let k = p.len() - j;
            let w = s.skip(s.len() - p.len());
            assert(w[k - 1] == s[x.len() - 1]);
            assert(w[k] == s[x.len() as int]);
            assert(s[x.len() - 1] == x.last());
            assert(s[x.len() as int] == y[0]);
            assert(k == 13) by {
                assert(k == 1 || k == 2 || k == 3 || k == 4 || k == 5 || k == 6 || k == 7 || k == 8 || k == 9
                    || k == 10 || k == 11 || k == 12 || k == 13 || k == 14 || k == 15 || k == 16 || k == 17
                    || k == 18);
            }
            assert(w[k - 2] == s[x.len() - 2]);
            assert(w[k - 3] == s[x.len() - 3]);
            assert(s[x.len() - 2] == x[x.len() - 2]);
            assert(s[x.len() - 3] == x[x.len() - 3]);
        }
    }
}

proof fn lemma_no_straddle_quote_space(x: Seq<char>, y: Seq<char>)
    requires
        x.len() > 0,
        x.last() == '"',
        y.len() > 0,
        y[0] == ' ',
    ensures
        no_straddle(x, y, active_marker()),
{
    let p = active_marker();
    lemma_marker();
    assert forall|j: int| 1 <= j < p.len() && j <= y.len() implies !ends_with(#[trigger] (x + y.take(j)), p) by {
        let s = x + y.take(j);
        if ends_with(s, p) {
            let k = p.len() - j;
            let w = s.skip(s.len() - p.len());
            assert(w[k - 1] == s[x.len() - 1]);
            assert(w[k] == s[x.len() as int]);
            assert(s[x.len() - 1] == x.last());
            assert(s[x.len() as int] == y[0]);
            assert(k == 1 || k == 2 || k == 3 || k == 4 || k == 5 || k == 6 || k == 7 || k == 8 || k == 9 || k
                == 10 || k == 11 || k == 12 || k == 13 || k == 14 || k == 15 || k == 16 || k == 17 || k == 18);
        }
    }
}

proof fn lemma_no_quote_t_forall(s: Seq<char>)
    requires
        no_quote_t(s),
    ensures
        forall|i: int| 0 <= i < s.len() - 1 ==> !(#[trigger] s[i] == '"' && s[i + 1] == 't'),
    decreases s.len(),
{
    if s.len() >= 2 {
        lemma_no_quote_t_forall(s.skip(1));
        assert forall|i: int| 0 <= i < s.len() - 1 implies !(#[trigger] s[i] == '"' && s[i + 1] == 't') by {
            if i > 0 {
                assert(s.skip(1)[i - 1] == s[i]);
                assert(s.skip(1)[i] == s[i + 1]);
            }
        }
    }
}

/// A text in which no `"` is followed by `t` holds no marker.
proof fn lemma_no_marker(s: Seq<char>)
    requires
        forall|i: int| 0 <= i < s.len() - 1 ==> !(#[trigger] s[i] == '"' && s[i + 1] == 't'),
    ensures
        occurrences(s, active_marker()) == 0,
    decreases s.len(),
{
    let p = active_marker();
    lemma_marker();
    if s.len() > 0 {
        let t = s.drop_last();
        assert forall|i: int| 0 <= i < t.len() - 1 implies !(#[trigger] t[i] == '"' && t[i + 1] == 't') by {
            assert(t[i] == s[i]);
            assert(t[i + 1] == s[i + 1]);
        }
        lemma_no_marker(t);
        if ends_with(s, p) {
            let w = s.skip(s.len() - p.len());
            assert(w[13] == s[s.len() - 6]);
            assert(w[14] == s[s.len() - 5]);
        }
    }
}

/// A text without `"` holds no marker.
proof fn lemma_no_marker_quote_free(s: Seq<char>)
    requires
        forall|i: int| 0 <= i < s.len() ==> #[trigger] s[i] != '"',
    ensures
        occurrences(s, active_marker()) == 0,
{
    lemma_no_marker(s);
}

/// A text with `"` at most at its start holds no marker: each marker ends
/// with a `"` after its eighteenth character.
proof fn lemma_no_marker_after_start(s: Seq<char>)
    requires
        forall|i: int| 1 <= i < s.len() ==> #[trigger] s[i] != '"',
    ensures
        occurrences(s, active_marker()) == 0,
    decreases s.len(),
{
    let p = active_marker();
    lemma_marker();
    if s.len() > 0 {
        let t = s.drop_last();
        assert forall|i: int| 1 <= i < t.len() implies #[trigger] t[i] != '"' by {
            assert(t[i] == s[i]);
        }
        lemma_no_marker_after_start(t);
        if ends_with(s, p) {
            let w = s.skip(s.len() - p.len());
            assert(w[18] == s[s.len() - 1]);
        }
    }
}

/// A quoted text without `"` inside holds no marker.
proof fn lemma_no_marker_quoted(e: Seq<char>)
    requires
        forall|i: int| 0 <= i < e.len() ==> #[trigger] e[i] != '"',
    ensures
        occurrences(quoted(e), active_marker()) == 0,
{
    let p = active_marker();
    lemma_marker();
    let q = quoted(e);
    assert(q.drop_last() =~= seq!['"'] + e);
    assert forall|i: int| 1 <= i < q.drop_last().len() implies #[trigger] q.drop_last()[i] != '"' by {
        assert(q.drop_last()[i] == e[i - 1]);
    }
    lemma_no_marker_after_start(q.drop_last());
    if ends_with(q, p) {
        let w = q.skip(q.len() - p.len());
        assert(w[13] == q[q.len() - 6]);
        assert(q[q.len() - 6] == e[q.len() - 7]);
    }
}

/// A text shorter than the marker holds none.
proof fn lemma_no_marker_short(s: Seq<char>)
    requires
        s.len() < active_marker().len(),
    ensures
        occurrences(s, active_marker()) == 0,
    decreases s.len(),
{
    if s.len() > 0 {
        lemma_no_marker_short(s.drop_last());
    }
}

proof fn lemma_marker_once()
    ensures
        occurrences(active_marker(), active_marker()) == 1,
{
    let p = active_marker();
    lemma_marker();
    lemma_no_marker_short(p.drop_last());
    assert(p.skip(0) =~= p);
}

proof fn lemma_literal_no_marker(s: Seq<char>)
    requires
        no_quote_t(s),
    ensures
        occurrences(s, active_marker()) == 0,
{
    lemma_no_quote_t_forall(s);
    lemma_no_marker(s);
}

proof fn lemma_escaped_no_marker(t: Seq<char>)
    ensures
        occurrences(html_escaped(t), active_marker()) == 0,
        occurrences(quoted(html_escaped(t)), active_marker()) == 0,
        forall|i: int| 0 <= i < html_escaped(t).len() ==> #[trigger] html_escaped(t)[i] != '"',
{
    lemma_html_escape_has_no_markup(t);
    lemma_no_marker_quote_free(html_escaped(t));
    lemma_no_marker_quoted(html_escaped(t));
}

/// The `<li>` element of one sidebar item.
pub open spec fn sidebar_item_html(it: SidebarItem) -> Seq<char> {
    "<li data-page-id="@ + quoted(html_escaped(it.page_id@)) + (if it.is_active {
        active_marker()
    } else {
        Seq::empty()
    }) + "><a href="@ + quoted(html_escaped(it.href@)) + ">"@ + html_escaped(it.title@) + "</a></li>"@
}

proof fn lemma_sidebar_item(items: Seq<SidebarItem>)
    requires
        items.len() > 0,
    ensures
        sidebar_items_html(items) == sidebar_items_html(items.drop_last()) + sidebar_item_html(items.last()),
        occurrences(sidebar_item_html(items.last()), active_marker()) == (if items.last().is_active {
            1nat
        } else {
            0nat
        }),
        sidebar_item_html(items.last()).len() > 0,
        sidebar_item_html(items.last())[0] == '<',
{
    let it = items.last();
    reveal_strlit("<li data-page-id=\"");
    reveal_strlit("\"");
    reveal_strlit(" data-active=\"true\"");
    reveal_strlit("");
    reveal_strlit("><a href=\"");
    reveal_strlit("\">");
    reveal_strlit("</a></li>");
    reveal_strlit("<li data-page-id=");
    reveal_strlit("><a href=");
    reveal_strlit(">");
    let l1 = "<li data-page-id="@;
    let l2 = "><a href="@;
    let l3 = ">"@;
    let l4 = "</a></li>"@;
    let q1 = quoted(html_escaped(it.page_id@));
    let m = if it.is_active {
        active_marker()
    } else {
        Seq::<char>::empty()
    };
    let q2 = quoted(html_escaped(it.href@));
    let e = html_escaped(it.title@);
    assert(sidebar_items_html(items) =~= sidebar_items_html(items.drop_last()) + sidebar_item_html(it));
    let a0 = l1;
    let a1 = a0 + q1;
    let a2 = a1 + m;
    let a3 = a2 + l2;
    let a4 = a3 + q2;
    let a5 = a4 + l3;
    let a6 = a5 + e;
    let a7 = a6 + l4;
    assert(a7 =~= sidebar_item_html(it));
    assert(no_quote_t(l1)) by {
        reveal_with_fuel(no_quote_t, 18);
    }
    assert(no_quote_t(l2)) by {
        reveal_with_fuel(no_quote_t, 10);
    }
    assert(no_quote_t(l3)) by {
        reveal_with_fuel(no_quote_t, 2);
    }
    assert(no_quote_t(l4)) by {
        reveal_with_fuel(no_quote_t, 10);
    }
    lemma_literal_no_marker(l1);
    lemma_literal_no_marker(l2);
    lemma_literal_no_marker(l3);
    lemma_literal_no_marker(l4);
    lemma_escaped_no_marker(it.page_id@);
    lemma_escaped_no_marker(it.href@);
    lemma_escaped_no_marker(it.title@);
    lemma_marker_once();
    lemma_no_marker_short(Seq::<char>::empty());
    lemma_marker();
    lemma_no_straddle_attribute(a0, q1);
    lemma_join(a0, q1);
    if it.is_active {
        lemma_no_straddle_quote_space(a1, m);
    } else {
        lemma_no_straddle_outside(a1, m);
        assert(a1 + m =~= a1);
    }
    lemma_join(a1, m);
    assert(a2.last() == '"');
    lemma_no_straddle_outside(a2, l2);
    lemma_join(a2, l2);
    lemma_no_straddle_attribute(a3, q2);
    lemma_join(a3, q2);
    lemma_no_straddle_outside(a4, l3);
    lemma_join(a4, l3);
    lemma_no_straddle_outside(a5, e);
    lemma_join(a5, e);
    lemma_no_straddle_outside(a6, l4);
    lemma_join(a6, l4);
}

proof fn lemma_sidebar_markers(items: Seq<SidebarItem>)
    ensures
        occurrences(sidebar_items_html(items), active_marker()) == active_count(items),
    decreases items.len(),
{
    if items.len() == 0 {
        lemma_marker();
        lemma_no_marker_short(sidebar_items_html(items));
    } else {
        lemma_sidebar_markers(items.drop_last());
        lemma_sidebar_item(items);
        let item = sidebar_item_html(items.last());
        lemma_no_straddle_outside(sidebar_items_html(items.drop_last()), item);
        lemma_join(sidebar_items_html(items.drop_last()), item);
    }
}

proof fn lemma_pager_no_marker(href: Option<String>, is_next: bool)
    ensures
        occurrences(pager_html(href, is_next), active_marker()) == 0,
        pager_html(href, is_next).len() > 0,
        pager_html(href, is_next)[0] == '<',
        pager_html(href, is_next).last() == '>',
{
    reveal_strlit("<a class=\"next\" href=\"");
    reveal_strlit("<a class=\"prev\" href=\"");
    reveal_strlit("\">Next</a>");
    reveal_strlit("\">Prev</a>");
    reveal_strlit("<span class=\"next missing\"></span>");
    reveal_strlit("<span class=\"prev missing\"></span>");
    reveal_strlit("<a class=\"next\" href=");
    reveal_strlit("<a class=\"prev\" href=");
    reveal_strlit(">Next</a>");
    reveal_strlit(">Prev</a>");
    lemma_marker();
    match href {
        Some(h) => {
            let b0 = if is_next {
                "<a class=\"next\" href="@
            } else {
                "<a class=\"prev\" href="@
            };
            let b1 = if is_next {
                ">Next</a>"@
            } else {
                ">Prev</a>"@
            };
            let q = quoted(html_escaped(h@));
            assert(pager_html(href, is_next) =~= b0 + q + b1);
            assert(no_quote_t(b0)) by {
                reveal_with_fuel(no_quote_t, 22);
            }
            assert(no_quote_t(b1)) by {
                reveal_with_fuel(no_quote_t, 10);
            }
            lemma_literal_no_marker(b0);
            lemma_literal_no_marker(b1);
            lemma_escaped_no_marker(h@);
            lemma_no_straddle_attribute(b0, q);
            lemma_join(b0, q);
            lemma_no_straddle_outside(b0 + q, b1);
            lemma_join(b0 + q, b1);
        },
        None => {
            let l = pager_html(href, is_next);
            assert(no_quote_t(l)) by {
                reveal_with_fuel(no_quote_t, 36);
            }
            lemma_literal_no_marker(l);
        },
    }
}

/// The part of a content page before its sidebar items.
spec fn page_head(input: ContentPageRenderInput) -> Seq<char> {
    "<!doctype html><html lang="@ + quoted(html_escaped(input.html_lang@)) + "><head><meta charset=\"utf-8\"><title>"@ + html_escaped(input.page_title@) + "</title></head><body data-mdbook-default-theme="@ + quoted(html_escaped(input.default_theme@)) + "><a class=\"bookshelf-return\" href="@ + quoted(html_escaped(input.bookshelf_href@)) + ">Bookshelf</a><aside class=\"sidebar\" data-active-book="@ + quoted(html_escaped(input.owning_book_id@)) + "><ul>"@
}

/// The part of a content page after its sidebar items.
spec fn page_tail(input: ContentPageRenderInput) -> Seq<char> {
    "</ul></aside><main><h1>"@ + html_escaped(input.page_title@) + "</h1><div class=\"breadcrumb\">"@ + html_escaped(input.breadcrumb@) + "</div><nav class=\"pager\">"@ + pager_html(input.prev_href, false) + " "@ + pager_html(input.next_href, true) + "</nav></main></body></html>"@
}

proof fn lemma_page_parts(input: ContentPageRenderInput)
    ensures
        content_page_html(input) == page_head(input) + sidebar_items_html(input.sidebar_items@) + page_tail(input),
{
    reveal_strlit("<!doctype html><html lang=\"");
    reveal_strlit("\"><head><meta charset=\"utf-8\"><title>");
    reveal_strlit("</title></head><body data-mdbook-default-theme=\"");
    reveal_strlit("\"><a class=\"bookshelf-return\" href=\"");
    reveal_strlit("\">Bookshelf</a><aside class=\"sidebar\" data-active-book=\"");
    reveal_strlit("\"><ul>");
    reveal_strlit("</ul></aside><main><h1>");
    reveal_strlit("</h1><div class=\"breadcrumb\">");
    reveal_strlit("</div><nav class=\"pager\">");
    reveal_strlit(" ");
    reveal_strlit("</nav></main></body></html>");
    reveal_strlit("<!doctype html><html lang=");
    reveal_strlit("><head><meta charset=\"utf-8\"><title>");
    reveal_strlit("</title></head><body data-mdbook-default-theme=");
    reveal_strlit("><a class=\"bookshelf-return\" href=");
    reveal_strlit(">Bookshelf</a><aside class=\"sidebar\" data-active-book=");
    reveal_strlit("><ul>");
    reveal_strlit("</ul></aside><main><h1>");
    reveal_strlit("</h1><div class=\"breadcrumb\">");
    reveal_strlit("</div><nav class=\"pager\">");
    reveal_strlit(" ");
    reveal_strlit("</nav></main></body></html>");
    assert(content_page_html(input) =~= page_head(input) + sidebar_items_html(input.sidebar_items@) + page_tail(
        input,
    ));
}

/// A literal in which no `"` is followed by `t` holds no marker.
proof fn lemma_literal_checked(s: Seq<char>)
    requires
        no_quote_t(s),
    ensures
        occurrences(s, active_marker()) == 0,
{
    lemma_literal_no_marker(s);
}

#[verifier::spinoff_prover]
proof fn lemma_page_literal_0()
    ensures
        occurrences("<!doctype html><html lang="@, active_marker()) == 0,
{
    reveal_strlit("<!doctype html><html lang=");
    assert(no_quote_t("<!doctype html><html lang="@)) by {
        reveal_with_fuel(no_quote_t, 27);
    }
    lemma_literal_checked("<!doctype html><html lang="@);
}

#[verifier::spinoff_prover]
proof fn lemma_page_literal_1()
    ensures
        occurrences("><head><meta charset=\"utf-8\"><title>"@, active_marker()) == 0,
{
    reveal_strlit("><head><meta charset=\"utf-8\"><title>");
    reveal_strlit("><head><meta charset=\"utf-8\">");
    reveal_strlit("<title>");
    assert("><head><meta charset=\"utf-8\"><title>"@ =~= "><head><meta charset=\"utf-8\">"@ + "<title>"@);
    assert(no_quote_t("><head><meta charset=\"utf-8\">"@)) by {
        reveal_with_fuel(no_quote_t, 30);
    }
    assert(no_quote_t("<title>"@)) by {
        reveal_with_fuel(no_quote_t, 8);
    }
    lemma_literal_checked("><head><meta charset=\"utf-8\">"@);
    lemma_literal_checked("<title>"@);
    lemma_no_straddle_outside("><head><meta charset=\"utf-8\">"@, "<title>"@);
    lemma_join("><head><meta charset=\"utf-8\">"@, "<title>"@);
}

#[verifier::spinoff_prover]
proof fn lemma_page_literal_2()
    ensures
        occurrences("</title></head><body data-mdbook-default-theme="@, active_marker()) == 0,
{
    reveal_strlit("</title></head><body data-mdbook-default-theme=");
    reveal_strlit("</title></head>");
    reveal_strlit("<body data-mdbook-default-theme=");
    assert("</title></head><body data-mdbook-default-theme="@ =~= "</title></head>"@ + "<body data-mdbook-default-theme="@);
    assert(no_quote_t("</title></head>"@)) by {
        reveal_with_fuel(no_quote_t, 16);
    }
    assert(no_quote_t("<body data-mdbook-default-theme="@)) by {
        reveal_with_fuel(no_quote_t, 33);
    }
    lemma_literal_checked("</title></head>"@);
    lemma_literal_checked("<body data-mdbook-default-theme="@);
    lemma_no_straddle_outside("</title></head>"@, "<body data-mdbook-default-theme="@);
    lemma_join("</title></head>"@, "<body data-mdbook-default-theme="@);
}

#[verifier::spinoff_prover]
proof fn lemma_page_literal_3()
    ensures
        occurrences("><a class=\"bookshelf-return\" href="@, active_marker()) == 0,
{
    reveal_strlit("><a class=\"bookshelf-return\" href=");
    reveal_strlit(">");
    reveal_strlit("<a class=\"bookshelf-return\" href=");
    assert("><a class=\"bookshelf-return\" href="@ =~= ">"@ + "<a class=\"bookshelf-return\" href="@);
    assert(no_quote_t(">"@)) by {
        reveal_with_fuel(no_quote_t, 2);
    }
    assert(no_quote_t("<a class=\"bookshelf-return\" href="@)) by {
        reveal_with_fuel(no_quote_t, 34);
    }
    lemma_literal_checked(">"@);
    lemma_literal_checked("<a class=\"bookshelf-return\" href="@);
    lemma_no_straddle_outside(">"@, "<a class=\"bookshelf-return\" href="@);
    lemma_join(">"@, "<a class=\"bookshelf-return\" href="@);
}

#[verifier::spinoff_prover]
proof fn lemma_page_literal_4()
    ensures
        occurrences(">Bookshelf</a><aside class=\"sidebar\" data-active-book="@, active_marker()) == 0,
{
    reveal_strlit(">Bookshelf</a><aside class=\"sidebar\" data-active-book=");
    reveal_strlit(">Bookshelf</a>");
    reveal_strlit("<aside class=\"sidebar\" data-active-book=");
    assert(">Bookshelf</a><aside class=\"sidebar\" data-active-book="@ =~= ">Bookshelf</a>"@ + "<aside class=\"sidebar\" data-active-book="@);
    assert(no_quote_t(">Bookshelf</a>"@)) by {
        reveal_with_fuel(no_quote_t, 15);
    }
    assert(no_quote_t("<aside class=\"sidebar\" data-active-book="@)) by {
        reveal_with_fuel(no_quote_t, 41);
    }
    lemma_literal_checked(">Bookshelf</a>"@);
    lemma_literal_checked("<aside class=\"sidebar\" data-active-book="@);
    lemma_no_straddle_outside(">Bookshelf</a>"@, "<aside class=\"sidebar\" data-active-book="@);
    lemma_join(">Bookshelf</a>"@, "<aside class=\"sidebar\" data-active-book="@);
}

#[verifier::spinoff_prover]
proof fn lemma_page_literal_5()
    ensures
        occurrences("><ul>"@, active_marker()) == 0,
{
    reveal_strlit("><ul>");
    assert(no_quote_t("><ul>"@)) by {
        reveal_with_fuel(no_quote_t, 6);
    }
    lemma_literal_checked("><ul>"@);
}

#[verifier::spinoff_prover]
proof fn lemma_page_literal_6()
    ensures
        occurrences("</ul></aside><main><h1>"@, active_marker()) == 0,
{
    reveal_strlit("</ul></aside><main><h1>");
    assert(no_quote_t("</ul></aside><main><h1>"@)) by {
        reveal_with_fuel(no_quote_t, 24);
    }
    lemma_literal_checked("</ul></aside><main><h1>"@);
}

#[verifier::spinoff_prover]
proof fn lemma_page_literal_7()
    ensures
        occurrences("</h1><div class=\"breadcrumb\">"@, active_marker()) == 0,
{
    reveal_strlit("</h1><div class=\"breadcrumb\">");
    assert(no_quote_t("</h1><div class=\"breadcrumb\">"@)) by {
        reveal_with_fuel(no_quote_t, 30);
    }
    lemma_literal_checked("</h1><div class=\"breadcrumb\">"@);
}

#[verifier::spinoff_prover]
proof fn lemma_page_literal_8()
    ensures
        occurrences("</div><nav class=\"pager\">"@, active_marker()) == 0,
{
    reveal_strlit("</div><nav class=\"pager\">");
    assert(no_quote_t("</div><nav class=\"pager\">"@)) by {
        reveal_with_fuel(no_quote_t, 26);
    }
    lemma_literal_checked("</div><nav class=\"pager\">"@);
}

#[verifier::spinoff_prover]
proof fn lemma_page_literal_9()
    ensures
        occurrences(" "@, active_marker()) == 0,
{
    reveal_strlit(" ");
    assert(no_quote_t(" "@)) by {
        reveal_with_fuel(no_quote_t, 2);
    }
    lemma_literal_checked(" "@);
}

#[verifier::spinoff_prover]
proof fn lemma_page_literal_10()
    ensures
        occurrences("</nav></main></body></html>"@, active_marker()) == 0,
{
    reveal_strlit("</nav></main></body></html>");
    assert(no_quote_t("</nav></main></body></html>"@)) by {
        reveal_with_fuel(no_quote_t, 28);
    }
    lemma_literal_checked("</nav></main></body></html>"@);
}

proof fn lemma_page_literals()
    ensures
        occurrences("<!doctype html><html lang="@, active_marker()) == 0,
        occurrences("><head><meta charset=\"utf-8\"><title>"@, active_marker()) == 0,
        occurrences("</title></head><body data-mdbook-default-theme="@, active_marker()) == 0,
        occurrences("><a class=\"bookshelf-return\" href="@, active_marker()) == 0,
        occurrences(">Bookshelf</a><aside class=\"sidebar\" data-active-book="@, active_marker()) == 0,
        occurrences("><ul>"@, active_marker()) == 0,
        occurrences("</ul></aside><main><h1>"@, active_marker()) == 0,
        occurrences("</h1><div class=\"breadcrumb\">"@, active_marker()) == 0,
        occurrences("</div><nav class=\"pager\">"@, active_marker()) == 0,
        occurrences(" "@, active_marker()) == 0,
        occurrences("</nav></main></body></html>"@, active_marker()) == 0,
{
    lemma_page_literal_0();
    lemma_page_literal_1();
    lemma_page_literal_2();
    lemma_page_literal_3();
    lemma_page_literal_4();
    lemma_page_literal_5();
    lemma_page_literal_6();
    lemma_page_literal_7();
    lemma_page_literal_8();
    lemma_page_literal_9();
    lemma_page_literal_10();
}

#[verifier::spinoff_prover]
proof fn lemma_page_head(input: ContentPageRenderInput)
    ensures
        occurrences(page_head(input), active_marker()) == 0,
        page_head(input).len() > 0,
        page_head(input).last() == '>',
{
    reveal_strlit("<!doctype html><html lang=");
    reveal_strlit("><head><meta charset=\"utf-8\"><title>");
    reveal_strlit("</title></head><body data-mdbook-default-theme=");
    reveal_strlit("><a class=\"bookshelf-return\" href=");
    reveal_strlit(">Bookshelf</a><aside class=\"sidebar\" data-active-book=");
    reveal_strlit("><ul>");
    let a0 = "<!doctype html><html lang="@;
    let a1 = "><head><meta charset=\"utf-8\"><title>"@;
    let a2 = "</title></head><body data-mdbook-default-theme="@;
    let a3 = "><a class=\"bookshelf-return\" href="@;
    let a4 = ">Bookshelf</a><aside class=\"sidebar\" data-active-book="@;
    let a5 = "><ul>"@;
    lemma_page_literals();
    lemma_marker();
    let q_lang = quoted(html_escaped(input.html_lang@));
    let e_title = html_escaped(input.page_title@);
    let q_theme = quoted(html_escaped(input.default_theme@));
    let q_href = quoted(html_escaped(input.bookshelf_href@));
    let q_owner = quoted(html_escaped(input.owning_book_id@));
    lemma_escaped_no_marker(input.html_lang@);
    lemma_escaped_no_marker(input.page_title@);
    lemma_escaped_no_marker(input.default_theme@);
    lemma_escaped_no_marker(input.bookshelf_href@);
    lemma_escaped_no_marker(input.owning_book_id@);
    let c1 = a0 + q_lang;
    let c2 = c1 + a1;
    let c3 = c2 + e_title;
    let c4 = c3 + a2;
    let c5 = c4 + q_theme;
    let c6 = c5 + a3;
    let c7 = c6 + q_href;
    let c8 = c7 + a4;
    let c9 = c8 + q_owner;
    let c10 = c9 + a5;
    assert(page_head(input) == c10);
    lemma_no_straddle_attribute(a0, q_lang);
    lemma_join(a0, q_lang);
    lemma_no_straddle_outside(c1, a1);
    lemma_join(c1, a1);
    lemma_no_straddle_outside(c2, e_title);
    lemma_join(c2, e_title);
    lemma_no_straddle_outside(c3, a2);
    lemma_join(c3, a2);
    lemma_no_straddle_attribute(c4, q_theme);
    lemma_join(c4, q_theme);
    lemma_no_straddle_outside(c5, a3);
    lemma_join(c5, a3);
    lemma_no_straddle_attribute(c6, q_href);
    lemma_join(c6, q_href);
    lemma_no_straddle_outside(c7, a4);
    lemma_join(c7, a4);
    lemma_no_straddle_attribute(c8, q_owner);
    lemma_join(c8, q_owner);
    lemma_no_straddle_outside(c9, a5);
    lemma_join(c9, a5);
}

#[verifier::spinoff_prover]
proof fn lemma_page_tail(input: ContentPageRenderInput)
    ensures
        occurrences(page_tail(input), active_marker()) == 0,
        page_tail(input).len() > 0,
        page_tail(input)[0] == '<',
{
    reveal_strlit("</ul></aside><main><h1>");
    reveal_strlit("</h1><div class=\"breadcrumb\">");
    reveal_strlit("</div><nav class=\"pager\">");
    reveal_strlit(" ");
    reveal_strlit("</nav></main></body></html>");
    let a6 = "</ul></aside><main><h1>"@;
    let a7 = "</h1><div class=\"breadcrumb\">"@;
    let a8 = "</div><nav class=\"pager\">"@;
    let sp = " "@;
    let a9 = "</nav></main></body></html>"@;
    lemma_page_literals();
    lemma_marker();
    let e_title = html_escaped(input.page_title@);
    let e_bc = html_escaped(input.breadcrumb@);
    let p1 = pager_html(input.prev_href, false);
    let p2 = pager_html(input.next_href, true);
    lemma_escaped_no_marker(input.page_title@);
    lemma_escaped_no_marker(input.breadcrumb@);
    lemma_pager_no_marker(input.prev_href, false);
    lemma_pager_no_marker(input.next_href, true);
    let c12 = a6;
    let c13 = c12 + e_title;
    let c14 = c13 + a7;
    let c15 = c14 + e_bc;
    let c16 = c15 + a8;
    let c17 = c16 + p1;
    let c18 = c17 + sp;
    let c19 = c18 + p2;
    let c20 = c19 + a9;
    assert(page_tail(input) == c20);
    lemma_no_straddle_outside(c12, e_title);
    lemma_join(c12, e_title);
    lemma_no_straddle_outside(c13, a7);
    lemma_join(c13, a7);
    lemma_no_straddle_outside(c14, e_bc);
    lemma_join(c14, e_bc);
    lemma_no_straddle_outside(c15, a8);
    lemma_join(c15, a8);
    lemma_no_straddle_outside(c16, p1);
    lemma_join(c16, p1);
    lemma_no_straddle_outside(c17, sp);
    lemma_join(c17, sp);
    lemma_no_straddle_outside(c18, p2);
    lemma_join(c18, p2);
    lemma_no_straddle_outside(c19, a9);
    lemma_join(c19, a9);
    assert(c20[0] == '<');
}

/// Law: a content page holds the active marker ` data-active="true"`
/// exactly once for each active sidebar item, and nowhere else.
pub proof fn lemma_content_page_active_markers(input: ContentPageRenderInput)
    ensures
        occurrences(content_page_html(input), active_marker()) == active_count(input.sidebar_items@),
{
    let head = page_head(input);
    let side = sidebar_items_html(input.sidebar_items@);
    let tail = page_tail(input);
    lemma_page_parts(input);
    lemma_page_head(input);
    lemma_page_tail(input);
    lemma_sidebar_markers(input.sidebar_items@);
    lemma_no_straddle_outside(head, side);
    lemma_join(head, side);
    lemma_no_straddle_outside(head + side, tail);
    lemma_join(head + side, tail);
}

} // verus!
