//! The plain HTML site: one page per content page of every book, at
//! `<book>/p<order>.html`, with links to its neighbours, and a root index
//! that lists the books.
use vstd::prelude::*;
use crate::escape::{escape_html, html_escaped};
use crate::navigation::{entry_for, NavigationMetadata, PageNavigationView};
use crate::numbers::{decimal, format_decimal, format_padded4, padded4};
use crate::site_model::{SiteBook, SiteBookView, SiteModel, SitePage, SitePageView};
use crate::text::{copy_string, opt_view, str_eq, string_from};

verus! {

/// How a book is presented: its language and default theme, where its
/// configuration sets them.
#[derive(Debug, Clone, PartialEq, Eq)]
pub struct BookPresentation {
    pub book_id: String,
    pub language: Option<String>,
    pub default_theme: Option<String>,
}

/// A book presentation as plain values.
pub struct PresentationView {
    pub book_id: Seq<char>,
    pub language: Option<Seq<char>>,
    pub default_theme: Option<Seq<char>>,
}

impl View for BookPresentation {
    type V = PresentationView;

    open spec fn view(&self) -> PresentationView {
        PresentationView {
            book_id: self.book_id@,
            language: opt_view(self.language),
            default_theme: opt_view(self.default_theme),
        }
    }
}

/// Where a content page is written, relative to the output directory.
#[derive(Debug, Clone, PartialEq, Eq)]
pub struct ContentOutput {
    pub page_id: String,
    pub rel_path: String,
}

/// A rendered content page and where it goes.
#[derive(Debug, Clone, PartialEq, Eq)]
pub struct ContentPage {
    pub rel_path: String,
    pub html: String,
}

/// Why the HTML site could not be built.
#[derive(Debug, Clone, PartialEq, Eq)]
pub enum HtmlSiteError {
    MissingNavigation { page_id: String },
    MissingProjectedConfig { book_id: String },
    MissingRootProjectedConfig,
}

/// An HTML site error as plain values.
pub enum HtmlSiteErrorView {
    MissingNavigation { page_id: Seq<char> },
    MissingProjectedConfig { book_id: Seq<char> },
    MissingRootProjectedConfig,
}

impl View for HtmlSiteError {
    type V = HtmlSiteErrorView;

    open spec fn view(&self) -> HtmlSiteErrorView {
        match self {
            HtmlSiteError::MissingNavigation { page_id } => HtmlSiteErrorView::MissingNavigation { page_id: page_id@ },
            HtmlSiteError::MissingProjectedConfig { book_id } =>
                HtmlSiteErrorView::MissingProjectedConfig { book_id: book_id@ },
            HtmlSiteError::MissingRootProjectedConfig => HtmlSiteErrorView::MissingRootProjectedConfig,
        }
    }
}

/// The output path of the content page `p`, number `order` of its book.
pub open spec fn content_rel_path(p: SitePageView, order: usize) -> Seq<char> {
    p.owning_book_id + "/p"@ + padded4(order as nat) + ".html"@
}

/// The output path of every content page, in page order.
pub open spec fn content_outputs(ps: Seq<SitePageView>) -> Seq<(Seq<char>, Seq<char>)>
    decreases ps.len(),
{
    if ps.len() == 0 {
        Seq::empty()
    } else {
        let r = content_outputs(ps.drop_last());
        match ps.last().order_in_book {
            Some(o) => r.push((ps.last().page_id, content_rel_path(ps.last(), o))),
            None => r,
        }
    }
}

/// The output path recorded last for the page `id`.
pub open spec fn output_of(os: Seq<(Seq<char>, Seq<char>)>, id: Seq<char>) -> Option<Seq<char>>
    decreases os.len(),
{
    if os.len() == 0 {
        None
    } else if os.last().0 == id {
        Some(os.last().1)
    } else {
        output_of(os.drop_last(), id)
    }
}

/// The presentation recorded last for the book `id`.
pub open spec fn presentation_of(ps: Seq<PresentationView>, id: Seq<char>) -> Option<PresentationView>
    decreases ps.len(),
{
    if ps.len() == 0 {
        None
    } else if ps.last().book_id == id {
        Some(ps.last())
    } else {
        presentation_of(ps.drop_last(), id)
    }
}

/// A book's language, English when unset.
pub open spec fn language_of(p: PresentationView) -> Seq<char> {
    match p.language {
        Some(l) => l,
        None => "en"@,
    }
}

/// A book's default theme, `light` when unset.
pub open spec fn theme_of(p: PresentationView) -> Seq<char> {
    match p.default_theme {
        Some(t) => t,
        None => "light"@,
    }
}

/// The link to a neighbouring page, when it has an output.
pub open spec fn neighbour_link(
    os: Seq<(Seq<char>, Seq<char>)>,
    id: Option<Seq<char>>,
    previous: bool,
) -> Seq<char> {
    match id {
        None => Seq::empty(),
        Some(i) => match output_of(os, i) {
            None => Seq::empty(),
            Some(path) => if previous {
                "<a href=\"/"@ + html_escaped(path) + "\">Prev</a>"@
            } else {
                "<a href=\"/"@ + html_escaped(path) + "\">Next</a>"@
            },
        },
    }
}

/// The HTML of a content page.
pub open spec fn content_html(
    lang: Seq<char>,
    theme: Seq<char>,
    title: Seq<char>,
    breadcrumb: Seq<char>,
    book_id: Seq<char>,
    order: usize,
    prev: Seq<char>,
    next: Seq<char>,
) -> Seq<char> {
    "<!doctype html><html lang=\""@ + html_escaped(lang) + "\"><head><meta charset=\"utf-8\"><title>"@
        + html_escaped(title) + "</title></head><body data-mdbook-default-theme=\""@ + html_escaped(theme)
        + "\"><h1>"@ + html_escaped(title) + "</h1><p>"@ + html_escaped(breadcrumb) + "</p><p>Book "@
        + html_escaped(book_id) + "</p><p>Order "@ + decimal(order as nat) + "</p><nav>"@ + prev + " "@ + next
        + "</nav></body></html>"@
}

/// The content page of page `k` of the site: none for a page outside the
/// books, else its output path and HTML, or why it cannot be built.
pub open spec fn content_page_spec(
    pages: Seq<SitePageView>,
    k: int,
    nav: Seq<PageNavigationView>,
    pres: Seq<PresentationView>,
) -> Result<Option<(Seq<char>, Seq<char>)>, HtmlSiteErrorView> {
    let p = pages[k];
    let os = content_outputs(pages);
    match p.order_in_book {
        None => Ok(None),
        Some(order) => match entry_for(nav, p.page_id) {
            None => Err(HtmlSiteErrorView::MissingNavigation { page_id: p.page_id }),
            Some(n) => match presentation_of(pres, p.owning_book_id) {
                None => Err(HtmlSiteErrorView::MissingProjectedConfig { book_id: p.owning_book_id }),
                Some(pr) => Ok(
                    Some(
                        (
                            output_of(os, p.page_id)->Some_0,
                            content_html(
                                language_of(pr),
                                theme_of(pr),
                                p.title,
                                match n.breadcrumb {
                                    Some(b) => b,
                                    None => Seq::empty(),
                                },
                                p.owning_book_id,
                                order,
                                neighbour_link(os, n.prev_page_id, true),
                                neighbour_link(os, n.next_page_id, false),
                            ),
                        ),
                    ),
                ),
            },
        },
    }
}

/// The list item of a book on the root index: a link to its first page.
pub open spec fn book_item_html(b: SiteBookView, os: Seq<(Seq<char>, Seq<char>)>) -> Seq<char> {
    let first = if b.page_ids_in_order.len() > 0 {
        match output_of(os, b.page_ids_in_order[0]) {
            Some(p) => "/"@ + p,
            None => "/"@,
        }
    } else {
        "/"@
    };
    "<li data-book-id=\""@ + html_escaped(b.book_id) + "\"><a href=\""@ + html_escaped(first) + "\">"@
        + html_escaped(b.title) + "</a></li>"@
}

/// The list items of books.
pub open spec fn book_items_html(bs: Seq<SiteBookView>, os: Seq<(Seq<char>, Seq<char>)>) -> Seq<char>
    decreases bs.len(),
{
    if bs.len() == 0 {
        Seq::empty()
    } else {
        book_items_html(bs.drop_last(), os) + book_item_html(bs.last(), os)
    }
}

/// The root index of the site, or the error when the root book has no
/// presentation.
pub open spec fn root_index_spec(m: SiteModel, pres: Seq<PresentationView>) -> Result<Seq<char>, HtmlSiteErrorView> {
    let os = content_outputs(m.pages@.map_values(|p: SitePage| p@));
    let items = book_items_html(m.books@.map_values(|b: SiteBook| b@), os);
    match presentation_of(pres, m.root_book_id@) {
        None => Err(HtmlSiteErrorView::MissingRootProjectedConfig),
        Some(pr) => Ok(
            "<!doctype html><html lang=\""@ + html_escaped(language_of(pr))
                + "\"><head><meta charset=\"utf-8\"><title>Bookshelf</title></head><body data-mdbook-default-theme=\""@
                + html_escaped(theme_of(pr)) + "\"><h1>Bookshelf</h1><ul>"@ + items + "</ul></body></html>"@,
        ),
    }
}

/// The content outputs as plain values.
pub open spec fn outputs_view(os: Seq<ContentOutput>) -> Seq<(Seq<char>, Seq<char>)> {
    os.map_values(|o: ContentOutput| (o.page_id@, o.rel_path@))
}

/// The output path of every content page of the site, in page order.
pub fn content_output_paths(site_model: &SiteModel) -> (r: Vec<ContentOutput>)
    ensures
        outputs_view(r@) == content_outputs(site_model.pages@.map_values(|p: SitePage| p@)),
{
    let ghost ps = site_model.pages@.map_values(|p: SitePage| p@);
    let mut r: Vec<ContentOutput> = Vec::new();
    let mut i: usize = 0;
    assert(ps.take(0) =~= Seq::<SitePageView>::empty());
    while i < site_model.pages.len()
        invariant
            i <= site_model.pages.len(),
            ps == site_model.pages@.map_values(|p: SitePage| p@),
            outputs_view(r@) == content_outputs(ps.take(i as int)),
        decreases site_model.pages.len() - i,
    {
        let page = &site_model.pages[i];
        assert(ps.take(i + 1).drop_last() =~= ps.take(i as int));
        assert(ps.take(i + 1).last() == page@);
        let ghost before = outputs_view(r@);
        match page.order_in_book {
            Some(order) => {
                let mut rel = copy_string(&page.owning_book_id);
                rel.append("/p");
                rel.append(format_padded4(order).as_str());
                rel.append(".html");
                r.push(ContentOutput { page_id: copy_string(&page.page_id), rel_path: rel });
                assert(outputs_view(r@) =~= before.push((page@.page_id, content_rel_path(page@, order))));
            },
            None => {},
        }
        i += 1;
    }
    assert(ps.take(site_model.pages.len() as int) =~= ps);
    r
}

fn find_output<'a>(outputs: &'a Vec<ContentOutput>, id: &str) -> (r: Option<&'a String>)
    ensures
        match r {
            Some(p) => output_of(outputs_view(outputs@), id@) == Some(p@),
            None => output_of(outputs_view(outputs@), id@) is None,
        },
{
    let ghost all = outputs_view(outputs@);
    let mut i = outputs.len();
    assert(all.take(i as int) =~= all);
    while i > 0
        invariant
            i <= outputs.len(),
            all == outputs_view(outputs@),
            output_of(all, id@) == output_of(all.take(i as int), id@),
        decreases i,
    {
        assert(all.take(i as int).drop_last() =~= all.take(i - 1));
        if str_eq(outputs[i - 1].page_id.as_str(), id) {
            return Some(&outputs[i - 1].rel_path);
        }
        i -= 1;
    }
    None
}

fn find_presentation<'a>(pres: &'a Vec<BookPresentation>, id: &str) -> (r: Option<&'a BookPresentation>)
    ensures
        match r {
            Some(p) => presentation_of(pres@.map_values(|q: BookPresentation| q@), id@) == Some(p@),
            None => presentation_of(pres@.map_values(|q: BookPresentation| q@), id@) is None,
        },
{
    let ghost all = pres@.map_values(|q: BookPresentation| q@);
    let mut i = pres.len();
    assert(all.take(i as int) =~= all);
    while i > 0
        invariant
            i <= pres.len(),
            all == pres@.map_values(|q: BookPresentation| q@),
            presentation_of(all, id@) == presentation_of(all.take(i as int), id@),
        decreases i,
    {
        assert(all.take(i as int).drop_last() =~= all.take(i - 1));
        if str_eq(pres[i - 1].book_id.as_str(), id) {
            return Some(&pres[i - 1]);
        }
        i -= 1;
    }
    None
}

fn language_string(p: &BookPresentation) -> (r: String)
    ensures
        r@ == language_of(p@),
{
    match &p.language {
        Some(l) => copy_string(l),
        None => string_from("en"),
    }
}

fn theme_string(p: &BookPresentation) -> (r: String)
    ensures
        r@ == theme_of(p@),
{
    match &p.default_theme {
        Some(t) => copy_string(t),
        None => string_from("light"),
    }
}

fn neighbour_link_html(outputs: &Vec<ContentOutput>, id: &Option<String>, previous: bool) -> (r: String)
    ensures
        r@ == neighbour_link(outputs_view(outputs@), opt_view(*id), previous),
{
    match id {
        None => String::new(),
        Some(i) => match find_output(outputs, i.as_str()) {
            None => String::new(),
            Some(path) => {
                let mut s = string_from("<a href=\"/");
                s.append(escape_html(path.as_str()).as_str());
                if previous {
                    s.append("\">Prev</a>");
                } else {
                    s.append("\">Next</a>");
                }
                s
            },
        },
    }
}

proof fn lemma_own_output(ps: Seq<SitePageView>, k: int)
    requires
        0 <= k < ps.len(),
        ps[k].order_in_book is Some,
    ensures
        output_of(content_outputs(ps), ps[k].page_id) is Some,
    decreases ps.len(),
{
    let front = ps.drop_last();
    let r = content_outputs(front);
    if k < ps.len() - 1 {
        assert(front[k] == ps[k]);
        lemma_own_output(front, k);
        match ps.last().order_in_book {
            Some(o) => {
                let x = (ps.last().page_id, content_rel_path(ps.last(), o));
                assert(r.push(x).drop_last() =~= r);
                assert(r.push(x).last() == x);
            },
            None => {},
        }
    } else {
        let o = ps.last().order_in_book->Some_0;
        let x = (ps.last().page_id, content_rel_path(ps.last(), o));
        assert(r.push(x).last() == x);
    }
}

/// The content page of page `k` of the site, given the site's content
/// outputs: its output path and HTML, none for a page outside the books,
/// or the error when its navigation or its book's presentation is missing.
pub fn content_page_html(
    site_model: &SiteModel,
    k: usize,
    navigation: &NavigationMetadata,
    outputs: &Vec<ContentOutput>,
    presentations: &Vec<BookPresentation>,
) -> (r: Result<Option<ContentPage>, HtmlSiteError>)
    requires
        k < site_model.pages.len(),
        outputs_view(outputs@) == content_outputs(site_model.pages@.map_values(|p: SitePage| p@)),
    ensures
        match content_page_spec(
            site_model.pages@.map_values(|p: SitePage| p@),
            k as int,
            navigation.entries(),
            presentations@.map_values(|q: BookPresentation| q@),
        ) {
            Ok(None) => r matches Ok(None),
            Ok(Some((path, html))) => r matches Ok(Some(c)) && c.rel_path@ == path && c.html@ == html,
            Err(v) => r matches Err(e) && e@ == v,
        },
{
    let page = &site_model.pages[k];
    let ghost ps = site_model.pages@.map_values(|p: SitePage| p@);
    assert(ps[k as int] == page@);
    let order = match page.order_in_book {
        None => {
            return Ok(None);
        },
        Some(o) => o,
    };
    proof {
        lemma_own_output(ps, k as int);
    }
    let rel_path = match find_output(outputs, page.page_id.as_str()) {
        Some(p) => copy_string(p),
        None => {
            return Ok(None);
        },
    };
    let nav_page = match navigation.for_page(page.page_id.as_str()) {
        None => {
            return Err(HtmlSiteError::MissingNavigation { page_id: copy_string(&page.page_id) });
        },
        Some(n) => n,
    };
    let pres = match find_presentation(presentations, page.owning_book_id.as_str()) {
        None => {
            return Err(HtmlSiteError::MissingProjectedConfig { book_id: copy_string(&page.owning_book_id) });
        },
        Some(p) => p,
    };
    let prev_link = neighbour_link_html(outputs, &nav_page.prev_page_id, true);
    let next_link = neighbour_link_html(outputs, &nav_page.next_page_id, false);
    let breadcrumb = match &nav_page.breadcrumb {
        Some(b) => copy_string(b),
        None => String::new(),
    };
    let title = escape_html(page.title.as_str());
    let mut html = string_from("<!doctype html><html lang=\"");
    html.append(escape_html(language_string(pres).as_str()).as_str());
    html.append("\"><head><meta charset=\"utf-8\"><title>");
    html.append(title.as_str());
    html.append("</title></head><body data-mdbook-default-theme=\"");
    html.append(escape_html(theme_string(pres).as_str()).as_str());
    html.append("\"><h1>");
    html.append(title.as_str());
    html.append("</h1><p>");
    html.append(escape_html(breadcrumb.as_str()).as_str());
    html.append("</p><p>Book ");
    html.append(escape_html(page.owning_book_id.as_str()).as_str());
    html.append("</p><p>Order ");
    html.append(format_decimal(order).as_str());
    html.append("</p><nav>");
    html.append(prev_link.as_str());
    html.append(" ");
    html.append(next_link.as_str());
    html.append("</nav></body></html>");
    Ok(Some(ContentPage { rel_path, html }))
}

fn book_item(book: &SiteBook, outputs: &Vec<ContentOutput>) -> (r: String)
    ensures
        r@ == book_item_html(book@, outputs_view(outputs@)),
{
    let mut first = string_from("/");
    if book.page_ids_in_order.len() > 0 {
        assert(book@.page_ids_in_order[0] == book.page_ids_in_order@[0]@);
        match find_output(outputs, book.page_ids_in_order[0].as_str()) {
            Some(p) => {
                first.append(p.as_str());
            },
            None => {},
        }
    }
    let mut s = string_from("<li data-book-id=\"");
    s.append(escape_html(book.book_id.as_str()).as_str());
    s.append("\"><a href=\"");
    s.append(escape_html(first.as_str()).as_str());
    s.append("\">");
    s.append(escape_html(book.title.as_str()).as_str());
    s.append("</a></li>");
    s
}

/// The root index of the site: one link per book to its first page, in
/// the root book's language and theme.
pub fn root_index_html(
    site_model: &SiteModel,
    outputs: &Vec<ContentOutput>,
    presentations: &Vec<BookPresentation>,
) -> (r: Result<String, HtmlSiteError>)
    requires
        outputs_view(outputs@) == content_outputs(site_model.pages@.map_values(|p: SitePage| p@)),
    ensures
        match root_index_spec(*site_model, presentations@.map_values(|q: BookPresentation| q@)) {
            Ok(h) => r matches Ok(s) && s@ == h,
            Err(v) => r matches Err(e) && e@ == v,
        },
{
    let ghost bs = site_model.books@.map_values(|b: SiteBook| b@);
    let mut items = String::new();
    let mut i: usize = 0;
    assert(bs.take(0) =~= Seq::<SiteBookView>::empty());
    while i < site_model.books.len()
        invariant
            i <= site_model.books.len(),
            bs == site_model.books@.map_values(|b: SiteBook| b@),
            items@ == book_items_html(bs.take(i as int), outputs_view(outputs@)),
        decreases site_model.books.len() - i,
    {
        assert(bs.take(i + 1).drop_last() =~= bs.take(i as int));
        assert(bs.take(i + 1).last() == site_model.books@[i as int]@);
        items.append(book_item(&site_model.books[i], outputs).as_str());
        i += 1;
    }
    assert(bs.take(site_model.books.len() as int) =~= bs);
    let pres = match find_presentation(presentations, site_model.root_book_id.as_str()) {
        None => {
            return Err(HtmlSiteError::MissingRootProjectedConfig);
        },
        Some(p) => p,
    };
    let mut html = string_from("<!doctype html><html lang=\"");
    html.append(escape_html(language_string(pres).as_str()).as_str());
    html.append(
        "\"><head><meta charset=\"utf-8\"><title>Bookshelf</title></head><body data-mdbook-default-theme=\"",
    );
    html.append(escape_html(theme_string(pres).as_str()).as_str());
    html.append("\"><h1>Bookshelf</h1><ul>");
    html.append(items.as_str());
    html.append("</ul></body></html>");
    Ok(html)
}

/// The text that describes the error.
pub open spec fn html_site_error_text(e: &HtmlSiteError) -> Seq<char> {
    match e {
        HtmlSiteError::MissingNavigation { page_id } => "missing navigation metadata for '"@ + page_id@ + "'"@,
        HtmlSiteError::MissingProjectedConfig { book_id } => "missing projected config for '"@ + book_id@ + "'"@,
        HtmlSiteError::MissingRootProjectedConfig => "missing projected config for root book"@,
    }
}

impl HtmlSiteError {
    /// The text that describes the error, for reports.
    pub fn message(&self) -> (r: String)
        ensures
            r@ == html_site_error_text(self),
    {
        match self {
            HtmlSiteError::MissingNavigation { page_id } => {
                let mut s = string_from("missing navigation metadata for '");
                s.append(page_id.as_str());
                s.append("'");
                s
            },
            HtmlSiteError::MissingProjectedConfig { book_id } => {
                let mut s = string_from("missing projected config for '");
                s.append(book_id.as_str());
                s.append("'");
                s
            },
            HtmlSiteError::MissingRootProjectedConfig => {
                let mut s = string_from("missing projected config for root book");
                s
            },
        }
    }
}

/// `t` occurs in `s` as a contiguous part.
pub open spec fn contains_text(s: Seq<char>, t: Seq<char>) -> bool {
    exists|i: int| 0 <= i && i + t.len() <= s.len() && #[trigger] s.subrange(i, i + t.len()) == t
}

proof fn lemma_contains_middle(a: Seq<char>, t: Seq<char>, b: Seq<char>)
    ensures
        contains_text(a + t + b, t),
{
    let s = a + t + b;
    assert(s.subrange(a.len() as int, (a.len() + t.len()) as int) =~= t);
}

/// Law: a content page links its neighbours: where the page's navigation
/// names a previous (next) page whose output path is `o`, the page holds
/// `<a href="/o">Prev</a>` (`Next`), `o` escaped.
pub proof fn lemma_content_page_links_neighbours(
    pages: Seq<SitePageView>,
    k: int,
    nav: Seq<PageNavigationView>,
    pres: Seq<PresentationView>,
)
    requires
        0 <= k < pages.len(),
    ensures
        match (content_page_spec(pages, k, nav, pres), entry_for(nav, pages[k].page_id)) {
            (Ok(Some((_, html))), Some(n)) => {
                &&& match n.prev_page_id {
                    Some(q) => match output_of(content_outputs(pages), q) {
                        Some(o) => contains_text(html, "<a href=\"/"@ + html_escaped(o) + "\">Prev</a>"@),
                        None => true,
                    },
                    None => true,
                }
                &&& match n.next_page_id {
                    Some(q) => match output_of(content_outputs(pages), q) {
                        Some(o) => contains_text(html, "<a href=\"/"@ + html_escaped(o) + "\">Next</a>"@),
                        None => true,
                    },
                    None => true,
                }
            },
            _ => true,
        },
{
    let p = pages[k];
    let os = content_outputs(pages);
    if let (Ok(Some((_, html))), Some(n)) = (content_page_spec(pages, k, nav, pres), entry_for(nav, p.page_id)) {
        let order = p.order_in_book->Some_0;
        let pr = presentation_of(pres, p.owning_book_id)->Some_0;
        let lang = language_of(pr);
        let theme = theme_of(pr);
        let title = p.title;
        let breadcrumb = match n.breadcrumb {
            Some(b) => b,
            None => Seq::empty(),
        };
        let book_id = p.owning_book_id;
        let prev = neighbour_link(os, n.prev_page_id, true);
        let next = neighbour_link(os, n.next_page_id, false);
        let a = "<!doctype html><html lang=\""@ + html_escaped(lang) + "\"><head><meta charset=\"utf-8\"><title>"@
            + html_escaped(title) + "</title></head><body data-mdbook-default-theme=\""@ + html_escaped(theme)
            + "\"><h1>"@ + html_escaped(title) + "</h1><p>"@ + html_escaped(breadcrumb) + "</p><p>Book "@
            + html_escaped(book_id) + "</p><p>Order "@ + decimal(order as nat) + "</p><nav>"@;
        let z = "</nav></body></html>"@;
        assert(html == content_html(lang, theme, title, breadcrumb, book_id, order, prev, next));
        assert(html =~= a + prev + (" "@ + next + z));
        lemma_contains_middle(a, prev, " "@ + next + z);
        assert(html =~= (a + prev + " "@) + next + z);
        lemma_contains_middle(a + prev + " "@, next, z);
    }
}

} // verus!
