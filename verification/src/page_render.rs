//! HTML of the site's pages: the Bookshelf page, and each authored page
//! with its sidebar, breadcrumbs and links to its neighbours.
use vstd::prelude::*;
use crate::text::string_from;
use crate::escape::{escape_html, html_escaped};
use crate::paths::join_path;
use crate::paths::path_join;
use crate::reader_context::{adjacent_opt, AdjacentPageLink, AdjacentView, AuthoredPageReaderContext};
use crate::reader_site::{ReaderSite, ShelfItem, ShelfItemView};
use crate::render_manifest::{
    authored_entry_index, synthetic_entry_index, EntryView, IdentityView, RenderManifest,
    RenderedPageIdentity, RenderedPageManifestEntry,
};
use crate::renderer::{blocks_html_from, headings_well_formed, relative_href, relative_href_spec, render_markdown};
use crate::sidebar::{first_sidebar, BookSidebar, SidebarAffixEntry, SidebarChapter, SidebarModel};
use crate::text::{copy_string, lines_of};

verus! {

/// Why the Bookshelf page could not be rendered.
#[derive(Debug, Clone, PartialEq, Eq)]
pub enum RenderBookshelfRootError {
    /// Writing the output failed.
    Io { path: String, message: String },
    /// The manifest has no entry for the Bookshelf page.
    MissingBookshelfManifestEntry { page_id: String },
    /// The manifest has no entry for the first page of a listed book.
    MissingShelfItemManifestEntry { book_id: String, source_path: String },
}

/// A Bookshelf rendering error as plain values.
pub enum RenderBookshelfRootErrorView {
    Io { path: Seq<char>, message: Seq<char> },
    MissingBookshelfManifestEntry { page_id: Seq<char> },
    MissingShelfItemManifestEntry { book_id: Seq<char>, source_path: Seq<char> },
}

impl View for RenderBookshelfRootError {
    type V = RenderBookshelfRootErrorView;

    open spec fn view(&self) -> RenderBookshelfRootErrorView {
        match self {
            RenderBookshelfRootError::Io { path, message } =>
                RenderBookshelfRootErrorView::Io { path: path@, message: message@ },
            RenderBookshelfRootError::MissingBookshelfManifestEntry { page_id } =>
                RenderBookshelfRootErrorView::MissingBookshelfManifestEntry { page_id: page_id@ },
            RenderBookshelfRootError::MissingShelfItemManifestEntry { book_id, source_path } =>
                RenderBookshelfRootErrorView::MissingShelfItemManifestEntry {
                book_id: book_id@,
                source_path: source_path@,
            },
        }
    }
}

/// Why the site could not be rendered.
#[derive(Debug, Clone, PartialEq, Eq)]
pub enum RenderSiteError {
    /// The Bookshelf page could not be rendered.
    BookshelfRoot(RenderBookshelfRootError),
    /// Reading a source or writing an output failed.
    Io { path: String, message: String },
    /// The manifest has no entry for an authored page.
    MissingAuthoredManifestEntry { source_path: String },
    /// The manifest has no entry for the Bookshelf page.
    MissingBookshelfManifestEntry { page_id: String },
    /// The manifest has no entry for the page before or after.
    MissingAdjacentManifestEntry { source_path: String },
    /// A book has no sidebar.
    MissingSidebar { book_id: String },
}

/// A site rendering error as plain values.
pub enum RenderSiteErrorView {
    BookshelfRoot(RenderBookshelfRootErrorView),
    Io { path: Seq<char>, message: Seq<char> },
    MissingAuthoredManifestEntry { source_path: Seq<char> },
    MissingBookshelfManifestEntry { page_id: Seq<char> },
    MissingAdjacentManifestEntry { source_path: Seq<char> },
    MissingSidebar { book_id: Seq<char> },
}

impl View for RenderSiteError {
    type V = RenderSiteErrorView;

    open spec fn view(&self) -> RenderSiteErrorView {
        match self {
            RenderSiteError::BookshelfRoot(e) => RenderSiteErrorView::BookshelfRoot(e@),
            RenderSiteError::Io { path, message } => RenderSiteErrorView::Io { path: path@, message: message@ },
            RenderSiteError::MissingAuthoredManifestEntry { source_path } =>
                RenderSiteErrorView::MissingAuthoredManifestEntry { source_path: source_path@ },
            RenderSiteError::MissingBookshelfManifestEntry { page_id } =>
                RenderSiteErrorView::MissingBookshelfManifestEntry { page_id: page_id@ },
            RenderSiteError::MissingAdjacentManifestEntry { source_path } =>
                RenderSiteErrorView::MissingAdjacentManifestEntry { source_path: source_path@ },
            RenderSiteError::MissingSidebar { book_id } => RenderSiteErrorView::MissingSidebar { book_id: book_id@ },
        }
    }
}

/// The href of a manifest entry as listed on the Bookshelf page: empty
/// for a synthetic page, the output path for an authored one.
pub open spec fn href_of(e: EntryView) -> Seq<char> {
    match e.identity {
        IdentityView::SyntheticPage { .. } => Seq::empty(),
        IdentityView::AuthoredPage { .. } => e.output_path,
    }
}

/// The href of a manifest entry.
pub fn render_href(manifest_entry: &RenderedPageManifestEntry) -> (href: String)
    ensures
        href@ == href_of(manifest_entry@),
{
    match &manifest_entry.identity {
        RenderedPageIdentity::SyntheticPage { .. } => String::new(),
        RenderedPageIdentity::AuthoredPage { .. } => copy_string(&manifest_entry.output_path),
    }
}

/// The list item of one book on the Bookshelf page.
pub open spec fn shelf_item_html(href: Seq<char>, title: Seq<char>, description: Option<Seq<char>>) -> Seq<char> {
    "<li class=\"bookshelf-item\"><a class=\"bookshelf-link\" href=\""@ + html_escaped(href)
        + "\"><span class=\"bookshelf-link-title\">"@ + html_escaped(title)
        + "</span><span class=\"bookshelf-link-description\">"@ + match description {
        Some(d) => html_escaped(d),
        None => Seq::empty(),
    } + "</span></a></li>"@
}

/// The list items of the first `n` shelf items, or the first item whose
/// page the manifest lacks.
pub open spec fn shelf_items_html(items: Seq<ShelfItemView>, m: Seq<RenderedPageManifestEntry>, n: int) -> Result<
    Seq<char>,
    RenderBookshelfRootErrorView,
>
    decreases n,
{
    if n <= 0 {
        Ok(Seq::empty())
    } else {
        match shelf_items_html(items, m, n - 1) {
            Err(e) => Err(e),
            Ok(markup) => {
                let item = items[n - 1];
                match authored_entry_index(m, item.target_source_path) {
                    None => Err(
                        RenderBookshelfRootErrorView::MissingShelfItemManifestEntry {
                            book_id: item.book_id,
                            source_path: item.target_source_path,
                        },
                    ),
                    Some(i) => Ok(markup + shelf_item_html(href_of(m[i]@), item.title, item.description)),
                }
            },
        }
    }
}

/// The HTML of the Bookshelf page around its list items.
pub open spec fn bookshelf_page_html(title: Seq<char>, items: Seq<char>) -> Seq<char> {
    "<!DOCTYPE html><html lang=\"en\"><head><meta charset=\"utf-8\"><title>"@ + html_escaped(title)
        + "</title></head><body><div id=\"page-wrapper\" class=\"page-wrapper\"><main id=\"content\" class=\"content\" role=\"main\"><h1>"@
        + html_escaped(title) + "</h1><ul class=\"bookshelf-grid\">"@ + items
        + "</ul></main></div></body></html>"@
}

/// The HTML of the Bookshelf page of `site`, or the first book whose page
/// the manifest lacks.
pub open spec fn bookshelf_html_spec(site: ReaderSite, m: Seq<RenderedPageManifestEntry>) -> Result<
    Seq<char>,
    RenderBookshelfRootErrorView,
> {
    let items = site.bookshelf_page.shelf_items@.map_values(|s: ShelfItem| s@);
    match shelf_items_html(items, m, items.len() as int) {
        Err(e) => Err(e),
        Ok(markup) => Ok(bookshelf_page_html(site.bookshelf_page.title@, markup)),
    }
}

/// Renders the Bookshelf page: one link per listed book, to the page that
/// the manifest has for the book's first page. The site's source paths are
/// canonical, so they are looked up as they are.
pub fn render_bookshelf_html(site_model: &ReaderSite, render_manifest: &RenderManifest) -> (r: Result<
    String,
    RenderBookshelfRootError,
>)
    ensures
        match bookshelf_html_spec(*site_model, render_manifest.entries@) {
            Ok(h) => r matches Ok(s) && s@ == h,
            Err(v) => r matches Err(e) && e@ == v,
        },
{
    let ghost items = site_model.bookshelf_page.shelf_items@.map_values(|s: ShelfItem| s@);
    let ghost m = render_manifest.entries@;
    let mut markup = String::new();
    let mut k: usize = 0;
    while k < site_model.bookshelf_page.shelf_items.len()
        invariant
            k <= site_model.bookshelf_page.shelf_items.len(),
            items == site_model.bookshelf_page.shelf_items@.map_values(|s: ShelfItem| s@),
            m == render_manifest.entries@,
            shelf_items_html(items, m, k as int) == Ok::<Seq<char>, RenderBookshelfRootErrorView>(markup@),
        decreases site_model.bookshelf_page.shelf_items.len() - k,
    {
        let item = &site_model.bookshelf_page.shelf_items[k];
        assert(items[k as int] == item@);
        let entry = match render_manifest.authored_entry_for_source_path(item.target_source_path.as_str()) {
            None => {
                proof {
                    lemma_shelf_err_propagates(items, m, k as int + 1, items.len() as int);
                }
                return Err(
                    RenderBookshelfRootError::MissingShelfItemManifestEntry {
                        book_id: copy_string(&item.book_id),
                        source_path: copy_string(&item.target_source_path),
                    },
                );
            },
            Some(e) => e,
        };
        let href = render_href(entry);
        let ghost before = markup@;
        markup.append("<li class=\"bookshelf-item\"><a class=\"bookshelf-link\" href=\"");
        markup.append(escape_html(href.as_str()).as_str());
        markup.append("\"><span class=\"bookshelf-link-title\">");
        markup.append(escape_html(item.title.as_str()).as_str());
        markup.append("</span><span class=\"bookshelf-link-description\">");
        match &item.description {
            Some(d) => {
                markup.append(escape_html(d.as_str()).as_str());
            },
            None => {},
        }
        markup.append("</span></a></li>");
        proof {
            let sub = match item@.description {
                Some(d) => html_escaped(d),
                None => Seq::empty(),
            };
            assert(shelf_item_html(href@, item@.title, item@.description) =~= "<li class=\"bookshelf-item\"><a class=\"bookshelf-link\" href=\""@
                + html_escaped(href@) + "\"><span class=\"bookshelf-link-title\">"@ + html_escaped(item@.title)
                + "</span><span class=\"bookshelf-link-description\">"@ + sub + "</span></a></li>"@);
            assert(markup@ =~= before + shelf_item_html(href@, item@.title, item@.description));
        }
        k += 1;
    }
    let mut html = String::new();
    let title = escape_html(site_model.bookshelf_page.title.as_str());
    html.append("<!DOCTYPE html><html lang=\"en\"><head><meta charset=\"utf-8\"><title>");
    html.append(title.as_str());
    html.append(
        "</title></head><body><div id=\"page-wrapper\" class=\"page-wrapper\"><main id=\"content\" class=\"content\" role=\"main\"><h1>",
    );
    html.append(title.as_str());
    html.append("</h1><ul class=\"bookshelf-grid\">");
    html.append(markup.as_str());
    html.append("</ul></main></div></body></html>");
    Ok(html)
}

proof fn lemma_shelf_err_propagates(items: Seq<ShelfItemView>, m: Seq<RenderedPageManifestEntry>, a: int, b: int)
    requires
        0 <= a <= b,
        shelf_items_html(items, m, a) is Err,
    ensures
        shelf_items_html(items, m, b) == shelf_items_html(items, m, a),
    decreases b - a,
{
    if a < b {
        lemma_shelf_err_propagates(items, m, a, b - 1);
    }
}

/// The Bookshelf page's output path under `output_dir`, or the error when
/// the manifest has no entry for it.
pub fn bookshelf_root_output_path(output_dir: &str, site_model: &ReaderSite, render_manifest: &RenderManifest) -> (r: Result<
    String,
    RenderBookshelfRootError,
>)
    ensures
        match synthetic_entry_index(render_manifest.entries@, site_model.bookshelf_page.page_id@) {
            Some(i) => r matches Ok(p) && p@ == path_join(output_dir@, render_manifest.entries@[i].output_path@),
            None => r matches Err(e) && e@ == (RenderBookshelfRootErrorView::MissingBookshelfManifestEntry {
                page_id: site_model.bookshelf_page.page_id@,
            }),
        },
{
    match render_manifest.entry_for_page_id(site_model.bookshelf_page.page_id.as_str()) {
        None => Err(
            RenderBookshelfRootError::MissingBookshelfManifestEntry {
                page_id: copy_string(&site_model.bookshelf_page.page_id),
            },
        ),
        Some(entry) => Ok(join_path(output_dir, entry.output_path.as_str())),
    }
}

/// The links above the chapters, each to the Bookshelf page.
pub open spec fn affix_links(es: Seq<SidebarAffixEntry>, href: Seq<char>) -> Seq<char>
    decreases es.len(),
{
    if es.len() == 0 {
        Seq::empty()
    } else {
        affix_links(es.drop_last(), href) + "<a class=\"affix\" href=\""@ + html_escaped(href) + "\">"@
            + html_escaped(es.last().title@) + "</a>"@
    }
}

/// The block of links above the chapters: none when there are no entries.
pub open spec fn affixes_html(es: Seq<SidebarAffixEntry>, current: Seq<char>, bookshelf: Seq<char>) -> Seq<char> {
    if es.len() == 0 {
        Seq::empty()
    } else {
        "<div class=\"sidebar-affix\">"@ + affix_links(es, relative_href_spec(current, bookshelf)) + "</div>"@
    }
}

/// Renders the links above a sidebar's chapters, each to the Bookshelf
/// page relative to the current page.
pub fn render_sidebar_affixes(
    affix_entries: &Vec<SidebarAffixEntry>,
    current_output_path: &str,
    bookshelf_output_path: &str,
) -> (markup: String)
    ensures
        markup@ == affixes_html(affix_entries@, current_output_path@, bookshelf_output_path@),
{
    if affix_entries.len() == 0 {
        return String::new();
    }
    let href = escape_html(relative_href(current_output_path, bookshelf_output_path).as_str());
    let mut links = String::new();
    let mut i: usize = 0;
    while i < affix_entries.len()
        invariant
            i <= affix_entries.len(),
            href@ == html_escaped(relative_href_spec(current_output_path@, bookshelf_output_path@)),
            links@ == affix_links(affix_entries@.take(i as int), relative_href_spec(current_output_path@, bookshelf_output_path@)),
        decreases affix_entries.len() - i,
    {
        assert(affix_entries@.take(i + 1).drop_last() =~= affix_entries@.take(i as int));
        links.append("<a class=\"affix\" href=\"");
        links.append(href.as_str());
        links.append("\">");
        links.append(escape_html(affix_entries[i].title.as_str()).as_str());
        links.append("</a>");
        i += 1;
    }
    assert(affix_entries@.take(affix_entries.len() as int) =~= affix_entries@);
    let mut markup = String::new();
    markup.append("<div class=\"sidebar-affix\">");
    markup.append(links.as_str());
    markup.append("</div>");
    markup
}

/// The list item of one chapter.
pub open spec fn chapter_item_html(href: Seq<char>, title: Seq<char>, children: Seq<char>) -> Seq<char> {
    "<li class=\"chapter-item\"><a href=\""@ + html_escaped(href) + "\">"@ + html_escaped(title) + "</a>"@
        + (if children.len() == 0 {
        Seq::empty()
    } else {
        "<ol class=\"section\">"@ + children + "</ol>"@
    }) + "</li>"@
}

/// Prepends `s` to a rendered result.
pub open spec fn prepend<E>(s: Seq<char>, r: Result<Seq<char>, E>) -> Result<Seq<char>, E> {
    match r {
        Ok(t) => Ok(s + t),
        Err(e) => Err(e),
    }
}

/// The list items of a chapter forest, each linking to its page relative
/// to `current`, or the first chapter whose page the manifest lacks.
pub open spec fn chapters_html(cs: Seq<SidebarChapter>, current: Seq<char>, m: Seq<RenderedPageManifestEntry>) -> Result<
    Seq<char>,
    RenderSiteErrorView,
>
    decreases cs,
{
    if cs.len() == 0 {
        Ok(Seq::empty())
    } else {
        let c = cs[0];
        match authored_entry_index(m, c.source_path@) {
            None => Err(RenderSiteErrorView::MissingAuthoredManifestEntry { source_path: c.source_path@ }),
            Some(i) => match chapters_html(c.children@, current, m) {
                Err(e) => Err(e),
                Ok(children) => prepend(
                    chapter_item_html(relative_href_spec(current, m[i].output_path@), c.title@, children),
                    chapters_html(cs.subrange(1, cs.len() as int), current, m),
                ),
            },
        }
    }
}

/// Renders a sidebar's chapter tree as nested lists.
pub fn render_sidebar_chapters(
    chapters: &Vec<SidebarChapter>,
    current_output_path: &str,
    render_manifest: &RenderManifest,
) -> (r: Result<String, RenderSiteError>)
    ensures
        match chapters_html(chapters@, current_output_path@, render_manifest.entries@) {
            Ok(h) => r matches Ok(s) && s@ == h,
            Err(v) => r matches Err(e) && e@ == v,
        },
    decreases chapters@,
{
    let ghost all = chapters@;
    let ghost m = render_manifest.entries@;
    let mut markup = String::new();
    let mut i: usize = 0;
    assert(all.subrange(0, all.len() as int) =~= all);
    assert(markup@ + Seq::<char>::empty() =~= Seq::<char>::empty());
    while i < chapters.len()
        invariant
            i <= chapters.len(),
            all == chapters@,
            m == render_manifest.entries@,
            chapters_html(all, current_output_path@, m) == prepend(
                markup@,
                chapters_html(all.subrange(i as int, all.len() as int), current_output_path@, m),
            ),
        decreases chapters.len() - i,
    {
        let ghost rest = all.subrange(i as int, all.len() as int);
        assert(rest[0] == all[i as int]);
        assert(rest.subrange(1, rest.len() as int) =~= all.subrange(i + 1, all.len() as int));
        let chapter = &chapters[i];
        let entry = match render_manifest.authored_entry_for_source_path(chapter.source_path.as_str()) {
            None => {
                return Err(
                    RenderSiteError::MissingAuthoredManifestEntry { source_path: copy_string(&chapter.source_path) },
                );
            },
            Some(e) => e,
        };
        let href = relative_href(current_output_path, entry.output_path.as_str());
        assert(decreases_to!(chapters@ => chapter.children@));
        let children = match render_sidebar_chapters(&chapter.children, current_output_path, render_manifest) {
            Err(e) => {
                return Err(e);
            },
            Ok(c) => c,
        };
        let ghost before = markup@;
        markup.append("<li class=\"chapter-item\"><a href=\"");
        markup.append(escape_html(href.as_str()).as_str());
        markup.append("\">");
        markup.append(escape_html(chapter.title.as_str()).as_str());
        markup.append("</a>");
        if children.as_str().unicode_len() > 0 {
            markup.append("<ol class=\"section\">");
            markup.append(children.as_str());
            markup.append("</ol>");
        }
        markup.append("</li>");
        proof {
            let item = chapter_item_html(href@, chapter.title@, children@);
            assert(markup@ =~= before + item);
            let tail = chapters_html(all.subrange(i + 1, all.len() as int), current_output_path@, m);
            match tail {
                Ok(t) => {
                    assert(before + (item + t) =~= markup@ + t);
                },
                Err(_) => {},
            }
        }
        i += 1;
    }
    proof {
        assert(all.subrange(i as int, all.len() as int) =~= Seq::<SidebarChapter>::empty());
        assert(markup@ + Seq::<char>::empty() =~= markup@);
    }
    Ok(markup)
}

/// The link to the page before (`previous`) or after.
pub open spec fn nav_link_html(previous: bool, href: Seq<char>) -> Seq<char> {
    if previous {
        "<a class=\"nav-chapter previous\" href=\""@ + html_escaped(href) + "\">Previous</a>"@
    } else {
        "<a class=\"nav-chapter next\" href=\""@ + html_escaped(href) + "\">Next</a>"@
    }
}

/// The link to an adjacent page, relative to `current`: none without a
/// neighbour, an error when the manifest lacks the neighbour's page.
pub open spec fn adjacent_html(
    link: Option<AdjacentView>,
    m: Seq<RenderedPageManifestEntry>,
    current: Seq<char>,
    previous: bool,
) -> Result<Seq<char>, RenderSiteErrorView> {
    match link {
        None => Ok(Seq::empty()),
        Some(l) => match authored_entry_index(m, l.source_path) {
            None => Err(RenderSiteErrorView::MissingAdjacentManifestEntry { source_path: l.source_path }),
            Some(i) => Ok(nav_link_html(previous, relative_href_spec(current, m[i].output_path@))),
        },
    }
}

/// The HTML of an authored page from its parts.
pub open spec fn authored_page_html(
    title: Seq<char>,
    affixes: Seq<char>,
    chapters: Seq<char>,
    bookshelf_href: Seq<char>,
    book_title: Seq<char>,
    page_title: Seq<char>,
    content: Seq<char>,
    previous: Seq<char>,
    next: Seq<char>,
) -> Seq<char> {
    "<!DOCTYPE html><html lang=\"en\"><head><meta charset=\"utf-8\"><title>"@ + html_escaped(title)
        + "</title></head><body><div id=\"page-wrapper\" class=\"page-wrapper\"><nav id=\"sidebar\" class=\"sidebar\"><div class=\"sidebar-scrollbox\">"@
        + affixes + "<ol class=\"chapter\">"@ + chapters
        + "</ol></div></nav><main id=\"content\" class=\"content\" role=\"main\"><div class=\"menu-bar\"><a class=\"bookshelf-return\" href=\""@
        + html_escaped(bookshelf_href) + "\">Bookshelf</a></div><nav class=\"breadcrumbs\">"@ + html_escaped(
        book_title,
    ) + " / "@ + html_escaped(page_title) + "</nav><div class=\"page\">"@ + content
        + "</div><div class=\"nav-wrapper\">"@ + previous + next + "</div></main></div></body></html>"@
}

/// The HTML of the authored page of `ctx`, written to `current`, whose
/// Markdown source is `markdown`; or the first page the manifest lacks.
pub open spec fn authored_page_html_spec(
    ctx: AuthoredPageReaderContext,
    sidebar: BookSidebar,
    m: Seq<RenderedPageManifestEntry>,
    current: Seq<char>,
    bookshelf_page_id: Seq<char>,
    markdown: Seq<char>,
) -> Result<Seq<char>, RenderSiteErrorView> {
    match synthetic_entry_index(m, bookshelf_page_id) {
        None => Err(RenderSiteErrorView::MissingBookshelfManifestEntry { page_id: bookshelf_page_id }),
        Some(b) => {
            let bookshelf = m[b].output_path@;
            match chapters_html(sidebar.chapter_entries@, current, m) {
                Err(e) => Err(e),
                Ok(chapters) => match adjacent_html(adjacent_opt(ctx.previous_page), m, current, true) {
                    Err(e) => Err(e),
                    Ok(previous) => match adjacent_html(adjacent_opt(ctx.next_page), m, current, false) {
                        Err(e) => Err(e),
                        Ok(next) => Ok(
                            authored_page_html(
                                ctx.page_title@,
                                affixes_html(sidebar.affix_entries@, current, bookshelf),
                                chapters,
                                relative_href_spec(current, bookshelf),
                                ctx.breadcrumbs.book_title@,
                                ctx.breadcrumbs.page_title@,
                                blocks_html_from(lines_of(markdown), 0),
                                previous,
                                next,
                            ),
                        ),
                    },
                },
            }
        },
    }
}

fn adjacent_link_html(
    link: &Option<AdjacentPageLink>,
    render_manifest: &RenderManifest,
    current_output_path: &str,
    previous: bool,
) -> (r: Result<String, RenderSiteError>)
    ensures
        match adjacent_html(adjacent_opt(*link), render_manifest.entries@, current_output_path@, previous) {
            Ok(h) => r matches Ok(s) && s@ == h,
            Err(v) => r matches Err(e) && e@ == v,
        },
{
    match link {
        None => Ok(String::new()),
        Some(l) => {
            let entry = match render_manifest.authored_entry_for_source_path(l.source_path.as_str()) {
                None => {
                    return Err(
                        RenderSiteError::MissingAdjacentManifestEntry { source_path: copy_string(&l.source_path) },
                    );
                },
                Some(e) => e,
            };
            let href = escape_html(relative_href(current_output_path, entry.output_path.as_str()).as_str());
            let mut s = String::new();
            if previous {
                s.append("<a class=\"nav-chapter previous\" href=\"");
                s.append(href.as_str());
                s.append("\">Previous</a>");
            } else {
                s.append("<a class=\"nav-chapter next\" href=\"");
                s.append(href.as_str());
                s.append("\">Next</a>");
            }
            Ok(s)
        },
    }
}

/// Renders an authored page from its Markdown source: the page's sidebar,
/// a link back to the Bookshelf page, its breadcrumbs, its content and the
/// links to the pages before and after it.
pub fn render_authored_page_html(
    context: &AuthoredPageReaderContext,
    sidebar: &BookSidebar,
    render_manifest: &RenderManifest,
    current_entry: &RenderedPageManifestEntry,
    bookshelf_page_id: &str,
    markdown: &str,
) -> (r: Result<String, RenderSiteError>)
    requires
        headings_well_formed(lines_of(markdown@)),
    ensures
        match authored_page_html_spec(
            *context,
            *sidebar,
            render_manifest.entries@,
            current_entry.output_path@,
            bookshelf_page_id@,
            markdown@,
        ) {
            Ok(h) => r matches Ok(s) && s@ == h,
            Err(v) => r matches Err(e) && e@ == v,
        },
{
    let content_html = render_markdown(markdown);
    let bookshelf_entry = match render_manifest.entry_for_page_id(bookshelf_page_id) {
        None => {
            return Err(
                RenderSiteError::MissingBookshelfManifestEntry { page_id: crate::text::string_from(bookshelf_page_id) },
            );
        },
        Some(e) => e,
    };
    let current = current_entry.output_path.as_str();
    let bookshelf_href = relative_href(current, bookshelf_entry.output_path.as_str());
    let sidebar_affixes = render_sidebar_affixes(&sidebar.affix_entries, current, bookshelf_entry.output_path.as_str());
    let sidebar_chapters = match render_sidebar_chapters(&sidebar.chapter_entries, current, render_manifest) {
        Err(e) => {
            return Err(e);
        },
        Ok(c) => c,
    };
    let previous_link = match adjacent_link_html(&context.previous_page, render_manifest, current, true) {
        Err(e) => {
            return Err(e);
        },
        Ok(l) => l,
    };
    let next_link = match adjacent_link_html(&context.next_page, render_manifest, current, false) {
        Err(e) => {
            return Err(e);
        },
        Ok(l) => l,
    };
    let mut html = String::new();
    html.append("<!DOCTYPE html><html lang=\"en\"><head><meta charset=\"utf-8\"><title>");
    html.append(escape_html(context.page_title.as_str()).as_str());
    html.append(
        "</title></head><body><div id=\"page-wrapper\" class=\"page-wrapper\"><nav id=\"sidebar\" class=\"sidebar\"><div class=\"sidebar-scrollbox\">",
    );
    html.append(sidebar_affixes.as_str());
    html.append("<ol class=\"chapter\">");
    html.append(sidebar_chapters.as_str());
    html.append(
        "</ol></div></nav><main id=\"content\" class=\"content\" role=\"main\"><div class=\"menu-bar\"><a class=\"bookshelf-return\" href=\"",
    );
    html.append(escape_html(bookshelf_href.as_str()).as_str());
    html.append("\">Bookshelf</a></div><nav class=\"breadcrumbs\">");
    html.append(escape_html(context.breadcrumbs.book_title.as_str()).as_str());
    html.append(" / ");
    html.append(escape_html(context.breadcrumbs.page_title.as_str()).as_str());
    html.append("</nav><div class=\"page\">");
    html.append(content_html.as_str());
    html.append("</div><div class=\"nav-wrapper\">");
    html.append(previous_link.as_str());
    html.append(next_link.as_str());
    html.append("</div></main></div></body></html>");
    Ok(html)
}

/// Where an authored page is written under `output_dir`, the sidebar of
/// its book and its manifest entry; or the first of these that is missing.
pub fn authored_page_target<'a>(
    output_dir: &str,
    context: &AuthoredPageReaderContext,
    sidebar_model: &'a SidebarModel,
    render_manifest: &'a RenderManifest,
) -> (r: Result<(String, &'a BookSidebar, &'a RenderedPageManifestEntry), RenderSiteError>)
    ensures
        match authored_entry_index(render_manifest.entries@, context.source_path@) {
            None => r matches Err(e) && e@ == (RenderSiteErrorView::MissingAuthoredManifestEntry {
                source_path: context.source_path@,
            }),
            Some(i) => match first_sidebar(sidebar_model.sidebars@, context.active_book.book_id@) {
                None => r matches Err(e) && e@ == (RenderSiteErrorView::MissingSidebar {
                    book_id: context.active_book.book_id@,
                }),
                Some(sb) => r matches Ok(t) && t.0@ == path_join(
                    output_dir@,
                    render_manifest.entries@[i].output_path@,
                ) && *t.1 == sb && *t.2 == render_manifest.entries@[i],
            },
        },
{
    let entry = match render_manifest.authored_entry_for_source_path(context.source_path.as_str()) {
        None => {
            return Err(
                RenderSiteError::MissingAuthoredManifestEntry { source_path: copy_string(&context.source_path) },
            );
        },
        Some(e) => e,
    };
    let sidebar = match sidebar_model.sidebar_for(context.active_book.book_id.as_str()) {
        None => {
            return Err(RenderSiteError::MissingSidebar { book_id: copy_string(&context.active_book.book_id) });
        },
        Some(s) => s,
    };
    Ok((join_path(output_dir, entry.output_path.as_str()), sidebar, entry))
}

/// The text that describes the error.
pub open spec fn bookshelf_root_error_text(e: &RenderBookshelfRootError) -> Seq<char> {
    match e {
        RenderBookshelfRootError::Io { path, message } => "failed to write bookshelf root output at "@ + path@ + ": "@ + message@,
        RenderBookshelfRootError::MissingBookshelfManifestEntry { page_id } => "render manifest is missing synthetic Bookshelf page `"@ + page_id@ + "`"@,
        RenderBookshelfRootError::MissingShelfItemManifestEntry { book_id, source_path } => "render manifest is missing the root authored page "@ + source_path@ + " for bookshelf book `"@ + book_id@ + "`"@,
    }
}

impl RenderBookshelfRootError {
    /// The text that describes the error, for reports.
    pub fn message(&self) -> (r: String)
        ensures
            r@ == bookshelf_root_error_text(self),
    {
        match self {
            RenderBookshelfRootError::Io { path, message } => {
                let mut s = string_from("failed to write bookshelf root output at ");
                s.append(path.as_str());
                s.append(": ");
                s.append(message.as_str());
                s
            },
            RenderBookshelfRootError::MissingBookshelfManifestEntry { page_id } => {
                let mut s = string_from("render manifest is missing synthetic Bookshelf page `");
                s.append(page_id.as_str());
                s.append("`");
                s
            },
            RenderBookshelfRootError::MissingShelfItemManifestEntry { book_id, source_path } => {
                let mut s = string_from("render manifest is missing the root authored page ");
                s.append(source_path.as_str());
                s.append(" for bookshelf book `");
                s.append(book_id.as_str());
                s.append("`");
                s
            },
        }
    }
}

/// The text that describes the error.
pub open spec fn render_site_error_text(e: &RenderSiteError) -> Seq<char> {
    match e {
        RenderSiteError::BookshelfRoot(error) => bookshelf_root_error_text(error),
        RenderSiteError::Io { path, message } => "failed to render authored page output at "@ + path@ + ": "@ + message@,
        RenderSiteError::MissingAuthoredManifestEntry { source_path } => "render manifest is missing authored page output for "@ + source_path@,
        RenderSiteError::MissingBookshelfManifestEntry { page_id } => "render manifest is missing synthetic Bookshelf page `"@ + page_id@ + "`"@,
        RenderSiteError::MissingAdjacentManifestEntry { source_path } => "render manifest is missing adjacent authored page output for "@ + source_path@,
        RenderSiteError::MissingSidebar { book_id } => "sidebar model is missing sidebar data for book `"@ + book_id@ + "`"@,
    }
}

impl RenderSiteError {
    /// The text that describes the error, for reports.
    pub fn message(&self) -> (r: String)
        ensures
            r@ == render_site_error_text(self),
    {
        match self {
            RenderSiteError::BookshelfRoot(error) => {
                error.message()
            },
            RenderSiteError::Io { path, message } => {
                let mut s = string_from("failed to render authored page output at ");
                s.append(path.as_str());
                s.append(": ");
                s.append(message.as_str());
                s
            },
            RenderSiteError::MissingAuthoredManifestEntry { source_path } => {
                let mut s = string_from("render manifest is missing authored page output for ");
                s.append(source_path.as_str());
                s
            },
            RenderSiteError::MissingBookshelfManifestEntry { page_id } => {
                let mut s = string_from("render manifest is missing synthetic Bookshelf page `");
                s.append(page_id.as_str());
                s.append("`");
                s
            },
            RenderSiteError::MissingAdjacentManifestEntry { source_path } => {
                let mut s = string_from("render manifest is missing adjacent authored page output for ");
                s.append(source_path.as_str());
                s
            },
            RenderSiteError::MissingSidebar { book_id } => {
                let mut s = string_from("sidebar model is missing sidebar data for book `");
                s.append(book_id.as_str());
                s.append("`");
                s
            },
        }
    }
}

} // verus!
