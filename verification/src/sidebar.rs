//! Sidebars: for every book its chapters as a tree built from the pages'
//! summary depths, and for the root book a link back to the Bookshelf page.
use vstd::prelude::*;
use crate::reader_site::{page_views_of, AuthoredPage, AuthoredPageView, ReaderBook, ReaderSite};
use crate::text::{copy_string, str_eq};

verus! {

/// The sidebars of all books.
#[derive(Debug, PartialEq, Eq)]
pub struct SidebarModel {
    pub sidebars: Vec<BookSidebar>,
}

/// The sidebar of one book.
#[derive(Debug, PartialEq, Eq)]
pub struct BookSidebar {
    pub book_id: String,
    pub affix_entries: Vec<SidebarAffixEntry>,
    pub chapter_entries: Vec<SidebarChapter>,
}

/// A link above the chapters of a sidebar.
#[derive(Debug, Clone, PartialEq, Eq)]
pub struct SidebarAffixEntry {
    pub title: String,
    pub target_page_id: String,
    pub target_route_path: String,
}

/// A chapter of a sidebar and the chapters nested under it.
#[derive(Debug, PartialEq, Eq)]
pub struct SidebarChapter {
    pub title: String,
    pub source_path: String,
    pub summary_depth: usize,
    pub children: Vec<SidebarChapter>,
}

/// A chapter without its children, as plain values.
pub struct SidebarEntryView {
    pub title: Seq<char>,
    pub source_path: Seq<char>,
    pub summary_depth: usize,
}

/// The entry of a chapter.
pub open spec fn chapter_entry(c: SidebarChapter) -> SidebarEntryView {
    SidebarEntryView { title: c.title@, source_path: c.source_path@, summary_depth: c.summary_depth }
}

/// The entry that a page becomes.
pub open spec fn page_entry(p: AuthoredPageView) -> SidebarEntryView {
    SidebarEntryView { title: p.title, source_path: p.source_path, summary_depth: p.summary_depth }
}

/// The entries of pages.
pub open spec fn page_entries(ps: Seq<AuthoredPageView>) -> Seq<SidebarEntryView> {
    ps.map_values(|p: AuthoredPageView| page_entry(p))
}

/// The chapters of a forest read in document order: each chapter, then
/// the chapters under it, then its next sibling.
pub open spec fn flat(cs: Seq<SidebarChapter>) -> Seq<SidebarEntryView>
    decreases cs,
{
    if cs.len() == 0 {
        Seq::empty()
    } else {
        seq![chapter_entry(cs[0])] + flat(cs[0].children@) + flat(cs.subrange(1, cs.len() as int))
    }
}

/// Every chapter of the forest has the summary depth of its nesting level,
/// the top level being `depth`.
pub open spec fn nested_at(cs: Seq<SidebarChapter>, depth: int) -> bool
    decreases cs,
{
    if cs.len() == 0 {
        true
    } else {
        &&& cs[0].summary_depth == depth
        &&& nested_at(cs[0].children@, depth + 1)
        &&& nested_at(cs.subrange(1, cs.len() as int), depth)
    }
}

/// A chapter and the chapters nested under it, as plain values.
pub struct ChapterTree {
    pub entry: SidebarEntryView,
    pub children: Seq<ChapterTree>,
}

/// A chapter forest as plain values.
pub open spec fn trees(cs: Seq<SidebarChapter>) -> Seq<ChapterTree>
    decreases cs,
{
    if cs.len() == 0 {
        Seq::empty()
    } else {
        seq![ChapterTree { entry: chapter_entry(cs[0]), children: trees(cs[0].children@) }] + trees(
            cs.subrange(1, cs.len() as int),
        )
    }
}

/// The chapters of one nesting level built from page `i` on, after the
/// chapters `acc` already built: a page deeper than `depth` that follows a
/// chapter of this level becomes, with the pages after it down to its own
/// depth, the new children of that chapter (replacing any it had); any
/// other page at least as deep as `depth` becomes a chapter, whose children
/// are built from the next page when that one is deeper; a page shallower
/// than `depth` ends the level.
pub open spec fn level_trees(ps: Seq<AuthoredPageView>, i: int, depth: int, acc: Seq<ChapterTree>) -> Seq<ChapterTree>
    decreases ps.len() - i, (if 0 <= i < ps.len() && ps[i].summary_depth > depth && acc.len() > 0 {
        1int
    } else {
        0int
    }),
{
    if i < 0 || i >= ps.len() || ps[i].summary_depth < depth {
        acc
    } else {
        let d = ps[i].summary_depth as int;
        if d > depth && acc.len() > 0 {
            proof {
                lemma_level_end_bounds(ps, i + 1, d);
            }
            let sub = level_trees(ps, i, d, Seq::empty());
            let last = acc.last();
            level_trees(
                ps,
                level_end(ps, i, d),
                depth,
                acc.drop_last().push(ChapterTree { entry: last.entry, children: sub }),
            )
        } else if i + 1 < ps.len() && ps[i + 1].summary_depth > d {
            let inner = ps[i + 1].summary_depth as int;
            proof {
                lemma_level_end_bounds(ps, i + 1, inner);
            }
            let sub = level_trees(ps, i + 1, inner, Seq::empty());
            level_trees(
                ps,
                level_end(ps, i + 1, inner),
                depth,
                acc.push(ChapterTree { entry: page_entry(ps[i]), children: sub }),
            )
        } else {
            level_trees(ps, i + 1, depth, acc.push(ChapterTree { entry: page_entry(ps[i]), children: Seq::empty() }))
        }
    }
}

proof fn lemma_trees_append(a: Seq<SidebarChapter>, b: Seq<SidebarChapter>)
    ensures
        trees(a + b) == trees(a) + trees(b),
    decreases a.len(),
{
    if a.len() == 0 {
        assert(a + b =~= b);
        assert(trees(a) =~= Seq::<ChapterTree>::empty());
        assert(trees(a) + trees(b) =~= trees(b));
    } else {
        let ab = a + b;
        let rest = a.subrange(1, a.len() as int);
        assert(ab[0] == a[0]);
        assert(ab.subrange(1, ab.len() as int) =~= rest + b);
        lemma_trees_append(rest, b);
        assert(trees(ab) =~= trees(a) + trees(b));
    }
}

proof fn lemma_trees_single(c: SidebarChapter)
    ensures
        trees(seq![c]) == seq![ChapterTree { entry: chapter_entry(c), children: trees(c.children@) }],
{
    let s = seq![c];
    assert(s.subrange(1, 1) =~= Seq::<SidebarChapter>::empty());
    assert(trees(s.subrange(1, 1)) =~= Seq::<ChapterTree>::empty());
    assert(s[0] == c);
    assert(trees(s) =~= seq![ChapterTree { entry: chapter_entry(c), children: trees(c.children@) }]);
}

proof fn lemma_trees_len(cs: Seq<SidebarChapter>)
    ensures
        trees(cs).len() == cs.len(),
    decreases cs.len(),
{
    if cs.len() > 0 {
        lemma_trees_len(cs.subrange(1, cs.len() as int));
    }
}

/// From page `lo` on, no page is deeper than one below the page before it,
/// and page `lo` is no deeper than `depth`.
pub open spec fn well_nested(ps: Seq<AuthoredPageView>, lo: int, depth: int) -> bool {
    &&& (lo < ps.len() ==> ps[lo].summary_depth <= depth)
    &&& forall|j: int| lo <= j && j + 1 < ps.len() ==> #[trigger] ps[j + 1].summary_depth <= ps[j].summary_depth + 1
}

/// The first page from `lo` on that is shallower than `depth`, or the end.
pub open spec fn level_end(ps: Seq<AuthoredPageView>, lo: int, depth: int) -> int
    decreases ps.len() - lo,
{
    if lo < 0 || lo >= ps.len() {
        ps.len() as int
    } else if ps[lo].summary_depth < depth {
        lo
    } else {
        level_end(ps, lo + 1, depth)
    }
}

/// The pages of `ps` that belong to the book `id`, in their order in `ps`.
pub open spec fn book_pages(ps: Seq<AuthoredPageView>, id: Seq<char>) -> Seq<AuthoredPageView>
    decreases ps.len(),
{
    if ps.len() == 0 {
        Seq::empty()
    } else if ps.last().book_id == id {
        book_pages(ps.drop_last(), id).push(ps.last())
    } else {
        book_pages(ps.drop_last(), id)
    }
}

/// Page `a` of `f` comes before page `b` in a stable sort by `order`.
pub open spec fn sorts_before(f: Seq<AuthoredPageView>, a: int, b: int) -> bool {
    f[a].order < f[b].order || (f[a].order == f[b].order && a < b)
}

/// `sorted` holds the pages of `f` sorted by `order`, pages with the same
/// order keeping their order in `f`; `perm` says where each came from.
pub open spec fn stable_sort_by(
    sorted: Seq<AuthoredPageView>,
    f: Seq<AuthoredPageView>,
    perm: Seq<int>,
) -> bool {
    &&& perm.len() == sorted.len()
    &&& forall|p: int| 0 <= p < perm.len() ==> 0 <= #[trigger] perm[p] < f.len() && sorted[p] == f[perm[p]]
    &&& forall|p: int, q: int| 0 <= p < q < perm.len() ==> sorts_before(f, #[trigger] perm[p], #[trigger] perm[q])
    &&& forall|k: int| 0 <= k < f.len() ==> #[trigger] placed(perm, k)
}

/// Some entry of `perm` is `k`.
pub open spec fn placed(perm: Seq<int>, k: int) -> bool {
    exists|p: int| 0 <= p < perm.len() && #[trigger] perm[p] == k
}

/// `sorted` is the stable sort of `f` by `order`.
pub open spec fn stably_sorted(sorted: Seq<AuthoredPageView>, f: Seq<AuthoredPageView>) -> bool {
    exists|perm: Seq<int>| stable_sort_by(sorted, f, perm)
}

/// The chapter tree `cs` is the one built from the pages `sorted` from the
/// top level; where their depths are well nested, it holds every page
/// once, in order, at its depth.
pub open spec fn chapters_fit(cs: Seq<SidebarChapter>, sorted: Seq<AuthoredPageView>) -> bool {
    &&& trees(cs) == level_trees(sorted, 0, 0, Seq::empty())
    &&& well_nested(sorted, 0, 0) ==> flat(cs) == page_entries(sorted) && nested_at(cs, 0)
}

/// The first sidebar of book `id`: the one that a lookup finds.
pub open spec fn first_sidebar(ss: Seq<BookSidebar>, id: Seq<char>) -> Option<BookSidebar>
    decreases ss.len(),
{
    if ss.len() == 0 {
        None
    } else if ss[0].book_id@ == id {
        Some(ss[0])
    } else {
        first_sidebar(ss.subrange(1, ss.len() as int), id)
    }
}

impl SidebarModel {
    /// The sidebar of the book `book_id`: the first one with that id.
    pub fn sidebar_for(&self, book_id: &str) -> (r: Option<&BookSidebar>)
        ensures
            match r {
                Some(s) => first_sidebar(self.sidebars@, book_id@) == Some(*s),
                None => first_sidebar(self.sidebars@, book_id@) is None,
            },
    {
        let ghost all = self.sidebars@;
        let mut i: usize = 0;
        assert(all.subrange(0, all.len() as int) =~= all);
        while i < self.sidebars.len()
            invariant
                i <= self.sidebars.len(),
                all == self.sidebars@,
                first_sidebar(all, book_id@) == first_sidebar(all.subrange(i as int, all.len() as int), book_id@),
            decreases self.sidebars.len() - i,
        {
            let ghost rest = all.subrange(i as int, all.len() as int);
            assert(rest[0] == all[i as int]);
            assert(rest.subrange(1, rest.len() as int) =~= all.subrange(i + 1, all.len() as int));
            if str_eq(self.sidebars[i].book_id.as_str(), book_id) {
                return Some(&self.sidebars[i]);
            }
            i += 1;
        }
        None
    }
}

fn copy_page(p: &AuthoredPage) -> (r: AuthoredPage)
    ensures
        r@ == p@,
{
    AuthoredPage {
        title: copy_string(&p.title),
        source_path: copy_string(&p.source_path),
        book_id: copy_string(&p.book_id),
        order: p.order,
        summary_depth: p.summary_depth,
    }
}

/// The pages of the book `book_id` in the order of the site's page list.
fn pages_of_book(site: &ReaderSite, book_id: &str) -> (r: Vec<AuthoredPage>)
    ensures
        page_views_of(r@) == book_pages(site.page_views(), book_id@),
{
    let ghost all = site.page_views();
    let mut out: Vec<AuthoredPage> = Vec::new();
    let mut i: usize = 0;
    assert(all.take(0) =~= Seq::<AuthoredPageView>::empty());
    while i < site.authored_pages.len()
        invariant
            i <= site.authored_pages.len(),
            all == site.page_views(),
            page_views_of(out@) == book_pages(all.take(i as int), book_id@),
        decreases site.authored_pages.len() - i,
    {
        let ghost before = page_views_of(out@);
        assert(all.take(i + 1).drop_last() =~= all.take(i as int));
        assert(all.take(i + 1).last() == site.authored_pages@[i as int]@);
        if str_eq(site.authored_pages[i].book_id.as_str(), book_id) {
            out.push(copy_page(&site.authored_pages[i]));
            assert(page_views_of(out@) =~= before.push(site.authored_pages@[i as int]@));
        }
        i += 1;
    }
    assert(all.take(site.authored_pages.len() as int) =~= all);
    out
}

/// Page `k` of `f` sorts below the bound `(lo_order, lo_index)`.
pub open spec fn below(f: Seq<AuthoredPageView>, k: int, lo_order: usize, lo_index: usize) -> bool {
    f[k].order < lo_order || (f[k].order == lo_order && k < lo_index)
}

/// The page that sorts first among those not below the bound.
fn next_in_order(f: &Vec<AuthoredPage>, lo_order: usize, lo_index: usize) -> (r: Option<usize>)
    ensures
        match r {
            Some(k) => {
                &&& k < f.len()
                &&& !below(page_views_of(f@), k as int, lo_order, lo_index)
                &&& forall|j: int|
                    0 <= j < f.len() && !#[trigger] below(page_views_of(f@), j, lo_order, lo_index)
                        && j != k ==> sorts_before(page_views_of(f@), k as int, j)
            },
            None => forall|j: int|
                0 <= j < f.len() ==> below(page_views_of(f@), j, lo_order, lo_index),
        },
{
    let ghost fv = page_views_of(f@);
    let mut best: Option<usize> = None;
    let mut j: usize = 0;
    while j < f.len()
        invariant
            j <= f.len(),
            fv == page_views_of(f@),
            match best {
                Some(b) => {
                    &&& b < j
                    &&& !below(fv, b as int, lo_order, lo_index)
                    &&& forall|i: int| 0 <= i < j && !#[trigger] below(fv, i, lo_order, lo_index) && i != b ==> sorts_before(fv, b as int, i)
                },
                None => forall|i: int| 0 <= i < j ==> below(fv, i, lo_order, lo_index),
            },
        decreases f.len() - j,
    {
        let o = f[j].order;
        let candidate = o > lo_order || (o == lo_order && j >= lo_index);
        if candidate {
            match best {
                None => {
                    best = Some(j);
                },
                Some(b) => {
                    if o < f[b].order {
                        best = Some(j);
                    }
                },
            }
        }
        j += 1;
    }
    best
}

/// The pages of the book `book_id` sorted by `order`, pages with the same
/// order keeping their order in the site's page list.
fn authored_pages_for_book(site: &ReaderSite, book_id: &str) -> (r: Vec<AuthoredPage>)
    ensures
        stably_sorted(page_views_of(r@), book_pages(site.page_views(), book_id@)),
{
    let f = pages_of_book(site, book_id);
    let ghost fv = page_views_of(f@);
    let mut out: Vec<AuthoredPage> = Vec::new();
    let ghost mut perm: Seq<int> = Seq::empty();
    let mut lo_order: usize = 0;
    let mut lo_index: usize = 0;
    loop
        invariant
            fv == page_views_of(f@),
            fv == book_pages(site.page_views(), book_id@),
            lo_index <= f.len(),
            perm.len() == out.len(),
            forall|p: int| 0 <= p < perm.len() ==> 0 <= #[trigger] perm[p] < fv.len() && out@[p]@ == fv[perm[p]],
            forall|p: int, q: int| 0 <= p < q < perm.len() ==> sorts_before(fv, #[trigger] perm[p], #[trigger] perm[q]),
            forall|k: int| 0 <= k < fv.len() ==> (below(fv, k, lo_order, lo_index) <==> #[trigger] placed(perm, k)),
            forall|p: int| 0 <= p < perm.len() ==> below(fv, #[trigger] perm[p], lo_order, lo_index),
        decreases usize::MAX - lo_order, f.len() - lo_index,
    {
        match next_in_order(&f, lo_order, lo_index) {
            None => {
                proof {
                    let sorted = page_views_of(out@);
                    assert(stable_sort_by(sorted, fv, perm));
                }
                return out;
            },
            Some(k) => {
                let ghost old_perm = perm;
                let ghost old_o = lo_order;
                let ghost old_i = lo_index;
                out.push(copy_page(&f[k]));
                proof {
                    perm = perm.push(k as int);
                    assert forall|p: int, q: int| 0 <= p < q < perm.len() implies sorts_before(fv, #[trigger] perm[p], #[trigger] perm[q]) by {
                        if q == perm.len() - 1 {
                            assert(below(fv, old_perm[p], old_o, old_i));
                        }
                    }
                }
                lo_order = f[k].order;
                lo_index = k + 1;
                proof {
                    assert forall|k2: int| 0 <= k2 < fv.len() implies (below(fv, k2, lo_order, lo_index) <==> #[trigger] placed(perm, k2)) by {
                        if below(fv, k2, lo_order, lo_index) {
                            if below(fv, k2, old_o, old_i) {
                                assert(placed(old_perm, k2));
                                let p = choose|p: int| 0 <= p < old_perm.len() && old_perm[p] == k2;
                                assert(perm[p] == k2);
                            } else {
                                assert(k2 == k);
                                assert(perm[perm.len() - 1] == k2);
                            }
                        }
                        if placed(perm, k2) {
                            let p = choose|p: int| 0 <= p < perm.len() && #[trigger] perm[p] == k2;
                            if p < old_perm.len() {
                                assert(below(fv, old_perm[p], old_o, old_i));
                            }
                        }
                    }
                    assert forall|p: int| 0 <= p < perm.len() implies below(fv, #[trigger] perm[p], lo_order, lo_index) by {
                        if p < old_perm.len() {
                            assert(below(fv, old_perm[p], old_o, old_i));
                        }
                    }
                }
            },
        }
    }
}

/// Reading a forest in document order distributes over joining forests.
pub proof fn lemma_flat_append(a: Seq<SidebarChapter>, b: Seq<SidebarChapter>)
    ensures
        flat(a + b) == flat(a) + flat(b),
    decreases a.len(),
{
    if a.len() == 0 {
        assert(a + b =~= b);
        assert(flat(a) =~= Seq::<SidebarEntryView>::empty());
        assert(flat(a + b) =~= flat(a) + flat(b));
    } else {
        let ab = a + b;
        let rest = a.subrange(1, a.len() as int);
        assert(ab[0] == a[0]);
        assert(ab.subrange(1, ab.len() as int) =~= rest + b);
        lemma_flat_append(rest, b);
        assert(flat(ab) =~= flat(a) + flat(b));
    }
}

proof fn lemma_nested_append(a: Seq<SidebarChapter>, b: Seq<SidebarChapter>, depth: int)
    ensures
        nested_at(a + b, depth) == (nested_at(a, depth) && nested_at(b, depth)),
    decreases a.len(),
{
    if a.len() == 0 {
        assert(a + b =~= b);
    } else {
        let ab = a + b;
        let rest = a.subrange(1, a.len() as int);
        assert(ab[0] == a[0]);
        assert(ab.subrange(1, ab.len() as int) =~= rest + b);
        lemma_nested_append(rest, b, depth);
    }
}

proof fn lemma_single(c: SidebarChapter, depth: int)
    ensures
        flat(seq![c]) == seq![chapter_entry(c)] + flat(c.children@),
        nested_at(seq![c], depth) == (c.summary_depth == depth && nested_at(c.children@, depth + 1)),
{
    let s = seq![c];
    assert(s.subrange(1, 1) =~= Seq::<SidebarChapter>::empty());
    assert(flat(s.subrange(1, 1)) =~= Seq::<SidebarEntryView>::empty());
    assert(flat(s) =~= seq![chapter_entry(c)] + flat(c.children@));
    assert(nested_at(s.subrange(1, 1), depth));
    assert(s[0] == c);
}

/// The end of a level lies between its start and the end of the pages;
/// every page before it is at least as deep as the level, the page at it
/// shallower.
pub proof fn lemma_level_end_bounds(ps: Seq<AuthoredPageView>, lo: int, depth: int)
    requires
        0 <= lo <= ps.len(),
    ensures
        lo <= level_end(ps, lo, depth) <= ps.len(),
        forall|j: int| lo <= j < level_end(ps, lo, depth) ==> #[trigger] ps[j].summary_depth >= depth,
        level_end(ps, lo, depth) < ps.len() ==> ps[level_end(ps, lo, depth)].summary_depth < depth,
    decreases ps.len() - lo,
{
    if lo < ps.len() && ps[lo].summary_depth >= depth {
        lemma_level_end_bounds(ps, lo + 1, depth);
    }
}

proof fn lemma_level_end_nest(ps: Seq<AuthoredPageView>, a: int, depth: int, inner: int)
    requires
        0 <= a <= ps.len(),
        depth <= inner,
    ensures
        level_end(ps, level_end(ps, a, inner), depth) == level_end(ps, a, depth),
    decreases ps.len() - a,
{
    if a < ps.len() && ps[a].summary_depth >= inner {
        lemma_level_end_nest(ps, a + 1, depth, inner);
    }
}

fn chapter_of(page: &AuthoredPage) -> (c: SidebarChapter)
    ensures
        chapter_entry(c) == page_entry(page@),
        c.children@.len() == 0,
{
    SidebarChapter {
        title: copy_string(&page.title),
        source_path: copy_string(&page.source_path),
        summary_depth: page.summary_depth,
        children: Vec::new(),
    }
}

/// The chapters of one nesting level, from page `start` to the first page
/// shallower than `depth`, and the index of that page.
fn sidebar_level(pages: &Vec<AuthoredPage>, start: usize, depth: usize) -> (r: (Vec<SidebarChapter>, usize))
    requires
        start <= pages.len(),
    ensures
        r.1 == level_end(page_views_of(pages@), start as int, depth as int),
        trees(r.0@) == level_trees(page_views_of(pages@), start as int, depth as int, Seq::empty()),
        well_nested(page_views_of(pages@), start as int, depth as int) ==> {
            &&& flat(r.0@) == page_entries(page_views_of(pages@).subrange(start as int, r.1 as int))
            &&& nested_at(r.0@, depth as int)
        },
    decreases pages.len() - start,
{
    let ghost ps = page_views_of(pages@);
    let ghost wn = well_nested(ps, start as int, depth as int);
    let mut chapters: Vec<SidebarChapter> = Vec::new();
    let mut index = start;
    proof {
        assert(ps.subrange(start as int, start as int) =~= Seq::<AuthoredPageView>::empty());
        assert(page_entries(ps.subrange(start as int, start as int)) =~= Seq::<SidebarEntryView>::empty());
        assert(flat(chapters@) =~= Seq::<SidebarEntryView>::empty());
    }
    while index < pages.len() && pages[index].summary_depth >= depth
        invariant
            start <= index <= pages.len(),
            ps == page_views_of(pages@),
            wn == well_nested(ps, start as int, depth as int),
            level_end(ps, start as int, depth as int) == level_end(ps, index as int, depth as int),
            level_trees(ps, start as int, depth as int, Seq::empty()) == level_trees(
                ps,
                index as int,
                depth as int,
                trees(chapters@),
            ),
            index > start || chapters@.len() == 0,
            wn ==> {
                &&& flat(chapters@) == page_entries(ps.subrange(start as int, index as int))
                &&& nested_at(chapters@, depth as int)
                &&& index < ps.len() ==> ps[index as int].summary_depth <= depth
            },
        decreases pages.len() - index,
    {
        let d = pages[index].summary_depth;
        assert(ps[index as int] == pages@[index as int]@);
        if d > depth && chapters.len() > 0 {
            let (sub, next) = sidebar_level(pages, index, d);
            proof {
                lemma_level_end_bounds(ps, index as int, d as int);
                lemma_level_end_nest(ps, index as int, depth as int, d as int);
            }
            let ghost old_chapters = chapters@;
            proof {
                lemma_trees_len(old_chapters);
                assert(old_chapters =~= old_chapters.drop_last() + seq![old_chapters.last()]);
                lemma_trees_append(old_chapters.drop_last(), seq![old_chapters.last()]);
                lemma_trees_single(old_chapters.last());
            }
            let mut last = chapters.pop().unwrap();
            last.children = sub;
            chapters.push(last);
            proof {
                assert(chapters@ =~= old_chapters.drop_last() + seq![last]);
                lemma_trees_append(old_chapters.drop_last(), seq![last]);
                lemma_trees_single(last);
                assert(trees(old_chapters).drop_last() =~= trees(old_chapters.drop_last()));
                assert(trees(chapters@) =~= trees(old_chapters).drop_last().push(
                    ChapterTree { entry: trees(old_chapters).last().entry, children: trees(sub@) },
                ));
                assert(level_trees(ps, index as int, depth as int, trees(old_chapters)) == level_trees(
                    ps,
                    next as int,
                    depth as int,
                    trees(chapters@),
                ));
                assert(level_trees(ps, start as int, depth as int, Seq::empty()) == level_trees(
                    ps,
                    next as int,
                    depth as int,
                    trees(chapters@),
                ));
            }
            index = next;
        } else {
            let mut chapter = chapter_of(&pages[index]);
            let ghost here = index;
            let ghost before = chapters@;
            index += 1;
            if index < pages.len() && pages[index].summary_depth > d {
                let inner = pages[index].summary_depth;
                assert(ps[index as int] == pages@[index as int]@);
                proof {
                    if wn {
                        assert(ps[here + 1].summary_depth <= ps[here as int].summary_depth + 1);
                    }
                }
                let (sub, next) = sidebar_level(pages, index, inner);
                proof {
                    lemma_level_end_bounds(ps, index as int, inner as int);
                    lemma_level_end_nest(ps, index as int, depth as int, inner as int);
                }
                chapter.children = sub;
                index = next;
                proof {
                    assert(level_trees(ps, here as int, depth as int, trees(before)) == level_trees(
                        ps,
                        index as int,
                        depth as int,
                        trees(before).push(ChapterTree { entry: page_entry(ps[here as int]), children: trees(sub@) }),
                    ));
                }
            } else {
                proof {
                    assert(trees(chapter.children@) =~= Seq::<ChapterTree>::empty()) by {
                        assert(chapter.children@ =~= Seq::<SidebarChapter>::empty());
                    }
                    assert(level_trees(ps, here as int, depth as int, trees(before)) == level_trees(
                        ps,
                        index as int,
                        depth as int,
                        trees(before).push(
                            ChapterTree { entry: page_entry(ps[here as int]), children: Seq::empty() },
                        ),
                    ));
                    assert(chapter.children@ =~= Seq::<SidebarChapter>::empty());
                    assert(flat(chapter.children@) =~= Seq::<SidebarEntryView>::empty());
                    assert(ps.subrange(here + 1, index as int) =~= Seq::<AuthoredPageView>::empty());
                }
            }
            chapters.push(chapter);
            proof {
                assert(chapters@ =~= before + seq![chapter]);
                lemma_trees_len(before);
                lemma_trees_append(before, seq![chapter]);
                lemma_trees_single(chapter);
                assert(ps[here as int] == pages@[here as int]@);
                assert(chapter_entry(chapter) == page_entry(ps[here as int]));
                assert(trees(chapters@) =~= trees(before).push(
                    ChapterTree { entry: page_entry(ps[here as int]), children: trees(chapter.children@) },
                ));
                assert(level_trees(ps, start as int, depth as int, Seq::empty()) == level_trees(
                    ps,
                    index as int,
                    depth as int,
                    trees(chapters@),
                ));
                lemma_flat_append(before, seq![chapter]);
                lemma_nested_append(before, seq![chapter], depth as int);
                lemma_single(chapter, depth as int);
                if wn {
                    assert(ps.subrange(start as int, index as int) =~= ps.subrange(start as int, here as int)
                        + seq![ps[here as int]] + ps.subrange(here + 1, index as int));
                    assert(page_entries(ps.subrange(start as int, index as int)) =~= page_entries(
                        ps.subrange(start as int, here as int),
                    ) + seq![page_entry(ps[here as int])] + page_entries(ps.subrange(here + 1, index as int)));
                }
            }
        }
    }
    proof {
        lemma_level_end_bounds(ps, index as int, depth as int);
    }
    (chapters, index)
}

/// Builds the chapters of one nesting level from `pages[*index..]`,
/// nesting deeper pages under the chapter before them, and leaves `*index`
/// at the first page shallower than `depth`.
pub fn build_sidebar_chapters(pages: &Vec<AuthoredPage>, index: &mut usize, depth: usize) -> (r: Vec<
    SidebarChapter,
>)
    ensures
        *old(index) <= pages.len() ==> *final(index) == level_end(
            page_views_of(pages@),
            *old(index) as int,
            depth as int,
        ),
        *old(index) <= pages.len() ==> trees(r@) == level_trees(
            page_views_of(pages@),
            *old(index) as int,
            depth as int,
            Seq::empty(),
        ),
        *old(index) > pages.len() ==> *final(index) == *old(index) && r@.len() == 0,
        *old(index) <= pages.len() && well_nested(page_views_of(pages@), *old(index) as int, depth as int) ==> {
            &&& flat(r@) == page_entries(page_views_of(pages@).subrange(*old(index) as int, *final(index) as int))
            &&& nested_at(r@, depth as int)
        },
{
    if *index > pages.len() {
        return Vec::new();
    }
    let (chapters, next) = sidebar_level(pages, *index, depth);
    *index = next;
    chapters
}

/// The sidebar `s` is the one of book `b` of `site`: it has the book's id,
/// a link to the Bookshelf page exactly when the book is the root book, and
/// the book's pages, sorted by order, as its chapter tree.
pub open spec fn sidebar_of_book(s: BookSidebar, site: ReaderSite, b: ReaderBook) -> bool {
    &&& s.book_id@ == b.id@
    &&& s.affix_entries@.len() == (if b.id@ == site.root_book@ { 1int } else { 0int })
    &&& b.id@ == site.root_book@ ==> {
        &&& s.affix_entries@[0].title@ == site.bookshelf_page.title@
        &&& s.affix_entries@[0].target_page_id@ == site.bookshelf_page.page_id@
        &&& s.affix_entries@[0].target_route_path@ == site.bookshelf_page.route_path@
    }
    &&& exists|sorted: Seq<AuthoredPageView>|
        stably_sorted(sorted, book_pages(site.page_views(), b.id@)) && #[trigger] chapters_fit(
            s.chapter_entries@,
            sorted,
        )
}

/// Builds the sidebar of every book, in the site's book order.
pub fn build_sidebar_model(site_model: &ReaderSite) -> (r: SidebarModel)
    ensures
        r.sidebars.len() == site_model.books.len(),
        forall|i: int|
            0 <= i < site_model.books.len() ==> sidebar_of_book(
                #[trigger] r.sidebars@[i],
                *site_model,
                site_model.books@[i],
            ),
{
    let mut sidebars: Vec<BookSidebar> = Vec::new();
    let mut k: usize = 0;
    while k < site_model.books.len()
        invariant
            k <= site_model.books.len(),
            sidebars.len() == k,
            forall|i: int|
                0 <= i < k ==> sidebar_of_book(#[trigger] sidebars@[i], *site_model, site_model.books@[i]),
        decreases site_model.books.len() - k,
    {
        let book = &site_model.books[k];
        let pages = authored_pages_for_book(site_model, book.id.as_str());
        let mut page_index: usize = 0;
        let chapter_entries = build_sidebar_chapters(&pages, &mut page_index, 0);
        let ghost ps = page_views_of(pages@);
        proof {
            lemma_level_end_bounds(ps, 0, 0);
            assert(ps.subrange(0, ps.len() as int) =~= ps);
            assert(chapters_fit(chapter_entries@, ps));
        }
        let mut affix_entries: Vec<SidebarAffixEntry> = Vec::new();
        if str_eq(book.id.as_str(), site_model.root_book.as_str()) {
            affix_entries.push(
                SidebarAffixEntry {
                    title: copy_string(&site_model.bookshelf_page.title),
                    target_page_id: copy_string(&site_model.bookshelf_page.page_id),
                    target_route_path: copy_string(&site_model.bookshelf_page.route_path),
                },
            );
        }
        let sidebar = BookSidebar { book_id: copy_string(&book.id), affix_entries, chapter_entries };
        assert(chapters_fit(sidebar.chapter_entries@, ps));
        assert(stably_sorted(ps, book_pages(site_model.page_views(), book.id@)));
        assert(sidebar_of_book(sidebar, *site_model, *book));
        sidebars.push(sidebar);
        k += 1;
    }
    SidebarModel { sidebars }
}

} // verus!
