//! The render manifest: where every page of the site is written.
use vstd::prelude::*;
use crate::paths::{components, join_components, parent_of, parent_path, same_path, strip_prefix, strip_prefix_components, with_extension, with_extension_path};
use crate::reader_context::{AuthoredContextView, ReaderContextModel};
use crate::reader_site::{ReaderSite, SiteRoot};
use crate::text::{copy_string, str_eq, string_from};

verus! {

/// Why a render manifest could not be built.
#[derive(Debug, Clone, PartialEq, Eq)]
pub enum BuildRenderManifestError {
    /// The site root is not the synthetic Bookshelf page.
    RootEntryMismatch { expected_page_id: String, actual_page_id: String },
    /// An authored page lies outside the configuration directory.
    SourcePathOutsideConfig { source_path: String, config_dir: String },
    /// Two pages would be written to the same output path.
    OutputPathCollision { output_path: String, first_page: String, second_page: String },
}

/// A manifest error as plain values.
pub enum BuildRenderManifestErrorView {
    RootEntryMismatch { expected_page_id: Seq<char>, actual_page_id: Seq<char> },
    SourcePathOutsideConfig { source_path: Seq<char>, config_dir: Seq<char> },
    OutputPathCollision { output_path: Seq<char>, first_page: Seq<char>, second_page: Seq<char> },
}

impl View for BuildRenderManifestError {
    type V = BuildRenderManifestErrorView;

    open spec fn view(&self) -> BuildRenderManifestErrorView {
        match self {
            BuildRenderManifestError::RootEntryMismatch { expected_page_id, actual_page_id } =>
                BuildRenderManifestErrorView::RootEntryMismatch {
                expected_page_id: expected_page_id@,
                actual_page_id: actual_page_id@,
            },
            BuildRenderManifestError::SourcePathOutsideConfig { source_path, config_dir } =>
                BuildRenderManifestErrorView::SourcePathOutsideConfig {
                source_path: source_path@,
                config_dir: config_dir@,
            },
            BuildRenderManifestError::OutputPathCollision { output_path, first_page, second_page } =>
                BuildRenderManifestErrorView::OutputPathCollision {
                output_path: output_path@,
                first_page: first_page@,
                second_page: second_page@,
            },
        }
    }
}

/// Every page of the site and where it is written.
#[derive(Debug, Clone, PartialEq, Eq)]
pub struct RenderManifest {
    pub entries: Vec<RenderedPageManifestEntry>,
}

/// One page of the render manifest.
#[derive(Debug, Clone, PartialEq, Eq)]
pub struct RenderedPageManifestEntry {
    pub identity: RenderedPageIdentity,
    pub title: String,
    pub route_path: String,
    pub output_path: String,
}

/// Which page a manifest entry is.
#[derive(Debug, Clone, PartialEq, Eq)]
pub enum RenderedPageIdentity {
    SyntheticPage { page_id: String },
    AuthoredPage { source_path: String },
}

/// A page identity as plain values.
pub enum IdentityView {
    SyntheticPage { page_id: Seq<char> },
    AuthoredPage { source_path: Seq<char> },
}

impl View for RenderedPageIdentity {
    type V = IdentityView;

    open spec fn view(&self) -> IdentityView {
        match self {
            RenderedPageIdentity::SyntheticPage { page_id } => IdentityView::SyntheticPage { page_id: page_id@ },
            RenderedPageIdentity::AuthoredPage { source_path } =>
                IdentityView::AuthoredPage { source_path: source_path@ },
        }
    }
}

/// A manifest entry as plain values.
pub struct EntryView {
    pub identity: IdentityView,
    pub title: Seq<char>,
    pub route_path: Seq<char>,
    pub output_path: Seq<char>,
}

impl View for RenderedPageManifestEntry {
    type V = EntryView;

    open spec fn view(&self) -> EntryView {
        EntryView {
            identity: self.identity@,
            title: self.title@,
            route_path: self.route_path@,
            output_path: self.output_path@,
        }
    }
}

/// The first entry for the synthetic page `page_id`.
pub open spec fn synthetic_entry_index(es: Seq<RenderedPageManifestEntry>, page_id: Seq<char>) -> Option<int>
    decreases es.len(),
{
    if es.len() == 0 {
        None
    } else if es[0].identity@ == (IdentityView::SyntheticPage { page_id }) {
        Some(0)
    } else {
        match synthetic_entry_index(es.subrange(1, es.len() as int), page_id) {
            Some(i) => Some(i + 1),
            None => None,
        }
    }
}

/// The first entry for the authored page at the same path as `path`.
pub open spec fn authored_entry_index(es: Seq<RenderedPageManifestEntry>, path: Seq<char>) -> Option<int>
    decreases es.len(),
{
    if es.len() == 0 {
        None
    } else if es[0].identity@ matches IdentityView::AuthoredPage { source_path } && components(source_path)
        == components(path) {
        Some(0)
    } else {
        match authored_entry_index(es.subrange(1, es.len() as int), path) {
            Some(i) => Some(i + 1),
            None => None,
        }
    }
}

impl RenderManifest {
    /// The entries as plain values.
    pub open spec fn entry_views(&self) -> Seq<EntryView> {
        self.entries@.map_values(|e: RenderedPageManifestEntry| e@)
    }

    /// The entry of the authored page at `normalized_source_path`, a path
    /// already in canonical form: the first one at the same path.
    pub fn authored_entry_for_source_path(&self, normalized_source_path: &str) -> (r: Option<
        &RenderedPageManifestEntry,
    >)
        ensures
            match authored_entry_index(self.entries@, normalized_source_path@) {
                Some(i) => 0 <= i < self.entries.len() && r == Some(&self.entries@[i]),
                None => r is None,
            },
    {
        let ghost all = self.entries@;
        let mut i: usize = 0;
        assert(all.subrange(0, all.len() as int) =~= all);
        while i < self.entries.len()
            invariant
                i <= self.entries.len(),
                all == self.entries@,
                authored_entry_index(all, normalized_source_path@) == match authored_entry_index(
                    all.subrange(i as int, all.len() as int),
                    normalized_source_path@,
                ) {
                    Some(j) => Some(j + i),
                    None => None::<int>,
                },
            decreases self.entries.len() - i,
        {
            let ghost rest = all.subrange(i as int, all.len() as int);
            assert(rest[0] == all[i as int]);
            assert(rest.subrange(1, rest.len() as int) =~= all.subrange(i + 1, all.len() as int));
            proof {
                lemma_authored_index_bounds(rest.subrange(1, rest.len() as int), normalized_source_path@);
            }
            match &self.entries[i].identity {
                RenderedPageIdentity::AuthoredPage { source_path } => {
                    if same_path(source_path.as_str(), normalized_source_path) {
                        return Some(&self.entries[i]);
                    }
                },
                RenderedPageIdentity::SyntheticPage { .. } => {},
            }
            i += 1;
        }
        None
    }

    /// The entry of the synthetic page `page_id`: the first one.
    pub fn entry_for_page_id(&self, page_id: &str) -> (r: Option<&RenderedPageManifestEntry>)
        ensures
            match synthetic_entry_index(self.entries@, page_id@) {
                Some(i) => 0 <= i < self.entries.len() && r == Some(&self.entries@[i]),
                None => r is None,
            },
    {
        let ghost all = self.entries@;
        let mut i: usize = 0;
        assert(all.subrange(0, all.len() as int) =~= all);
        while i < self.entries.len()
            invariant
                i <= self.entries.len(),
                all == self.entries@,
                synthetic_entry_index(all, page_id@) == match synthetic_entry_index(
                    all.subrange(i as int, all.len() as int),
                    page_id@,
                ) {
                    Some(j) => Some(j + i),
                    None => None::<int>,
                },
            decreases self.entries.len() - i,
        {
            let ghost rest = all.subrange(i as int, all.len() as int);
            assert(rest[0] == all[i as int]);
            assert(rest.subrange(1, rest.len() as int) =~= all.subrange(i + 1, all.len() as int));
            proof {
                lemma_synthetic_index_bounds(rest.subrange(1, rest.len() as int), page_id@);
            }
            match &self.entries[i].identity {
                RenderedPageIdentity::SyntheticPage { page_id: p } => {
                    if str_eq(p.as_str(), page_id) {
                        return Some(&self.entries[i]);
                    }
                },
                RenderedPageIdentity::AuthoredPage { .. } => {},
            }
            i += 1;
        }
        None
    }
}

proof fn lemma_authored_index_bounds(es: Seq<RenderedPageManifestEntry>, path: Seq<char>)
    ensures
        authored_entry_index(es, path) matches Some(i) ==> 0 <= i < es.len(),
    decreases es.len(),
{
    if es.len() > 0 {
        lemma_authored_index_bounds(es.subrange(1, es.len() as int), path);
    }
}

proof fn lemma_synthetic_index_bounds(es: Seq<RenderedPageManifestEntry>, page_id: Seq<char>)
    ensures
        synthetic_entry_index(es, page_id) matches Some(i) ==> 0 <= i < es.len(),
    decreases es.len(),
{
    if es.len() > 0 {
        lemma_synthetic_index_bounds(es.subrange(1, es.len() as int), page_id);
    }
}

/// The output path of an authored page: its source path relative to the
/// configuration directory, with the extension `html`.
pub fn rendered_output_path(relative_source_path: &str) -> (output_path: String)
    ensures
        output_path@ == with_extension_path(relative_source_path@, "html"@),
{
    with_extension(relative_source_path, "html")
}

/// The directory of the configuration file (`.` when the path has none).
pub open spec fn config_dir_of(config_path: Seq<char>) -> Seq<char> {
    match parent_path(config_path) {
        Some(p) => p,
        None => "."@,
    }
}

/// How an error message names a page.
pub open spec fn label_of(id: IdentityView) -> Seq<char> {
    match id {
        IdentityView::SyntheticPage { page_id } => "synthetic page `"@ + page_id + "`"@,
        IdentityView::AuthoredPage { source_path } => "authored page "@ + source_path,
    }
}

/// The first entry written to the same path as `out`.
pub open spec fn output_owner(es: Seq<EntryView>, out: Seq<char>) -> Option<EntryView>
    decreases es.len(),
{
    if es.len() == 0 {
        None
    } else if components(es[0].output_path) == components(out) {
        Some(es[0])
    } else {
        output_owner(es.subrange(1, es.len() as int), out)
    }
}

/// The entry of the synthetic Bookshelf page.
pub open spec fn synthetic_entry_view(rc: ReaderContextModel) -> EntryView {
    EntryView {
        identity: IdentityView::SyntheticPage { page_id: rc.bookshelf_page_context.page_id@ },
        title: rc.bookshelf_page_context.title@,
        route_path: Seq::empty(),
        output_path: "index.html"@,
    }
}

/// The entry of an authored page whose path relative to the configuration
/// directory has the components `rel`.
pub open spec fn authored_entry_view(ctx: AuthoredContextView, rel: Seq<Seq<char>>) -> EntryView {
    let out = with_extension_path(join_components(rel), "html"@);
    EntryView {
        identity: IdentityView::AuthoredPage { source_path: ctx.source_path },
        title: ctx.page_title,
        route_path: out,
        output_path: out,
    }
}

/// Adds `e` to the entries, or the collision with the entry that already
/// claimed its output path.
pub open spec fn claim(es: Seq<EntryView>, e: EntryView) -> Result<Seq<EntryView>, BuildRenderManifestErrorView> {
    match output_owner(es, e.output_path) {
        Some(first) => Err(
            BuildRenderManifestErrorView::OutputPathCollision {
                output_path: e.output_path,
                first_page: label_of(first.identity),
                second_page: label_of(e.identity),
            },
        ),
        None => Ok(es.push(e)),
    }
}

/// The entries of the Bookshelf page and of the first `n` authored pages.
pub open spec fn manifest_prefix(dir: Seq<char>, first: EntryView, ctxs: Seq<AuthoredContextView>, n: int) -> Result<
    Seq<EntryView>,
    BuildRenderManifestErrorView,
>
    decreases n,
{
    if n <= 0 {
        claim(Seq::empty(), first)
    } else {
        match manifest_prefix(dir, first, ctxs, n - 1) {
            Err(e) => Err(e),
            Ok(es) => match strip_prefix_components(components(ctxs[n - 1].source_path), components(dir)) {
                None => Err(
                    BuildRenderManifestErrorView::SourcePathOutsideConfig {
                        source_path: ctxs[n - 1].source_path,
                        config_dir: dir,
                    },
                ),
                Some(rel) => claim(es, authored_entry_view(ctxs[n - 1], rel)),
            },
        }
    }
}

/// The render manifest of a site and its reader context, or the first
/// reason there is none.
pub open spec fn manifest_of(site: ReaderSite, rc: ReaderContextModel) -> Result<
    Seq<EntryView>,
    BuildRenderManifestErrorView,
> {
    let expected = site.bookshelf_page.page_id@;
    let actual = match site.root_entry {
        SiteRoot::BookshelfPage { page_id } => page_id@,
    };
    if actual != expected {
        Err(BuildRenderManifestErrorView::RootEntryMismatch { expected_page_id: expected, actual_page_id: actual })
    } else {
        manifest_prefix(
            config_dir_of(site.config_path@),
            synthetic_entry_view(rc),
            rc.contexts(),
            rc.authored_page_contexts.len() as int,
        )
    }
}

fn page_label(identity: &RenderedPageIdentity) -> (r: String)
    ensures
        r@ == label_of(identity@),
{
    match identity {
        RenderedPageIdentity::SyntheticPage { page_id } => {
            let mut s = string_from("synthetic page `");
            s.append(page_id.as_str());
            s.append("`");
            s
        },
        RenderedPageIdentity::AuthoredPage { source_path } => {
            let mut s = string_from("authored page ");
            s.append(source_path.as_str());
            s
        },
    }
}

/// Checks that no earlier entry is written to `entry`'s output path.
fn claim_output_path(entries: &Vec<RenderedPageManifestEntry>, entry: &RenderedPageManifestEntry) -> (r: Result<
    (),
    BuildRenderManifestError,
>)
    ensures
        match claim(entries@.map_values(|e: RenderedPageManifestEntry| e@), entry@) {
            Ok(_) => r is Ok,
            Err(v) => r matches Err(e) && e@ == v,
        },
{
    let ghost all = entries@.map_values(|e: RenderedPageManifestEntry| e@);
    let mut i: usize = 0;
    assert(all.subrange(0, all.len() as int) =~= all);
    while i < entries.len()
        invariant
            i <= entries.len(),
            all == entries@.map_values(|e: RenderedPageManifestEntry| e@),
            output_owner(all, entry@.output_path) == output_owner(
                all.subrange(i as int, all.len() as int),
                entry@.output_path,
            ),
        decreases entries.len() - i,
    {
        let ghost rest = all.subrange(i as int, all.len() as int);
        assert(rest[0] == all[i as int]);
        assert(rest.subrange(1, rest.len() as int) =~= all.subrange(i + 1, all.len() as int));
        if same_path(entries[i].output_path.as_str(), entry.output_path.as_str()) {
            return Err(
                BuildRenderManifestError::OutputPathCollision {
                    output_path: copy_string(&entry.output_path),
                    first_page: page_label(&entries[i].identity),
                    second_page: page_label(&entry.identity),
                },
            );
        }
        i += 1;
    }
    Ok(())
}

/// Builds the render manifest: the Bookshelf page at `index.html`, then
/// every authored page at its path relative to the configuration
/// directory with the extension `html`; refuses a site root other than the
/// Bookshelf page, a page outside the configuration directory, and two
/// pages written to the same path.
pub fn build_render_manifest(site_model: &ReaderSite, reader_context: &ReaderContextModel) -> (r: Result<
    RenderManifest,
    BuildRenderManifestError,
>)
    ensures
        match manifest_of(*site_model, *reader_context) {
            Ok(es) => r matches Ok(m) && m.entry_views() == es,
            Err(v) => r matches Err(e) && e@ == v,
        },
{
    let actual_page_id = match &site_model.root_entry {
        SiteRoot::BookshelfPage { page_id } => page_id,
    };
    if !str_eq(actual_page_id.as_str(), site_model.bookshelf_page.page_id.as_str()) {
        return Err(
            BuildRenderManifestError::RootEntryMismatch {
                expected_page_id: copy_string(&site_model.bookshelf_page.page_id),
                actual_page_id: copy_string(actual_page_id),
            },
        );
    }
    let config_dir = match parent_of(site_model.config_path.as_str()) {
        Some(p) => p,
        None => string_from("."),
    };
    let ghost dir = config_dir_of(site_model.config_path@);
    assert(config_dir@ == dir);
    let ghost first = synthetic_entry_view(*reader_context);
    let ghost ctxs = reader_context.contexts();
    let mut entries: Vec<RenderedPageManifestEntry> = Vec::new();
    let synthetic_entry = RenderedPageManifestEntry {
        identity: RenderedPageIdentity::SyntheticPage {
            page_id: copy_string(&reader_context.bookshelf_page_context.page_id),
        },
        title: copy_string(&reader_context.bookshelf_page_context.title),
        route_path: String::new(),
        output_path: string_from("index.html"),
    };
    assert(synthetic_entry@ == first);
    assert(entries@.map_values(|e: RenderedPageManifestEntry| e@) =~= Seq::<EntryView>::empty());
    match claim_output_path(&entries, &synthetic_entry) {
        Err(e) => {
            return Err(e);
        },
        Ok(()) => {},
    }
    entries.push(synthetic_entry);
    assert(entries@.map_values(|e: RenderedPageManifestEntry| e@) =~= Seq::<EntryView>::empty().push(first));
    let mut i: usize = 0;
    while i < reader_context.authored_page_contexts.len()
        invariant
            i <= reader_context.authored_page_contexts.len(),
            config_dir@ == dir,
            dir == config_dir_of(site_model.config_path@),
            first == synthetic_entry_view(*reader_context),
            ctxs == reader_context.contexts(),
            manifest_of(*site_model, *reader_context) == manifest_prefix(
                dir,
                first,
                ctxs,
                reader_context.authored_page_contexts.len() as int,
            ),
            manifest_prefix(dir, first, ctxs, i as int) == Ok::<Seq<EntryView>, BuildRenderManifestErrorView>(
                entries@.map_values(|e: RenderedPageManifestEntry| e@),
            ),
        decreases reader_context.authored_page_contexts.len() - i,
    {
        let context = &reader_context.authored_page_contexts[i];
        assert(ctxs[i as int] == context@);
        let relative_source = match strip_prefix(context.source_path.as_str(), config_dir.as_str()) {
            None => {
                proof {
                    lemma_manifest_err_propagates(
                        dir,
                        first,
                        ctxs,
                        i as int + 1,
                        reader_context.authored_page_contexts.len() as int,
                    );
                }
                return Err(
                    BuildRenderManifestError::SourcePathOutsideConfig {
                        source_path: copy_string(&context.source_path),
                        config_dir: copy_string(&config_dir),
                    },
                );
            },
            Some(rel) => rel,
        };
        let output_path = rendered_output_path(relative_source.as_str());
        let entry = RenderedPageManifestEntry {
            identity: RenderedPageIdentity::AuthoredPage { source_path: copy_string(&context.source_path) },
            title: copy_string(&context.page_title),
            route_path: copy_string(&output_path),
            output_path,
        };
        proof {
            let rel = strip_prefix_components(components(context.source_path@), components(dir))->Some_0;
            assert(entry@ == authored_entry_view(ctxs[i as int], rel));
        }
        match claim_output_path(&entries, &entry) {
            Err(e) => {
                proof {
                    lemma_manifest_err_propagates(
                        dir,
                        first,
                        ctxs,
                        i as int + 1,
                        reader_context.authored_page_contexts.len() as int,
                    );
                }
                return Err(e);
            },
            Ok(()) => {},
        }
        let ghost before = entries@.map_values(|e: RenderedPageManifestEntry| e@);
        entries.push(entry);
        assert(entries@.map_values(|e: RenderedPageManifestEntry| e@) =~= before.push(entry@));
        i += 1;
    }
    Ok(RenderManifest { entries })
}

proof fn lemma_manifest_err_propagates(
    dir: Seq<char>,
    first: EntryView,
    ctxs: Seq<AuthoredContextView>,
    a: int,
    b: int,
)
    requires
        0 <= a <= b,
        manifest_prefix(dir, first, ctxs, a) is Err,
    ensures
        manifest_prefix(dir, first, ctxs, b) == manifest_prefix(dir, first, ctxs, a),
    decreases b - a,
{
    if a < b {
        lemma_manifest_err_propagates(dir, first, ctxs, a, b - 1);
    }
}

/// No two entries are written to the same path.
pub open spec fn outputs_distinct(es: Seq<EntryView>) -> bool {
    forall|i: int, j: int|
        0 <= i < j < es.len() ==> components(#[trigger] es[i].output_path) != components(
            #[trigger] es[j].output_path,
        )
}

proof fn lemma_output_owner_none(es: Seq<EntryView>, out: Seq<char>)
    requires
        output_owner(es, out) is None,
    ensures
        forall|i: int| 0 <= i < es.len() ==> components(#[trigger] es[i].output_path) != components(out),
    decreases es.len(),
{
    if es.len() > 0 {
        let rest = es.subrange(1, es.len() as int);
        lemma_output_owner_none(rest, out);
        assert forall|i: int| 0 <= i < es.len() implies components(#[trigger] es[i].output_path) != components(out) by {
            if i > 0 {
                assert(es[i] == rest[i - 1]);
            }
        }
    }
}

proof fn lemma_prefix_distinct(dir: Seq<char>, first: EntryView, ctxs: Seq<AuthoredContextView>, n: int)
    ensures
        manifest_prefix(dir, first, ctxs, n) matches Ok(es) ==> outputs_distinct(es) && es.len() >= 1
            && es[0] == first,
    decreases n,
{
    if n > 0 {
        lemma_prefix_distinct(dir, first, ctxs, n - 1);
        if let Ok(es) = manifest_prefix(dir, first, ctxs, n - 1) {
            if let Some(rel) = strip_prefix_components(components(ctxs[n - 1].source_path), components(dir)) {
                let e = authored_entry_view(ctxs[n - 1], rel);
                if output_owner(es, e.output_path) is None {
                    lemma_output_owner_none(es, e.output_path);
                    let es2 = es.push(e);
                    assert forall|i: int, j: int| 0 <= i < j < es2.len() implies components(
                        #[trigger] es2[i].output_path,
                    ) != components(#[trigger] es2[j].output_path) by {
                        if j == es.len() {
                            assert(es2[i] == es[i]);
                        } else {
                            assert(es2[i] == es[i]);
                            assert(es2[j] == es[j]);
                        }
                    }
                }
            }
        }
    }
}

/// A render manifest writes the Bookshelf page first, to `index.html`, and
/// never writes two pages to the same output path.
pub proof fn lemma_manifest_outputs_distinct(site: ReaderSite, rc: ReaderContextModel)
    ensures
        manifest_of(site, rc) matches Ok(es) ==> {
            &&& outputs_distinct(es)
            &&& es.len() == rc.authored_page_contexts.len() + 1
            &&& es[0] == synthetic_entry_view(rc)
        },
{
    lemma_prefix_distinct(
        config_dir_of(site.config_path@),
        synthetic_entry_view(rc),
        rc.contexts(),
        rc.authored_page_contexts.len() as int,
    );
    lemma_prefix_len(
        config_dir_of(site.config_path@),
        synthetic_entry_view(rc),
        rc.contexts(),
        rc.authored_page_contexts.len() as int,
    );
}

proof fn lemma_prefix_len(dir: Seq<char>, first: EntryView, ctxs: Seq<AuthoredContextView>, n: int)
    requires
        n >= 0,
    ensures
        manifest_prefix(dir, first, ctxs, n) matches Ok(es) ==> es.len() == n + 1,
    decreases n,
{
    if n > 0 {
        lemma_prefix_len(dir, first, ctxs, n - 1);
    }
}

/// The text that describes the error.
pub open spec fn manifest_error_text(e: &BuildRenderManifestError) -> Seq<char> {
    match e {
        BuildRenderManifestError::RootEntryMismatch { expected_page_id, actual_page_id } => "site root entry points to `"@ + actual_page_id@ + "` instead of the synthetic Bookshelf page `"@ + expected_page_id@ + "`"@,
        BuildRenderManifestError::SourcePathOutsideConfig { source_path, config_dir } => "authored source path "@ + source_path@ + " is not under the bookshelf config directory "@ + config_dir@,
        BuildRenderManifestError::OutputPathCollision { output_path, first_page, second_page } => "rendered output path "@ + output_path@ + " is claimed by both "@ + first_page@ + " and "@ + second_page@,
    }
}

impl BuildRenderManifestError {
    /// The text that describes the error, for reports.
    pub fn message(&self) -> (r: String)
        ensures
            r@ == manifest_error_text(self),
    {
        match self {
            BuildRenderManifestError::RootEntryMismatch { expected_page_id, actual_page_id } => {
                let mut s = string_from("site root entry points to `");
                s.append(actual_page_id.as_str());
                s.append("` instead of the synthetic Bookshelf page `");
                s.append(expected_page_id.as_str());
                s.append("`");
                s
            },
            BuildRenderManifestError::SourcePathOutsideConfig { source_path, config_dir } => {
                let mut s = string_from("authored source path ");
                s.append(source_path.as_str());
                s.append(" is not under the bookshelf config directory ");
                s.append(config_dir.as_str());
                s
            },
            BuildRenderManifestError::OutputPathCollision { output_path, first_page, second_page } => {
                let mut s = string_from("rendered output path ");
                s.append(output_path.as_str());
                s.append(" is claimed by both ");
                s.append(first_page.as_str());
                s.append(" and ");
                s.append(second_page.as_str());
                s
            },
        }
    }
}

} // verus!
