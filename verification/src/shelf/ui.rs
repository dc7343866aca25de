//! Runtime assets that every book of a bookshelf site loads: the link back
//! to the Bookshelf page, its style, and the search index override; and the
//! metadata block that each chapter carries for them.
use vstd::prelude::*;
use crate::paths::{join_path, parent_path, path_join, with_extension, with_extension_path};
use crate::paths::{components, parent_of, same_path};
use crate::escape::flat_map_chars;
use crate::route_paths::{path_display, path_to_string, relative_path, relative_path_spec};
use crate::text::{contains_seq, contains_str, string_from};

verus! {

/// The return link's script: reads the page metadata and adds a link to
/// the Bookshelf page to the menu bar.
pub open spec fn return_js_text() -> Seq<char> {
    RETURN_JS@
}

/// The return link's and bookshelf list's style sheet.
pub open spec fn return_css_text() -> Seq<char> {
    RETURN_CSS@
}

/// The script that points mdBook's search at the shared search index.
pub open spec fn search_js_text() -> Seq<char> {
    SEARCH_JS@
}

pub const RETURN_JS: &'static str = r##"(() => {
const metadata = readBookshelfPageMetadata();
const bookshelfTarget = typeof metadata.bookshelfTarget === "string" ? metadata.bookshelfTarget : "";
if (!bookshelfTarget) {
    return;
}
const buttonContainer = document.querySelector("#mdbook-menu-bar .right-buttons");
if (!buttonContainer || document.getElementById("bookshelf-return-link")) {
    return;
}
const svgNamespace = "http://www.w3.org/2000/svg";
const link = document.createElement("a");
link.id = "bookshelf-return-link";
link.className = "bookshelf-return-link";
link.href = bookshelfTarget;
link.rel = "up";
link.title = "Return to Bookshelf";
link.setAttribute("aria-label", "Return to Bookshelf");

const icon = document.createElementNS(svgNamespace, "svg");
icon.setAttribute("class", "bookshelf-return-icon");
icon.setAttribute("viewBox", "0 0 24 24");
icon.setAttribute("fill", "none");
icon.setAttribute("stroke", "currentColor");
icon.setAttribute("stroke-width", "2");
icon.setAttribute("stroke-linecap", "round");
icon.setAttribute("stroke-linejoin", "round");
icon.setAttribute("aria-hidden", "true");
icon.setAttribute("focusable", "false");

const shapes = [
    ["rect", { x: "3", y: "4", width: "3.5", height: "14", rx: "0.5" }],
    ["rect", { x: "8.5", y: "4", width: "3.5", height: "14", rx: "0.5" }],
    ["rect", { x: "14", y: "4", width: "3.5", height: "14", rx: "0.5" }],
    ["line", { x1: "2", y1: "20", x2: "22", y2: "20" }],
];
for (const [tag, attrs] of shapes) {
    const node = document.createElementNS(svgNamespace, tag);
    for (const name in attrs) {
        node.setAttribute(name, attrs[name]);
    }
    icon.appendChild(node);
}

const label = document.createElement("span");
label.className = "bookshelf-return-label";
label.textContent = "Bookshelf";

link.appendChild(icon);
link.appendChild(label);
buttonContainer.prepend(link);

function readBookshelfPageMetadata() {
    const node = document.getElementById("mdbook-bookshelf-page-metadata");
    if (!node) {
        return {};
    }
    try {
        return JSON.parse(node.textContent || "{}");
    } catch (_err) {
        return {};
    }
}
})();
"##;

pub const RETURN_CSS: &'static str = r##".bookshelf-list {
    display: grid;
    gap: 1rem;
    grid-template-columns: repeat(auto-fill, minmax(22rem, 1fr));
    list-style: none;
    margin: 1.5rem 0 0;
    padding: 0;
}

.bookshelf-list > li {
    margin: 0;
    padding: 0;
}

.bookshelf-book {
    background: var(--quote-bg, var(--sidebar-bg, var(--bg)));
    border: 1px solid var(--table-border-color);
    border-inline-start: 3px solid var(--links);
    border-radius: 3px;
    color: var(--fg);
    display: flex;
    flex-direction: column;
    gap: 0.35rem;
    height: 100%;
    padding: 0.85rem 1rem 0.9rem 1.1rem;
    position: relative;
    text-decoration: none;
    transition: border-inline-start-width 120ms ease, box-shadow 120ms ease, transform 120ms ease;
}

.content .bookshelf-book:link,
.content .bookshelf-book:visited {
    color: var(--fg);
}

.bookshelf-book:hover,
.bookshelf-book:focus-visible {
    border-inline-start-width: 5px;
    box-shadow: 0 2px 6px rgba(0, 0, 0, 0.12);
    text-decoration: none;
    transform: translateY(-1px);
}

.bookshelf-book:focus-visible {
    outline: 2px solid var(--links);
    outline-offset: 2px;
}

.bookshelf-book-title {
    color: var(--links);
    font-size: 1.05em;
    font-weight: 600;
    line-height: 1.3;
}

.bookshelf-book-description {
    color: var(--fg);
    font-size: 0.95em;
    line-height: 1.4;
    opacity: 0.78;
}

@media (max-width: 480px) {
    .bookshelf-list {
        grid-template-columns: 1fr;
    }
}

@media (prefers-reduced-motion: reduce) {
    .bookshelf-book {
        transition: none;
    }

    .bookshelf-book:hover,
    .bookshelf-book:focus-visible {
        transform: none;
    }
}

#mdbook-menu-bar .right-buttons .bookshelf-return-link {
    align-items: center;
    background: transparent;
    border: 0;
    border-radius: 4px;
    color: var(--icons);
    display: inline-flex;
    gap: 0.4rem;
    height: var(--menu-bar-height);
    line-height: 1;
    margin-right: 0.25rem;
    padding: 0 0.5rem;
    text-decoration: none;
    transition: background-color 150ms ease, color 150ms ease;
    white-space: nowrap;
}

#mdbook-menu-bar .right-buttons .bookshelf-return-link:hover,
#mdbook-menu-bar .right-buttons .bookshelf-return-link:focus-visible {
    color: var(--icons-hover);
    text-decoration: none;
}

#mdbook-menu-bar .right-buttons .bookshelf-return-link:focus-visible {
    outline: 2px solid var(--icons-hover);
    outline-offset: -2px;
}

#mdbook-menu-bar .right-buttons .bookshelf-return-icon {
    display: block;
    flex-shrink: 0;
    height: 1.1em;
    width: 1.1em;
}

#mdbook-menu-bar .right-buttons .bookshelf-return-label {
    font-size: 0.85em;
    font-weight: 500;
}

@media (max-width: 700px) {
    #mdbook-menu-bar .right-buttons .bookshelf-return-label {
        border: 0;
        clip: rect(0 0 0 0);
        height: 1px;
        margin: -1px;
        overflow: hidden;
        padding: 0;
        position: absolute;
        white-space: nowrap;
        width: 1px;
    }
}
"##;

pub const SEARCH_JS: &'static str = r##"(() => {
const metadata = readBookshelfPageMetadata();
if (typeof metadata.searchIndexTarget === "string" && metadata.searchIndexTarget !== "") {
    window.path_to_searchindex_js = metadata.searchIndexTarget;
}

function readBookshelfPageMetadata() {
    const node = document.getElementById("mdbook-bookshelf-page-metadata");
    if (!node) {
        return {};
    }
    try {
        return JSON.parse(node.textContent || "{}");
    } catch (_err) {
        return {};
    }
}
})();
"##;

pub const PAGE_METADATA_ID: &'static str = "mdbook-bookshelf-page-metadata";

pub const GITIGNORE_CONTENTS: &'static str = "*\n";

pub const README_CONTENTS: &'static str = "# mdbook-bookshelf Generated Assets\n\nThis directory is managed by mdbook-bookshelf.\n\nFiles here are generated runtime source assets passed to mdBook through\noutput.html.additional-css and output.html.additional-js. They can be\nrewritten on any build.\n\nDo not edit these files or place project-owned assets here. Put your own assets\noutside this directory and configure them with stock mdBook settings.\n";

/// The return link's script.
pub fn render_bookshelf_return_js() -> (js: String)
    ensures
        js@ == return_js_text(),
{
    string_from(RETURN_JS)
}

/// The return link's and bookshelf list's style sheet.
pub fn render_bookshelf_return_css() -> (css: String)
    ensures
        css@ == return_css_text(),
{
    string_from(RETURN_CSS)
}

/// The script that makes mdBook's search load the index named by the
/// page metadata.
pub fn render_bookshelf_search_js() -> (js: String)
    ensures
        js@ == search_js_text(),
{
    string_from(SEARCH_JS)
}

/// A file of the runtime assets: where it goes, relative to the project
/// root and absolute, and what it holds.
#[derive(Debug, Clone, PartialEq, Eq)]
pub struct RuntimeAsset {
    pub rel_path: String,
    pub abs_path: String,
    pub contents: String,
}

/// An entry to add to a list of mdBook's output assets.
#[derive(Debug, Clone, PartialEq, Eq)]
pub struct OutputAsset {
    pub key: String,
    pub rel_path: String,
}

/// The runtime assets of a project: where they are written.
pub struct BookshelfAssets {
    config_root: String,
    asset_dir: String,
}

/// The asset `name` in the directory `asset_dir`, under `root`.
pub open spec fn asset_at(a: RuntimeAsset, root: Seq<char>, asset_dir: Seq<char>, name: Seq<char>, contents: Seq<char>) -> bool {
    &&& a.rel_path@ == path_join(asset_dir, name)
    &&& a.abs_path@ == path_join(root, path_join(asset_dir, name))
    &&& a.contents@ == contents
}

impl BookshelfAssets {
    /// The project root.
    pub closed spec fn root(&self) -> Seq<char> {
        self.config_root@
    }

    /// The asset directory, relative to the project root.
    pub closed spec fn dir(&self) -> Seq<char> {
        self.asset_dir@
    }

    /// The assets of the project at `config_root`, in `asset_dir`.
    pub fn new(config_root: &str, asset_dir: &str) -> (r: Self)
        ensures
            r.root() == config_root@,
            r.dir() == asset_dir@,
    {
        BookshelfAssets { config_root: string_from(config_root), asset_dir: string_from(asset_dir) }
    }

    fn asset(&self, name: &str, contents: &str) -> (a: RuntimeAsset)
        ensures
            asset_at(a, self.root(), self.dir(), name@, contents@),
    {
        let rel_path = join_path(self.asset_dir.as_str(), name);
        let abs_path = join_path(self.config_root.as_str(), rel_path.as_str());
        RuntimeAsset { rel_path, abs_path, contents: string_from(contents) }
    }

    /// The files to write, in order: the directory's ignore file and
    /// notice, the return link's style sheet and script, and the search
    /// override.
    pub fn runtime_assets(&self) -> (r: Vec<RuntimeAsset>)
        ensures
            r.len() == 5,
            asset_at(r@[0], self.root(), self.dir(), ".gitignore"@, GITIGNORE_CONTENTS@),
            asset_at(r@[1], self.root(), self.dir(), "README.md"@, README_CONTENTS@),
            asset_at(r@[2], self.root(), self.dir(), "bookshelf-return.css"@, return_css_text()),
            asset_at(r@[3], self.root(), self.dir(), "bookshelf-return.js"@, return_js_text()),
            asset_at(r@[4], self.root(), self.dir(), "bookshelf-search.js"@, search_js_text()),
    {
        let mut r: Vec<RuntimeAsset> = Vec::new();
        r.push(self.asset(".gitignore", GITIGNORE_CONTENTS));
        r.push(self.asset("README.md", README_CONTENTS));
        r.push(self.asset("bookshelf-return.css", RETURN_CSS));
        r.push(self.asset("bookshelf-return.js", RETURN_JS));
        r.push(self.asset("bookshelf-search.js", SEARCH_JS));
        r
    }

    /// The entries to add to mdBook's output asset lists, in order: the
    /// style sheet to the CSS list, the two scripts to the JS list.
    pub fn output_assets(&self) -> (r: Vec<OutputAsset>)
        ensures
            r.len() == 3,
            r@[0].key@ == "output.html.additional-css"@,
            r@[0].rel_path@ == path_join(self.dir(), "bookshelf-return.css"@),
            r@[1].key@ == "output.html.additional-js"@,
            r@[1].rel_path@ == path_join(self.dir(), "bookshelf-return.js"@),
            r@[2].key@ == "output.html.additional-js"@,
            r@[2].rel_path@ == path_join(self.dir(), "bookshelf-search.js"@),
    {
        let mut r: Vec<OutputAsset> = Vec::new();
        r.push(
            OutputAsset {
                key: string_from("output.html.additional-css"),
                rel_path: join_path(self.asset_dir.as_str(), "bookshelf-return.css"),
            },
        );
        r.push(
            OutputAsset {
                key: string_from("output.html.additional-js"),
                rel_path: join_path(self.asset_dir.as_str(), "bookshelf-return.js"),
            },
        );
        r.push(
            OutputAsset {
                key: string_from("output.html.additional-js"),
                rel_path: join_path(self.asset_dir.as_str(), "bookshelf-search.js"),
            },
        );
        r
    }
}

/// Adds `asset` to an output asset list unless the same path is in it.
pub fn append_output_asset(assets: &mut Vec<String>, asset: &str)
    ensures
        (exists|i: int| 0 <= i < old(assets).len() && components(#[trigger] old(assets)@[i]@) == components(asset@))
            ==> final(assets)@ == old(assets)@,
        !(exists|i: int| 0 <= i < old(assets).len() && components(#[trigger] old(assets)@[i]@) == components(asset@))
            ==> final(assets)@.len() == old(assets)@.len() + 1 && final(assets)@.take(old(assets)@.len() as int) == old(assets)@
            && final(assets)@.last()@ == asset@,
{
    let mut i: usize = 0;
    while i < assets.len()
        invariant
            i <= assets.len(),
            forall|k: int| 0 <= k < i ==> components(#[trigger] assets@[k]@) != components(asset@),
        decreases assets.len() - i,
    {
        if same_path(assets[i].as_str(), asset) {
            return;
        }
        i += 1;
    }
    let ghost before = assets@;
    assets.push(string_from(asset));
    assert(assets@.take(before.len() as int) =~= before);
}

/// A lowercase hexadecimal digit.
pub open spec fn hex_lower(d: nat) -> char {
    if d < 10 {
        ((d + 48) as u32) as char
    } else {
        ((d + 87) as u32) as char
    }
}

/// How serde_json writes one character inside a JSON string: `"` and `\`
/// and the control characters are escaped, the short forms where JSON has
/// them, `\u00xx` with lowercase hex otherwise.
pub open spec fn json_char_escape(c: char) -> Seq<char> {
    if c == '"' {
        seq!['\\', '"']
    } else if c == '\\' {
        seq!['\\', '\\']
    } else if c == '\x08' {
        seq!['\\', 'b']
    } else if c == '\t' {
        seq!['\\', 't']
    } else if c == '\n' {
        seq!['\\', 'n']
    } else if c == '\x0C' {
        seq!['\\', 'f']
    } else if c == '\r' {
        seq!['\\', 'r']
    } else if (c as u32) < 0x20 {
        seq!['\\', 'u', '0', '0', hex_lower((c as nat) / 16), hex_lower((c as nat) % 16)]
    } else {
        seq![c]
    }
}

/// The JSON string literal of `s` as serde_json writes it.
pub open spec fn json_string_literal(s: Seq<char>) -> Seq<char> {
    seq!['"'] + flat_map_chars(s, |c: char| json_char_escape(c)) + seq!['"']
}

/// `serde_json::to_string` on a string: the JSON string literal of `text`,
/// escaped as `json_char_escape` says. Writing a string into memory cannot
/// fail, so the result is always there.
#[verifier::external_body]
fn json_quote(text: &str) -> (r: Option<String>)
    ensures
        r is Some,
        r.unwrap()@ == json_string_literal(text@),
{
    serde_json::to_string(text).ok()
}

/// Why a chapter's metadata could not be written.
#[derive(Debug, Clone, PartialEq, Eq)]
pub enum PageMetadataError {
    Serialize,
}

/// Adds, to every chapter of a book, the block of metadata that the runtime
/// scripts read: where the Bookshelf page and the search index are,
/// relative to the chapter's rendered page.
#[derive(Debug, Clone, PartialEq, Eq)]
pub struct BookshelfPageMetadataPreprocessor {
    pub book_output_rel: String,
    pub root_bookshelf_rel: String,
    pub search_index_rel: String,
}

/// The metadata block of a chapter whose source path is `path`.
pub open spec fn metadata_block(p: BookshelfPageMetadataPreprocessor, path: Seq<char>) -> Seq<char> {
    let out = path_join(p.book_output_rel@, with_extension_path(path, "html"@));
    let dir = match parent_path(out) {
        Some(d) => d,
        None => Seq::empty(),
    };
    let bookshelf_target = path_display(relative_path_spec(dir, p.root_bookshelf_rel@));
    let search_target = path_display(relative_path_spec(dir, p.search_index_rel@));
    "<script type=\"application/json\" id=\""@ + PAGE_METADATA_ID@ + "\">"@ + "{\"bookshelfTarget\":"@
        + json_string_literal(bookshelf_target) + ",\"searchIndexTarget\":"@ + json_string_literal(search_target)
        + "}"@ + "</script>\n\n"@
}

impl BookshelfPageMetadataPreprocessor {
    /// A preprocessor for the book written to `book_output_rel`, with the
    /// Bookshelf page at `root_bookshelf_rel` and the search index script
    /// at `search_index_rel`, all relative to the site output.
    pub fn new(book_output_rel: &str, root_bookshelf_rel: &str, search_index_rel: &str) -> (r: Self)
        ensures
            r.book_output_rel@ == book_output_rel@,
            r.root_bookshelf_rel@ == root_bookshelf_rel@,
            r.search_index_rel@ == search_index_rel@,
    {
        BookshelfPageMetadataPreprocessor {
            book_output_rel: string_from(book_output_rel),
            root_bookshelf_rel: string_from(root_bookshelf_rel),
            search_index_rel: string_from(search_index_rel),
        }
    }

    /// Puts the metadata block in front of a chapter's content, unless the
    /// content has one already or the chapter has no source path.
    pub fn inject_chapter_metadata(&self, content: &mut String, path: Option<&str>) -> (r: Result<
        (),
        PageMetadataError,
    >)
        ensures
            r is Ok,
            contains_seq(old(content)@, PAGE_METADATA_ID@) || path is None ==> final(content)@ == old(content)@,
            !contains_seq(old(content)@, PAGE_METADATA_ID@) && path is Some ==> final(content)@ == metadata_block(
                *self,
                path->Some_0@,
            ) + old(content)@,
    {
        if contains_str(content.as_str(), PAGE_METADATA_ID) {
            return Ok(());
        }
        let chapter_path = match path {
            None => {
                return Ok(());
            },
            Some(p) => p,
        };
        let html_path = with_extension(chapter_path, "html");
        let chapter_output_path = join_path(self.book_output_rel.as_str(), html_path.as_str());
        let chapter_output_dir = match parent_of(chapter_output_path.as_str()) {
            Some(d) => d,
            None => String::new(),
        };
        let bookshelf_target = path_to_string(
            relative_path(chapter_output_dir.as_str(), self.root_bookshelf_rel.as_str()).as_str(),
        );
        let search_index_target = path_to_string(
            relative_path(chapter_output_dir.as_str(), self.search_index_rel.as_str()).as_str(),
        );
        let bookshelf_json = match json_quote(bookshelf_target.as_str()) {
            Some(j) => j,
            None => {
                return Err(PageMetadataError::Serialize);
            },
        };
        let search_json = match json_quote(search_index_target.as_str()) {
            Some(j) => j,
            None => {
                return Err(PageMetadataError::Serialize);
            },
        };
        let mut block = string_from("<script type=\"application/json\" id=\"");
        block.append(PAGE_METADATA_ID);
        block.append("\">");
        block.append("{\"bookshelfTarget\":");
        block.append(bookshelf_json.as_str());
        block.append(",\"searchIndexTarget\":");
        block.append(search_json.as_str());
        block.append("}");
        block.append("</script>\n\n");
        block.append(content.as_str());
        *content = block;
        Ok(())
    }
}

} // verus!
