//! The QA status line: what is cached, visible, annotated, found and shown.
//! The reader forms the whole line; the host supplies only what it holds
//! itself (floating-point geometry already formatted, the link-preview and
//! scholarly lookup states, the link source text and the reader status).

use vstd::prelude::*;

use crate::reader::comments::{collapse_whitespace, collapse_whitespace_chars};
use crate::reader::qa::{link_count, toc_count};
use crate::reader::search::{SearchMatchId, first_position};
use crate::reader::{
    AnnotationSummary, DemandedTile, HighlightColor, LinkTarget, PdfLink, PdfReader, RenderedTile,
};
use crate::text_format::{append_decimal, decimal_spec, push_char};
use crate::theme::theme_preference_name;

verus! {

/// Total pixel bytes of the cached tiles.
pub open spec fn cached_bytes_spec(tiles: Seq<RenderedTile>) -> int
    decreases tiles.len(),
{
    if tiles.len() == 0 {
        0
    } else {
        cached_bytes_spec(tiles.drop_last()) + tiles.last().byte_len
    }
}

/// Byte size of the largest cached tile (0 without tiles).
pub open spec fn max_tile_bytes_spec(tiles: Seq<RenderedTile>) -> int
    decreases tiles.len(),
{
    if tiles.len() == 0 {
        0
    } else {
        let rest = max_tile_bytes_spec(tiles.drop_last());
        if tiles.last().byte_len > rest {
            tiles.last().byte_len as int
        } else {
            rest
        }
    }
}

/// The tile is cached under its exact key.
pub open spec fn is_cached(rendered: Seq<RenderedTile>, tile: DemandedTile) -> bool {
    exists|j: int| 0 <= j < rendered.len() && rendered[j].key == tile.key
}

/// Number of demanded tiles on screen.
pub open spec fn visible_count(demanded: Seq<DemandedTile>) -> int
    decreases demanded.len(),
{
    if demanded.len() == 0 {
        0
    } else {
        visible_count(demanded.drop_last()) + if demanded.last().visible {
            1int
        } else {
            0
        }
    }
}

/// Number of demanded tiles on screen that are cached under their exact key.
pub open spec fn visible_cached_count(demanded: Seq<DemandedTile>, rendered: Seq<RenderedTile>) -> int
    decreases demanded.len(),
{
    if demanded.len() == 0 {
        0
    } else {
        visible_cached_count(demanded.drop_last(), rendered) + if demanded.last().visible && is_cached(
            rendered,
            demanded.last(),
        ) {
            1int
        } else {
            0
        }
    }
}

/// An on-screen tile before position `end` shows page `page`.
pub open spec fn page_shown_before(demanded: Seq<DemandedTile>, end: int, page: usize) -> bool {
    exists|j: int| 0 <= j < end && demanded[j].visible && demanded[j].key.page == page
}

/// Number of distinct pages among the on-screen tiles.
pub open spec fn visible_page_count(demanded: Seq<DemandedTile>) -> int
    decreases demanded.len(),
{
    if demanded.len() == 0 {
        0
    } else {
        let last = demanded.last();
        visible_page_count(demanded.drop_last()) + if last.visible && !page_shown_before(
            demanded,
            demanded.len() - 1,
            last.key.page,
        ) {
            1int
        } else {
            0
        }
    }
}

/// One-based position of the active match among the results (0 when none is active).
pub open spec fn active_search_position(order: Seq<SearchMatchId>, active: Option<SearchMatchId>) -> int {
    match active {
        Some(id) => match first_position(order, id) {
            Some(i) => i + 1,
            None => 0,
        },
        None => 0,
    }
}

/// Counts the status line prints, computed from the reader's state.
struct ReportCounts {
    toc_entries: usize,
    links: usize,
    link_preview: usize,
    reference_preview: usize,
    toc_hover: usize,
    cached_tiles: usize,
    cached_bytes: usize,
    max_tile_bytes: usize,
    desired_tiles: usize,
    visible_exact_cached: usize,
    visible_exact: usize,
    visible_pages: usize,
    annotations: usize,
    highlights: usize,
    highlight_colors: usize,
    comments: usize,
    annotation_revision: u64,
    search_results: usize,
    active_search: usize,
}

/// What the host holds for the status line: the floating-point values already
/// formatted as the line shows them, lookup states, the previewed link's source
/// text and the reader status.
pub struct QaStatusHost {
    /// Number of references the open reference preview groups.
    pub reference_group: usize,
    /// The text under the previewed link, if its page text is held.
    pub citation_source: Option<String>,
    /// Lookup state of the previewed link (`internal-matched`, `external-ready`, ...).
    pub link_preview_state: String,
    /// Lookup state of the scholarly metadata (`none`, `loading`, `ready`, `failed`).
    pub scholarly: String,
    pub toc_hover_strength: String,
    pub zoom: String,
    pub scroll_x: String,
    pub scroll_y: String,
    pub sidebar_progress: String,
    pub sidebar_target: String,
    pub reference_panel_value: String,
    pub reference_panel_target: String,
    pub comment_pane_progress: String,
    pub comment_pane_target: String,
    pub sidebar_anchor_error: String,
    /// The reader status, as its debug form prints it.
    pub status: String,
}

/// 1 for `true`, 0 for `false`.
pub open spec fn flag_spec(b: bool) -> int {
    if b {
        1
    } else {
        0
    }
}

/// The theme named on the status line: the chosen bundled theme, else the
/// preference's name.
pub open spec fn theme_name_spec(r: &PdfReader) -> Seq<char> {
    match r.presentation.selected_theme {
        Some(name) => name@,
        None => theme_preference_name(r.presentation.theme_preference),
    }
}

/// How pages are painted: `forced` colors or `normal`.
pub open spec fn render_mode_spec(r: &PdfReader) -> Seq<char> {
    if r.presentation.render_forced {
        "forced"@
    } else {
        "normal"@
    }
}

/// The document has a link with identifier `id`.
pub open spec fn has_link_id(links: Seq<PdfLink>, id: usize) -> bool {
    exists|i: int| 0 <= i < links.len() && links[i].id == id
}

/// The previewed link is a link of the open document.
pub open spec fn preview_found(r: &PdfReader) -> bool {
    &&& r.presentation.previewed_link is Some
    &&& r.document is Some
    &&& has_link_id(r.document->0.links@, r.presentation.previewed_link->0)
}

/// One-based identifier of the previewed link (0 when none is shown).
pub open spec fn link_preview_spec(r: &PdfReader) -> int {
    if preview_found(r) {
        r.presentation.previewed_link->0 + 1
    } else {
        0
    }
}

/// One-based previewed bibliography entry (0 when none).
pub open spec fn reference_preview_spec(r: &PdfReader) -> int {
    match r.presentation.previewed_reference {
        Some(i) => i + 1,
        None => 0,
    }
}

/// One-based hovered table-of-contents entry (0 when none).
pub open spec fn toc_hover_spec(r: &PdfReader) -> int {
    match r.toc_hovered {
        Some(i) => i + 1,
        None => 0,
    }
}

/// The words of `text` joined by underscores.
pub open spec fn underscored_words(text: Seq<char>) -> Seq<char> {
    collapse_whitespace(text).map_values(|c: char| if c == ' ' { '_' } else { c })
}

/// The previewed link's source text with its words joined by underscores, or
/// `none` without a shown link or with no source text.
pub open spec fn citation_source_spec(r: &PdfReader, h: &QaStatusHost) -> Seq<char> {
    if preview_found(r) && h.citation_source is Some && h.citation_source->0@.len() > 0 {
        underscored_words(h.citation_source->0@)
    } else {
        "none"@
    }
}

/// The previewed link's lookup state, or `none` without a shown link.
pub open spec fn link_preview_state_spec(r: &PdfReader, h: &QaStatusHost) -> Seq<char> {
    if preview_found(r) {
        h.link_preview_state@
    } else {
        "none"@
    }
}

/// Revision of the loaded annotation set (0 without one).
pub open spec fn annotation_revision_spec(r: &PdfReader) -> int {
    match r.annotation_revision {
        Some(revision) => revision as int,
        None => 0,
    }
}

/// Owner of the open extension panel, or `none`.
pub open spec fn extension_panel_spec(r: &PdfReader) -> Seq<char> {
    match r.presentation.extension_panel_owner {
        Some(owner) => owner@,
        None => "none"@,
    }
}

/// Number of highlighted annotations.
pub open spec fn highlight_count(a: Seq<AnnotationSummary>) -> int
    decreases a.len(),
{
    if a.len() == 0 {
        0
    } else {
        highlight_count(a.drop_last()) + if a.last().highlight is Some {
            1int
        } else {
            0
        }
    }
}

/// Number of annotations carrying a comment.
pub open spec fn comment_count(a: Seq<AnnotationSummary>) -> int
    decreases a.len(),
{
    if a.len() == 0 {
        0
    } else {
        comment_count(a.drop_last()) + if a.last().has_comment {
            1int
        } else {
            0
        }
    }
}

/// Some annotation is highlighted in `color`.
pub open spec fn has_color(a: Seq<AnnotationSummary>, color: HighlightColor) -> bool {
    exists|i: int| 0 <= i < a.len() && a[i].highlight == Some(color)
}

/// Number of distinct highlight colors in use.
pub open spec fn color_count(a: Seq<AnnotationSummary>) -> int {
    flag_spec(has_color(a, HighlightColor::Yellow)) + flag_spec(has_color(a, HighlightColor::Green))
        + flag_spec(has_color(a, HighlightColor::Blue)) + flag_spec(has_color(a, HighlightColor::Pink))
        + flag_spec(has_color(a, HighlightColor::Purple))
}

/// The counts agree with the reader's state.
spec fn counts_of(r: &PdfReader, c: &ReportCounts) -> bool {
    &&& c.toc_entries == toc_count(r)
    &&& c.links == link_count(r)
    &&& c.link_preview == link_preview_spec(r)
    &&& c.reference_preview == reference_preview_spec(r)
    &&& c.toc_hover == toc_hover_spec(r)
    &&& c.cached_tiles == r.rendered@.len()
    &&& c.cached_bytes == cached_bytes_spec(r.rendered@)
    &&& c.max_tile_bytes == max_tile_bytes_spec(r.rendered@)
    &&& c.desired_tiles == r.render_viewport@.len()
    &&& c.visible_exact_cached == visible_cached_count(r.render_viewport@, r.rendered@)
    &&& c.visible_exact == visible_count(r.render_viewport@)
    &&& c.visible_pages == visible_page_count(r.render_viewport@)
    &&& c.annotations == r.annotations@.len()
    &&& c.highlights == highlight_count(r.annotations@)
    &&& c.highlight_colors == color_count(r.annotations@)
    &&& c.comments == comment_count(r.annotations@)
    &&& c.annotation_revision == annotation_revision_spec(r)
    &&& c.search_results == r.search.order@.len()
    &&& c.active_search == active_search_position(r.search.order@, r.search.active)
}

/// The status line after `p`: theme, render mode, table of contents and link and reference previews.
pub open spec fn status_line_links(p: Seq<char>, r: &PdfReader, h: &QaStatusHost) -> Seq<char> {
    let p = p + " theme="@ + theme_name_spec(r);
    let p = p + " pdf_render="@ + render_mode_spec(r);
    let p = p + " pdf_dark_enabled="@ + decimal_spec((flag_spec(r.pdf_dark_mode_enabled)) as nat);
    let p = p + " toc="@ + decimal_spec((toc_count(r)) as nat);
    let p = p + " links="@ + decimal_spec((link_count(r)) as nat);
    let p = p + " link_navigations="@ + decimal_spec((r.qa_link_navigations as int) as nat);
    let p = p + " link_preview="@ + decimal_spec((link_preview_spec(r)) as nat);
    let p = p + " reference_preview="@ + decimal_spec((reference_preview_spec(r)) as nat);
    let p = p + " reference_group="@ + decimal_spec((h.reference_group as int) as nat);
    let p = p + " citation_source="@ + citation_source_spec(r, h);
    let p = p + " link_preview_state="@ + link_preview_state_spec(r, h);
    let p = p + " scholarly="@ + h.scholarly@;
    p
}

/// The status line after `p`: scientific signals, table-of-contents hover and zoom.
pub open spec fn status_line_scientific(p: Seq<char>, r: &PdfReader, h: &QaStatusHost) -> Seq<char> {
    let p = p + " scientific="@ + decimal_spec((flag_spec(r.scientific_document)) as nat);
    let p = p + "/"@ + decimal_spec((flag_spec(r.scientific_analysis_complete)) as nat);
    let p = p + " references="@ + decimal_spec((r.scientific_signals.reference_entries as int) as nat);
    let p = p + " dois="@ + decimal_spec((r.scientific_signals.doi_entries as int) as nat);
    let p = p + " bracket_citations="@ + decimal_spec((r.scientific_signals.bracket_citations as int) as nat);
    let p = p + " superscript_citations="@ + decimal_spec((r.scientific_signals.superscript_citations as int) as nat);
    let p = p + " toc_hover="@ + decimal_spec((toc_hover_spec(r)) as nat);
    let p = p + " toc_hover_strength="@ + h.toc_hover_strength@;
    let p = p + " toc_text_matches="@ + decimal_spec((r.qa_counts.toc_text_matches as int) as nat);
    let p = p + " toc_callout_holds="@ + decimal_spec((r.qa_toc_callout_holds as int) as nat);
    let p = p + " zoom="@ + h.zoom@;
    p
}

/// The status line after `p`: tile and text caches, visible tiles, scroll and panel positions.
pub open spec fn status_line_render(p: Seq<char>, r: &PdfReader, h: &QaStatusHost) -> Seq<char> {
    let p = p + " cached_tiles="@ + decimal_spec((r.rendered@.len() as int) as nat);
    let p = p + " cached_bytes="@ + decimal_spec((cached_bytes_spec(r.rendered@)) as nat);
    let p = p + " max_tile_bytes="@ + decimal_spec((max_tile_bytes_spec(r.rendered@)) as nat);
    let p = p + " cached_text_pages="@ + decimal_spec((r.text_cache.cached_pages as int) as nat);
    let p = p + " text_desired="@ + decimal_spec((r.text_cache.desired_pages as int) as nat);
    let p = p + " pending="@ + decimal_spec((r.pending_tiles as int) as nat);
    let p = p + " desired="@ + decimal_spec((r.render_viewport@.len() as int) as nat);
    let p = p + " visible_exact="@ + decimal_spec((visible_cached_count(r.render_viewport@, r.rendered@)) as nat);
    let p = p + "/"@ + decimal_spec((visible_count(r.render_viewport@)) as nat);
    let p = p + " visible_pages="@ + decimal_spec((visible_page_count(r.render_viewport@)) as nat);
    let p = p + " debouncing="@ + decimal_spec((flag_spec(r.render_debounce_pending)) as nat);
    let p = p + " scroll=("@ + h.scroll_x@;
    let p = p + ","@ + h.scroll_y@;
    let p = p + ") sidebar="@ + h.sidebar_progress@;
    let p = p + "/"@ + h.sidebar_target@;
    let p = p + " reference_panel="@ + h.reference_panel_value@;
    let p = p + "/"@ + h.reference_panel_target@;
    let p = p + " comment_pane="@ + h.comment_pane_progress@;
    let p = p + "/"@ + h.comment_pane_target@;
    p
}

/// The status line after `p`: comment editor and annotations.
pub open spec fn status_line_comments(p: Seq<char>, r: &PdfReader, h: &QaStatusHost) -> Seq<char> {
    let p = p + " comment_editor="@ + decimal_spec((flag_spec(r.comment_editor_open)) as nat);
    let p = p + " comment_dirty="@ + decimal_spec((flag_spec(r.comment_draft_dirty)) as nat);
    let p = p + " autosave_pending="@ + decimal_spec((flag_spec(r.comment_autosave_pending)) as nat);
    let p = p + " sidebar_transitions="@ + decimal_spec((r.qa_counts.sidebar_transitions as int) as nat);
    let p = p + " sidebar_anchor_error="@ + h.sidebar_anchor_error@;
    let p = p + " annotations="@ + decimal_spec((r.annotations@.len() as int) as nat);
    let p = p + " highlights="@ + decimal_spec((highlight_count(r.annotations@)) as nat);
    let p = p + " highlight_colors="@ + decimal_spec((color_count(r.annotations@)) as nat);
    let p = p + " comments="@ + decimal_spec((comment_count(r.annotations@)) as nat);
    let p = p + " annotation_revision="@ + decimal_spec((annotation_revision_spec(r)) as nat);
    let p = p + "/"@ + decimal_spec((r.annotation_enqueued_revision as int) as nat);
    let p = p + "/"@ + decimal_spec((r.annotation_saved_revision as int) as nat);
    let p = p + " annotation_loading="@ + decimal_spec((flag_spec(r.annotations_loading)) as nat);
    let p = p + " annotation_blocked="@ + decimal_spec((flag_spec(r.annotation_persistence_blocked)) as nat);
    p
}

/// The status line after `p`: search, extensions and status.
pub open spec fn status_line_search(p: Seq<char>, r: &PdfReader, h: &QaStatusHost) -> Seq<char> {
    let p = p + " search_results="@ + decimal_spec((r.search.order@.len() as int) as nat);
    let p = p + " search_pages="@ + decimal_spec((r.search.searched_pages as int) as nat);
    let p = p + " search_highlight_runs="@ + decimal_spec((r.search.total_highlight_runs as int) as nat);
    let p = p + " active_search="@ + decimal_spec((active_search_position(r.search.order@, r.search.active)) as nat);
    let p = p + " search_focuses="@ + decimal_spec((r.qa_counts.search_focuses as int) as nat);
    let p = p + " search_complete="@ + decimal_spec((flag_spec(r.search.complete)) as nat);
    let p = p + " extension_packages="@ + decimal_spec((0) as nat);
    let p = p + " extension_active="@ + decimal_spec((0) as nat);
    let p = p + " extension_suspended="@ + decimal_spec((0) as nat);
    let p = p + " extension_failed="@ + decimal_spec((0) as nat);
    let p = p + " extension_panel="@ + extension_panel_spec(r);
    let p = p + " extension_checks="@ + decimal_spec((r.qa_counts.extension_checks as int) as nat);
    let p = p + " extension_native_rejected="@ + decimal_spec((flag_spec(r.qa_counts.extension_native_rejected)) as nat);
    let p = p + " status="@ + h.status@;
    p
}

/// The whole QA status line.
pub open spec fn status_line_spec(r: &PdfReader, h: &QaStatusHost) -> Seq<char> {
    let p = "GPUI_PDF_READER_QA view=Fluid"@;
    let p = status_line_links(p, r, h);
    let p = status_line_scientific(p, r, h);
    let p = status_line_render(p, r, h);
    let p = status_line_comments(p, r, h);
    status_line_search(p, r, h)
}

fn flag(b: bool) -> (n: u64)
    ensures
        n == flag_spec(b),
{
    if b {
        1
    } else {
        0
    }
}

fn append_number(line: &mut String, label: &str, n: u64)
    ensures
        final(line)@ == old(line)@ + label@ + decimal_spec(n as nat),
{
    line.append(label);
    append_decimal(line, n);
}

fn append_text(line: &mut String, label: &str, value: &str)
    ensures
        final(line)@ == old(line)@ + label@ + value@,
{
    line.append(label);
    line.append(value);
}

/// The words of `text` joined by underscores.
pub fn underscore_words(text: &str) -> (joined: String)
    ensures
        joined@ == underscored_words(text@),
{
    let collapsed = collapse_whitespace_chars(text);
    let mut joined = String::new();
    for index in 0..collapsed.len()
        invariant
            collapsed@ == collapse_whitespace(text@),
            joined@ == collapsed@.take(index as int).map_values(|c: char| if c == ' ' { '_' } else { c }),
    {
        let c = collapsed[index];
        push_char(&mut joined, if c == ' ' { '_' } else { c });
        proof {
            assert(collapsed@.take(index + 1).map_values(|c: char| if c == ' ' { '_' } else { c })
                =~= collapsed@.take(index as int).map_values(|c: char| if c == ' ' { '_' } else { c }).push(
                if c == ' ' { '_' } else { c },
            ));
        }
    }
    proof {
        assert(collapsed@.take(collapsed@.len() as int) =~= collapsed@);
    }
    joined
}

fn citation_source_text(found: bool, source: &Option<String>) -> (text: String)
    ensures
        text@ == (if found && source is Some && source->0@.len() > 0 {
            underscored_words(source->0@)
        } else {
            "none"@
        }),
{
    if found {
        if let Some(text) = source {
            if !text.as_str().is_empty() {
                return underscore_words(text.as_str());
            }
        }
    }
    "none".to_owned()
}

fn cached_totals(tiles: &Vec<RenderedTile>) -> (totals: (usize, usize))
    requires
        cached_bytes_spec(tiles@) <= usize::MAX,
    ensures
        totals.0 == cached_bytes_spec(tiles@),
        totals.1 == max_tile_bytes_spec(tiles@),
{
    let mut sum: usize = 0;
    let mut largest: usize = 0;
    for index in 0..tiles.len()
        invariant
            cached_bytes_spec(tiles@) <= usize::MAX,
            sum == cached_bytes_spec(tiles@.take(index as int)),
            largest == max_tile_bytes_spec(tiles@.take(index as int)),
    {
        proof {
            assert(tiles@.take(index + 1).drop_last() =~= tiles@.take(index as int));
            lemma_cached_bytes_prefix(tiles@, index + 1);
        }
        let bytes = tiles[index].byte_len;
        sum = sum + bytes;
        if bytes > largest {
            largest = bytes;
        }
    }
    proof {
        assert(tiles@.take(tiles@.len() as int) =~= tiles@);
    }
    (sum, largest)
}

proof fn lemma_cached_bytes_prefix(tiles: Seq<RenderedTile>, n: int)
    requires
        0 <= n <= tiles.len(),
    ensures
        cached_bytes_spec(tiles.take(n)) <= cached_bytes_spec(tiles),
    decreases tiles.len(),
{
    if n < tiles.len() {
        assert(tiles.drop_last().take(n) =~= tiles.take(n));
        lemma_cached_bytes_prefix(tiles.drop_last(), n);
    } else {
        assert(tiles.take(n) =~= tiles);
    }
}

fn tile_is_cached(rendered: &Vec<RenderedTile>, tile: DemandedTile) -> (cached: bool)
    ensures
        cached == is_cached(rendered@, tile),
{
    let mut index: usize = 0;
    while index < rendered.len()
        invariant
            0 <= index <= rendered@.len(),
            forall|j: int| 0 <= j < index ==> rendered@[j].key != tile.key,
        decreases rendered@.len() - index,
    {
        if rendered[index].key == tile.key {
            return true;
        }
        index = index + 1;
    }
    false
}

fn shown_before(demanded: &Vec<DemandedTile>, end: usize, page: usize) -> (shown: bool)
    requires
        end <= demanded@.len(),
    ensures
        shown == page_shown_before(demanded@, end as int, page),
{
    let mut index: usize = 0;
    while index < end
        invariant
            end <= demanded@.len(),
            0 <= index <= end,
            forall|j: int| 0 <= j < index ==> !(demanded@[j].visible && demanded@[j].key.page == page),
        decreases end - index,
    {
        if demanded[index].visible && demanded[index].key.page == page {
            return true;
        }
        index = index + 1;
    }
    false
}

proof fn lemma_shown_before_prefix(demanded: Seq<DemandedTile>, n: int, page: usize)
    requires
        0 < n <= demanded.len(),
    ensures
        page_shown_before(demanded.take(n), n - 1, page) == page_shown_before(demanded, n - 1, page),
{
    if page_shown_before(demanded, n - 1, page) {
        let j = choose|j: int| 0 <= j < n - 1 && demanded[j].visible && demanded[j].key.page == page;
        assert(demanded.take(n)[j] == demanded[j]);
    }
    if page_shown_before(demanded.take(n), n - 1, page) {
        let j = choose|j: int|
            0 <= j < n - 1 && demanded.take(n)[j].visible && demanded.take(n)[j].key.page == page;
        assert(demanded.take(n)[j] == demanded[j]);
    }
}

fn visible_counts(demanded: &Vec<DemandedTile>, rendered: &Vec<RenderedTile>) -> (counts: (
    usize,
    usize,
    usize,
))
    ensures
        counts.0 == visible_count(demanded@),
        counts.1 == visible_cached_count(demanded@, rendered@),
        counts.2 == visible_page_count(demanded@),
{
    let mut visible: usize = 0;
    let mut cached: usize = 0;
    let mut pages: usize = 0;
    for index in 0..demanded.len()
        invariant
            visible == visible_count(demanded@.take(index as int)),
            cached == visible_cached_count(demanded@.take(index as int), rendered@),
            pages == visible_page_count(demanded@.take(index as int)),
            visible <= index,
            cached <= index,
            pages <= index,
    {
        let ghost prefix = demanded@.take(index + 1);
        proof {
            assert(prefix.drop_last() =~= demanded@.take(index as int));
            lemma_shown_before_prefix(demanded@, index + 1, demanded@[index as int].key.page);
        }
        let tile = demanded[index];
        if tile.visible {
            visible = visible + 1;
            if tile_is_cached(rendered, tile) {
                cached = cached + 1;
            }
            if !shown_before(demanded, index, tile.key.page) {
                pages = pages + 1;
            }
        }
    }
    proof {
        assert(demanded@.take(demanded@.len() as int) =~= demanded@);
    }
    (visible, cached, pages)
}

fn active_position(order: &Vec<SearchMatchId>, active: Option<SearchMatchId>) -> (position: usize)
    ensures
        position == active_search_position(order@, active),
{
    match active {
        None => 0,
        Some(id) => {
            let mut index: usize = 0;
            while index < order.len()
                invariant
                    active == Some(id),
                    0 <= index <= order@.len(),
                    first_position(order@.take(index as int), id) is None,
                decreases order@.len() - index,
            {
                proof {
                    assert(order@.take(index + 1).drop_last() =~= order@.take(index as int));
                }
                if order[index] == id {
                    proof {
                        lemma_first_position_found(order@, id, index + 1);
                    }
                    return index + 1;
                }
                index = index + 1;
            }
            proof {
                assert(order@.take(order@.len() as int) =~= order@);
            }
            0
        },
    }
}

proof fn lemma_first_position_found(order: Seq<SearchMatchId>, id: SearchMatchId, n: int)
    requires
        0 < n <= order.len(),
        first_position(order.take(n - 1), id) is None,
        order[n - 1] == id,
    ensures
        first_position(order, id) == Some(n - 1),
    decreases order.len() - n,
{
    assert(order.take(n).drop_last() =~= order.take(n - 1));
    if n < order.len() {
        lemma_first_position_kept(order, id, n);
    } else {
        assert(order.take(n) =~= order);
    }
}

proof fn lemma_first_position_kept(order: Seq<SearchMatchId>, id: SearchMatchId, n: int)
    requires
        0 < n <= order.len(),
        first_position(order.take(n), id) is Some,
    ensures
        first_position(order, id) == first_position(order.take(n), id),
    decreases order.len() - n,
{
    if n < order.len() {
        assert(order.take(n + 1).drop_last() =~= order.take(n));
        lemma_first_position_kept(order, id, n + 1);
    } else {
        assert(order.take(n) =~= order);
    }
}

fn annotation_counts(a: &Vec<AnnotationSummary>) -> (counts: (usize, usize, usize))
    ensures
        counts.0 == highlight_count(a@),
        counts.1 == color_count(a@),
        counts.2 == comment_count(a@),
{
    let mut highlights: usize = 0;
    let mut comments: usize = 0;
    let mut yellow = false;
    let mut green = false;
    let mut blue = false;
    let mut pink = false;
    let mut purple = false;
    for index in 0..a.len()
        invariant
            highlights == highlight_count(a@.take(index as int)),
            comments == comment_count(a@.take(index as int)),
            highlights <= index,
            comments <= index,
            yellow == has_color(a@.take(index as int), HighlightColor::Yellow),
            green == has_color(a@.take(index as int), HighlightColor::Green),
            blue == has_color(a@.take(index as int), HighlightColor::Blue),
            pink == has_color(a@.take(index as int), HighlightColor::Pink),
            purple == has_color(a@.take(index as int), HighlightColor::Purple),
    {
        let ghost before = a@.take(index as int);
        let ghost after = a@.take(index + 1);
        proof {
            assert(after.drop_last() =~= before);
            assert(after.last() == a@[index as int]);
            assert forall|c: HighlightColor| has_color(after, c) == (has_color(before, c) || a@[index as int].highlight == Some(c)) by {
                if has_color(after, c) {
                    let i = choose|i: int| 0 <= i < after.len() && after[i].highlight == Some(c);
                    if i < index {
                        assert(before[i] == after[i]);
                    }
                }
                if has_color(before, c) {
                    let i = choose|i: int| 0 <= i < before.len() && before[i].highlight == Some(c);
                    assert(after[i] == before[i]);
                }
            }
        }
        let item = a[index];
        match item.highlight {
            Some(color) => {
                highlights = highlights + 1;
                match color {
                    HighlightColor::Yellow => yellow = true,
                    HighlightColor::Green => green = true,
                    HighlightColor::Blue => blue = true,
                    HighlightColor::Pink => pink = true,
                    HighlightColor::Purple => purple = true,
                }
            },
            None => {},
        }
        if item.has_comment {
            comments = comments + 1;
        }
    }
    proof {
        assert(a@.take(a@.len() as int) =~= a@);
    }
    let colors = flag(yellow) as usize + flag(green) as usize + flag(blue) as usize + flag(pink) as usize
        + flag(purple) as usize;
    (highlights, colors, comments)
}

fn find_link_id(links: &Vec<PdfLink>, id: usize) -> (found: bool)
    ensures
        found == has_link_id(links@, id),
{
    let mut index: usize = 0;
    while index < links.len()
        invariant
            0 <= index <= links@.len(),
            forall|j: int| 0 <= j < index ==> links@[j].id != id,
        decreases links@.len() - index,
    {
        if links[index].id == id {
            return true;
        }
        index = index + 1;
    }
    false
}

impl PdfReader {
    fn report_counts(&self) -> (counts: ReportCounts)
        requires
            cached_bytes_spec(self.rendered@) <= usize::MAX,
            self.toc_hovered != Some(usize::MAX),
            self.presentation.previewed_link != Some(usize::MAX),
            self.presentation.previewed_reference != Some(usize::MAX),
        ensures
            counts_of(self, &counts),
    {
        let (cached_bytes, max_tile_bytes) = cached_totals(&self.rendered);
        let (visible_exact, visible_exact_cached, visible_pages) = visible_counts(
            &self.render_viewport,
            &self.rendered,
        );
        let (highlights, highlight_colors, comments) = annotation_counts(&self.annotations);
        let (toc_entries, links) = match &self.document {
            Some(document) => (document.toc.len(), document.links.len()),
            None => (0, 0),
        };
        let link_preview = match (self.presentation.previewed_link, &self.document) {
            (Some(id), Some(document)) => {
                if find_link_id(&document.links, id) {
                    id + 1
                } else {
                    0
                }
            },
            _ => 0,
        };
        let reference_preview = match self.presentation.previewed_reference {
            Some(index) => index + 1,
            None => 0,
        };
        let toc_hover = match self.toc_hovered {
            Some(index) => index + 1,
            None => 0,
        };
        ReportCounts {
            toc_entries,
            links,
            link_preview,
            reference_preview,
            toc_hover,
            cached_tiles: self.rendered.len(),
            cached_bytes,
            max_tile_bytes,
            desired_tiles: self.render_viewport.len(),
            visible_exact_cached,
            visible_exact,
            visible_pages,
            annotations: self.annotations.len(),
            highlights,
            highlight_colors,
            comments,
            annotation_revision: match self.annotation_revision {
                Some(revision) => revision,
                None => 0,
            },
            search_results: self.search.order.len(),
            active_search: active_position(&self.search.order, self.search.active),
        }
    }

    fn append_status_line_links(&self, line: &mut String, host: &QaStatusHost, counts: &ReportCounts)
        requires
            counts_of(self, counts),
        ensures
            final(line)@ == status_line_links(old(line)@, self, host),
    {
        let theme: &str = match &self.presentation.selected_theme {
            Some(name) => name.as_str(),
            None => self.presentation.theme_preference.name(),
        };
        let render = if self.presentation.render_forced {
            "forced"
        } else {
            "normal"
        };
        let citation = citation_source_text(counts.link_preview > 0, &host.citation_source);
        let preview_state: &str = if counts.link_preview > 0 {
            host.link_preview_state.as_str()
        } else {
            "none"
        };
        append_text(line, " theme=", theme);
        append_text(line, " pdf_render=", render);
        append_number(line, " pdf_dark_enabled=", flag(self.pdf_dark_mode_enabled));
        append_number(line, " toc=", counts.toc_entries as u64);
        append_number(line, " links=", counts.links as u64);
        append_number(line, " link_navigations=", self.qa_link_navigations as u64);
        append_number(line, " link_preview=", counts.link_preview as u64);
        append_number(line, " reference_preview=", counts.reference_preview as u64);
        append_number(line, " reference_group=", host.reference_group as u64);
        append_text(line, " citation_source=", citation.as_str());
        append_text(line, " link_preview_state=", preview_state);
        append_text(line, " scholarly=", host.scholarly.as_str());
    }

    fn append_status_line_scientific(&self, line: &mut String, host: &QaStatusHost, counts: &ReportCounts)
        requires
            counts_of(self, counts),
        ensures
            final(line)@ == status_line_scientific(old(line)@, self, host),
    {
        append_number(line, " scientific=", flag(self.scientific_document));
        append_number(line, "/", flag(self.scientific_analysis_complete));
        append_number(line, " references=", self.scientific_signals.reference_entries as u64);
        append_number(line, " dois=", self.scientific_signals.doi_entries as u64);
        append_number(line, " bracket_citations=", self.scientific_signals.bracket_citations as u64);
        append_number(line, " superscript_citations=", self.scientific_signals.superscript_citations as u64);
        append_number(line, " toc_hover=", counts.toc_hover as u64);
        append_text(line, " toc_hover_strength=", host.toc_hover_strength.as_str());
        append_number(line, " toc_text_matches=", self.qa_counts.toc_text_matches as u64);
        append_number(line, " toc_callout_holds=", self.qa_toc_callout_holds as u64);
        append_text(line, " zoom=", host.zoom.as_str());
    }

    fn append_status_line_render(&self, line: &mut String, host: &QaStatusHost, counts: &ReportCounts)
        requires
            counts_of(self, counts),
        ensures
            final(line)@ == status_line_render(old(line)@, self, host),
    {
        append_number(line, " cached_tiles=", counts.cached_tiles as u64);
        append_number(line, " cached_bytes=", counts.cached_bytes as u64);
        append_number(line, " max_tile_bytes=", counts.max_tile_bytes as u64);
        append_number(line, " cached_text_pages=", self.text_cache.cached_pages as u64);
        append_number(line, " text_desired=", self.text_cache.desired_pages as u64);
        append_number(line, " pending=", self.pending_tiles as u64);
        append_number(line, " desired=", counts.desired_tiles as u64);
        append_number(line, " visible_exact=", counts.visible_exact_cached as u64);
        append_number(line, "/", counts.visible_exact as u64);
        append_number(line, " visible_pages=", counts.visible_pages as u64);
        append_number(line, " debouncing=", flag(self.render_debounce_pending));
        append_text(line, " scroll=(", host.scroll_x.as_str());
        append_text(line, ",", host.scroll_y.as_str());
        append_text(line, ") sidebar=", host.sidebar_progress.as_str());
        append_text(line, "/", host.sidebar_target.as_str());
        append_text(line, " reference_panel=", host.reference_panel_value.as_str());
        append_text(line, "/", host.reference_panel_target.as_str());
        append_text(line, " comment_pane=", host.comment_pane_progress.as_str());
        append_text(line, "/", host.comment_pane_target.as_str());
    }

    fn append_status_line_comments(&self, line: &mut String, host: &QaStatusHost, counts: &ReportCounts)
        requires
            counts_of(self, counts),
        ensures
            final(line)@ == status_line_comments(old(line)@, self, host),
    {
        append_number(line, " comment_editor=", flag(self.comment_editor_open));
        append_number(line, " comment_dirty=", flag(self.comment_draft_dirty));
        append_number(line, " autosave_pending=", flag(self.comment_autosave_pending));
        append_number(line, " sidebar_transitions=", self.qa_counts.sidebar_transitions as u64);
        append_text(line, " sidebar_anchor_error=", host.sidebar_anchor_error.as_str());
        append_number(line, " annotations=", counts.annotations as u64);
        append_number(line, " highlights=", counts.highlights as u64);
        append_number(line, " highlight_colors=", counts.highlight_colors as u64);
        append_number(line, " comments=", counts.comments as u64);
        append_number(line, " annotation_revision=", counts.annotation_revision);
        append_number(line, "/", self.annotation_enqueued_revision);
        append_number(line, "/", self.annotation_saved_revision);
        append_number(line, " annotation_loading=", flag(self.annotations_loading));
        append_number(line, " annotation_blocked=", flag(self.annotation_persistence_blocked));
    }

    fn append_status_line_search(&self, line: &mut String, host: &QaStatusHost, counts: &ReportCounts)
        requires
            counts_of(self, counts),
        ensures
            final(line)@ == status_line_search(old(line)@, self, host),
    {
        let panel: &str = match &self.presentation.extension_panel_owner {
            Some(owner) => owner.as_str(),
            None => "none",
        };
        append_number(line, " search_results=", counts.search_results as u64);
        append_number(line, " search_pages=", self.search.searched_pages as u64);
        append_number(line, " search_highlight_runs=", self.search.total_highlight_runs as u64);
        append_number(line, " active_search=", counts.active_search as u64);
        append_number(line, " search_focuses=", self.qa_counts.search_focuses as u64);
        append_number(line, " search_complete=", flag(self.search.complete));
        append_number(line, " extension_packages=", 0);
        append_number(line, " extension_active=", 0);
        append_number(line, " extension_suspended=", 0);
        append_number(line, " extension_failed=", 0);
        append_text(line, " extension_panel=", panel);
        append_number(line, " extension_checks=", self.qa_counts.extension_checks as u64);
        append_number(line, " extension_native_rejected=", flag(self.qa_counts.extension_native_rejected));
        append_text(line, " status=", host.status.as_str());
    }
    /// The QA status line: one line, beginning `GPUI_PDF_READER_QA view=Fluid`,
    /// naming the theme and render mode and giving every count the QA scripts
    /// read, with the host's values where the host holds them.
    pub fn qa_report(&self, host: &QaStatusHost) -> (line: String)
        requires
            self.well_formed(),
            cached_bytes_spec(self.rendered@) <= usize::MAX,
            self.toc_hovered != Some(usize::MAX),
            self.presentation.previewed_link != Some(usize::MAX),
            self.presentation.previewed_reference != Some(usize::MAX),
        ensures
            line@ == status_line_spec(self, host),
    {
        let counts = self.report_counts();
        let mut line = "GPUI_PDF_READER_QA view=Fluid".to_owned();
        self.append_status_line_links(&mut line, host, &counts);
        self.append_status_line_scientific(&mut line, host, &counts);
        self.append_status_line_render(&mut line, host, &counts);
        self.append_status_line_comments(&mut line, host, &counts);
        self.append_status_line_search(&mut line, host, &counts);
        line
    }
}

/// On-screen tiles are never fewer than the cached ones among them, nor than the
/// distinct pages they show.
pub proof fn law_report_counts_are_consistent(demanded: Seq<DemandedTile>, rendered: Seq<RenderedTile>)
    ensures
        0 <= visible_cached_count(demanded, rendered) <= visible_count(demanded),
        0 <= visible_page_count(demanded) <= visible_count(demanded),
    decreases demanded.len(),
{
    if demanded.len() > 0 {
        law_report_counts_are_consistent(demanded.drop_last(), rendered);
    }
}

} // verus!
