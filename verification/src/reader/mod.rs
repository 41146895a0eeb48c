//! The reader's decision logic over a plain-valued model of its state.
//!
//! `PdfReader` holds, as integers, strings, flags and collections, what the
//! reader's QA hooks, comment and search handlers read. Rendering, timers,
//! platform windows and animations stay with the host; a handler returns the
//! [`ReaderEffect`] the host performs next.

pub mod comments;
pub mod extensions;
pub mod qa;
pub mod qa_feature;
pub mod qa_fluid;
pub mod qa_report;
pub mod render;
pub mod search;
pub mod toc;

use vstd::prelude::*;

use crate::reader::render::AnnotationId;
use crate::reader::search::SearchState;
use crate::text_field::TextField;
use crate::theme::ThemePreference;

verus! {

/// One table-of-contents entry: its title, zero-based page and nesting depth.
#[derive(Clone, Debug, PartialEq, Eq)]
pub struct TocEntry {
    pub title: String,
    pub page: usize,
    pub depth: u16,
}

/// Where a document link leads.
#[derive(Clone, Debug, PartialEq, Eq)]
pub enum LinkTarget {
    /// A page of the same document.
    Internal { page: usize },
    /// An outside address.
    External { url: String },
}

/// A link annotation on a page.
#[derive(Clone, Debug, PartialEq, Eq)]
pub struct PdfLink {
    pub id: usize,
    pub page: usize,
    pub target: LinkTarget,
}

/// A bibliography entry recognised on a page.
#[derive(Clone, Debug, PartialEq, Eq)]
pub struct ScientificReference {
    pub number: u32,
    pub page: usize,
    pub text: String,
}

/// What the reader knows about the open document.
#[derive(Clone, Debug, PartialEq, Eq)]
pub struct ReaderDocument {
    pub toc: Vec<TocEntry>,
    pub links: Vec<PdfLink>,
    pub scientific_references: Vec<ScientificReference>,
}

/// How much of the machine a reader view may currently use.
#[derive(Clone, Copy, Debug, PartialEq, Eq, Hash, Structural)]
pub enum ActivityLevel {
    ForegroundInteractive,
    ForegroundVisible,
    ForegroundIdle,
    BackgroundWarm,
    BackgroundCold,
    Suspended,
}

/// A character position: page and character index on that page.
#[derive(Clone, Copy, Debug, PartialEq, Eq, Hash, PartialOrd, Ord, Structural)]
pub struct TextPosition {
    pub page: usize,
    pub index: usize,
}

/// An inclusive range of characters, from `start` to `end`.
#[derive(Clone, Copy, Debug, PartialEq, Eq, Hash, Structural)]
pub struct TextRange {
    pub start: TextPosition,
    pub end: TextPosition,
}

/// Pixel size of a page raster.
#[derive(Clone, Copy, Debug, PartialEq, Eq, Hash, Structural)]
pub struct RasterSize {
    pub width: u32,
    pub height: u32,
}

/// A rectangle of raster pixels.
#[derive(Clone, Copy, Debug, PartialEq, Eq, Hash, Structural)]
pub struct PixelRect {
    pub x: u32,
    pub y: u32,
    pub width: u32,
    pub height: u32,
}

/// Identity of one rendered raster tile: a page raster and a cell of its grid.
#[derive(Clone, Copy, Debug, PartialEq, Eq, Hash, Structural)]
pub struct TileKey {
    pub page: usize,
    pub raster: RasterSize,
    pub column: u32,
    pub row: u32,
}

/// A tile the current viewport asks for, and whether it is on screen.
#[derive(Clone, Copy, Debug, PartialEq, Eq, Structural)]
pub struct DemandedTile {
    pub key: TileKey,
    pub visible: bool,
}

/// A tile held in the raster cache, with its pixel byte size.
#[derive(Clone, Copy, Debug, PartialEq, Eq, Structural)]
pub struct RenderedTile {
    pub key: TileKey,
    pub byte_len: usize,
}

/// Transitions and background work still in flight, as the host observes them.
#[derive(Clone, Copy, Debug, Default, PartialEq, Eq, Structural)]
pub struct ReaderMotion {
    pub sidebar: bool,
    pub comment_pane: bool,
    pub reference_panel: bool,
    pub reference_details: bool,
    pub reference_citation: bool,
    pub reference_summary: bool,
    pub extension_panel: bool,
    pub extension_manager: bool,
    pub link_card_expansion: bool,
    pub link_card_pointer: bool,
    pub toc_hover: bool,
    pub doi_copy: bool,
    pub navigation_focus: bool,
    pub link_preview_loading: bool,
    pub reference_lookup_loading: bool,
    pub extension_snapshot: bool,
    pub extension_service_work: bool,
    pub extension_work: bool,
}

/// What the host does after a reader handler returns.
#[derive(Clone, Debug, PartialEq, Eq)]
pub enum ReaderEffect {
    /// Recompute how PDF pages are painted (normal or forced dark colors).
    UpdateRenderAppearance,
    /// Hover the table-of-contents entry.
    HoverToc { index: usize },
    /// Follow the internal link.
    ActivateLink { id: usize },
    /// Point at the link and open its preview card.
    PreviewLink { id: usize, page: usize },
    /// Point at the reference and open its preview card.
    PreviewReference { ordinal: usize, page: usize },
    /// Keep the table-of-contents callout of the entry open; a hover-clear timer
    /// scheduled for `clear_revision` is already superseded.
    HoldTocCallout { index: usize, clear_revision: u64 },
    /// Run the theme command with the given payload (empty for the system theme).
    InvokeThemeCommand { payload: String },
}

/// A text selection of the reader: where it started and where it ends.
#[derive(Clone, Copy, Debug, PartialEq, Eq, Structural)]
pub struct TextSelection {
    pub anchor: TextPosition,
    pub focus: TextPosition,
}

/// Highlight colors an annotation can carry.
#[derive(Clone, Copy, Debug, PartialEq, Eq, Hash, Structural)]
pub enum HighlightColor {
    Yellow,
    Green,
    Blue,
    Pink,
    Purple,
}

/// What the reader shows of one annotation: its identity, its highlight color
/// and whether it carries a comment.
#[derive(Clone, Copy, Debug, PartialEq, Eq, Structural)]
pub struct AnnotationSummary {
    pub id: AnnotationId,
    pub highlight: Option<HighlightColor>,
    pub has_comment: bool,
}

/// Signals that the open document is a scientific paper.
#[derive(Clone, Copy, Debug, Default, PartialEq, Eq, Structural)]
pub struct ScientificSignals {
    pub reference_entries: usize,
    pub doi_entries: usize,
    pub bracket_citations: usize,
    pub superscript_citations: usize,
}

/// The reader state its handlers decide on.
pub struct PdfReader {
    pub document: Option<ReaderDocument>,
    /// The document is open and idle (the reader's status is `Ready`).
    pub ready: bool,
    pub pdf_dark_mode_enabled: bool,
    pub toc_hovered: Option<usize>,
    pub toc_hover_revision: u64,
    pub hovered_link: Option<usize>,
    pub hovered_reference: Option<usize>,
    pub link_source_hovered: bool,
    pub qa_link_navigations: usize,
    pub qa_toc_callout_holds: usize,
    pub render_debounce_pending: bool,
    pub pending_tiles: usize,
    pub render_viewport: Vec<DemandedTile>,
    pub rendered: Vec<RenderedTile>,
    pub annotations_loading: bool,
    pub annotation_persistence_blocked: bool,
    /// Revision of the loaded annotation set, if one is loaded.
    pub annotation_revision: Option<u64>,
    pub annotation_saved_revision: u64,
    pub search: SearchState,
    pub search_debounce_pending: bool,
    pub comment_editor_open: bool,
    pub comment_draft_dirty: bool,
    pub comment_autosave_revision: u64,
    pub comment_autosave_pending: bool,
    /// Table-of-contents entry whose page text is still being extracted.
    pub pending_toc_navigation: Option<usize>,
    pub pending_link_navigation: bool,
    pub scientific_analysis_complete: bool,
    pub motion: ReaderMotion,
    pub activity: ActivityLevel,
    pub worker_hibernated: bool,
    /// Theme, render mode and open preview cards.
    pub presentation: ReaderPresentation,
    pub scientific_document: bool,
    pub scientific_signals: ScientificSignals,
    /// Page text held, asked for and awaited.
    pub text_cache: TextCacheState,
    /// The loaded annotations (empty without an annotation set).
    pub annotations: Vec<AnnotationSummary>,
    /// Newest annotation revision handed to the saver.
    pub annotation_enqueued_revision: u64,
    /// Selection, active annotation and sidebar anchor.
    pub focus: ReaderFocus,
    pub search_field: TextField,
    /// Counters kept for the QA status line.
    pub qa_counts: QaCounters,
}

/// What the reader shows beyond the pages: theme, render mode and preview cards.
#[derive(Clone, Debug, PartialEq, Eq)]
pub struct ReaderPresentation {
    /// The bundled theme chosen by name, if any.
    pub selected_theme: Option<String>,
    pub theme_preference: ThemePreference,
    /// PDF pages are painted with forced colors rather than as authored.
    pub render_forced: bool,
    /// Identifier of the link whose preview card is open.
    pub previewed_link: Option<usize>,
    /// Bibliography entry whose preview card is open.
    pub previewed_reference: Option<usize>,
    /// Owner of the open extension contribution panel, if one is open.
    pub extension_panel_owner: Option<String>,
}

/// Page text held, asked for and awaited.
#[derive(Clone, Debug, PartialEq, Eq)]
pub struct TextCacheState {
    /// Number of pages whose text layer is held.
    pub cached_pages: usize,
    /// Number of pages whose text the viewport asks for.
    pub desired_pages: usize,
    /// Pages whose text extraction was requested and not yet delivered.
    pub pending: Vec<usize>,
}

/// What the reader points at: the text selection, the active annotation and
/// whether the sidebar keeps the document at a remembered anchor.
#[derive(Clone, Copy, Debug, PartialEq, Eq, Structural)]
pub struct ReaderFocus {
    pub selection: Option<TextSelection>,
    pub active_annotation: Option<AnnotationId>,
    pub sidebar_anchored: bool,
}

/// Counters of QA-driven activity printed on the QA status line.
#[derive(Clone, Copy, Debug, Default, PartialEq, Eq, Structural)]
pub struct QaCounters {
    pub toc_text_matches: usize,
    pub sidebar_transitions: usize,
    pub search_focuses: usize,
    pub extension_checks: usize,
    pub extension_native_rejected: bool,
}

/// What became of a document open that waited for the previous document to close.
#[derive(Clone, Debug, PartialEq, Eq)]
pub enum PendingOpenTransition<P> {
    /// No open is waiting.
    Idle,
    /// The awaited close has not completed yet; the open keeps waiting.
    Waiting,
    /// The open proceeds with its path.
    Open(P),
    /// The open was abandoned; its path is handed back.
    Cancelled(P),
}

/// Advances a waiting document open. A cancellation hands the path back; while
/// the generation it awaits has not completed the open keeps waiting with its
/// path kept; otherwise it proceeds. Either way the path leaves `pending`
/// exactly when it is handed out.
pub fn transition_pending_open<P>(
    pending: &mut Option<P>,
    awaited_generation: Option<u64>,
    completed_generation: u64,
    cancelled: bool,
) -> (transition: PendingOpenTransition<P>)
    ensures
        match *old(pending) {
            None => transition == PendingOpenTransition::<P>::Idle && *final(pending) == None::<P>,
            Some(path) => if cancelled {
                transition == PendingOpenTransition::Cancelled(path) && *final(pending) == None::<P>
            } else if awaited_generation matches Some(g) && completed_generation < g {
                transition == PendingOpenTransition::<P>::Waiting && *final(pending) == *old(pending)
            } else {
                transition == PendingOpenTransition::Open(path) && *final(pending) == None::<P>
            },
        },
{
    match pending.take() {
        None => PendingOpenTransition::Idle,
        Some(path) => {
            if cancelled {
                return PendingOpenTransition::Cancelled(path);
            }
            let waiting = match awaited_generation {
                Some(generation) => completed_generation < generation,
                None => false,
            };
            if waiting {
                *pending = Some(path);
                PendingOpenTransition::Waiting
            } else {
                PendingOpenTransition::Open(path)
            }
        },
    }
}

/// No value occurs twice in `s`.
pub open spec fn no_duplicates<T>(s: Seq<T>) -> bool {
    forall|i: int, j: int| 0 <= i < j < s.len() ==> s[i] != s[j]
}

impl PdfReader {
    /// The reader's collections behave as the maps and sets they stand for:
    /// each tile key is demanded and cached at most once, and each page's
    /// text is awaited at most once.
    pub open spec fn well_formed(&self) -> bool {
        &&& no_duplicates(self.render_viewport@.map_values(|t: DemandedTile| t.key))
        &&& no_duplicates(self.rendered@.map_values(|t: RenderedTile| t.key))
        &&& no_duplicates(self.text_cache.pending@)
    }
}

} // verus!
