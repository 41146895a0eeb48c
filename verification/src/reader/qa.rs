//! Instrumentation hooks driven by native end-to-end QA scripts.

use vstd::prelude::*;

use crate::reader::extensions::TextChar;
use crate::reader::toc::{TocNavigation, navigate_toc_outcome};
use crate::reader::{
    ActivityLevel, DemandedTile, LinkTarget, PdfLink, PdfReader, ReaderEffect, RenderedTile, TextPosition,
    TextRange, TileKey,
};
use crate::text_format::{decimal_spec, str_eq, with_number};
use crate::utf8_text::{byte_len, byte_length, chars_vec, lemma_byte_offset_ends, lemma_byte_offset_strict};

verus! {

/// Resource use of one reader view, as the QA resource trace records it.
#[derive(Clone, Copy, Debug, PartialEq, Eq, Structural)]
pub struct QaReaderResourceSnapshot {
    pub activity: ActivityLevel,
    pub allocated_cpu_bytes: u64,
    pub allocated_gpu_bytes: u64,
    pub allocated_workers: u64,
    pub cached_tile_bytes: u64,
    pub estimated_tile_resident_bytes: u64,
    pub tile_cache_limit_bytes: u64,
    pub base_tile_cache_limit_bytes: u64,
    pub cached_tiles: u64,
    pub pending_tiles: u64,
    pub cached_text_pages: u64,
    pub cache_retention_percent: u64,
    pub cache_trimmed: bool,
    pub worker_hibernated: bool,
}

/// Number of table-of-contents entries of the open document (0 without one).
pub open spec fn toc_count(reader: &PdfReader) -> int {
    match reader.document {
        Some(document) => document.toc@.len() as int,
        None => 0,
    }
}

/// Number of links of the open document (0 without one).
pub open spec fn link_count(reader: &PdfReader) -> int {
    match reader.document {
        Some(document) => document.links@.len() as int,
        None => 0,
    }
}

/// Number of recognised bibliography entries of the open document.
pub open spec fn reference_count(reader: &PdfReader) -> int {
    match reader.document {
        Some(document) => document.scientific_references@.len() as int,
        None => 0,
    }
}

/// The link at `index` of the open document.
pub open spec fn link_at(reader: &PdfReader, index: int) -> PdfLink
    recommends
        0 <= index < link_count(reader),
{
    reader.document->Some_0.links@[index]
}

pub open spec fn is_internal(link: PdfLink) -> bool {
    link.target is Internal
}

/// Positions, in document order, of the internal links among `links`.
pub open spec fn internal_positions(links: Seq<PdfLink>) -> Seq<int>
    decreases links.len(),
{
    if links.len() == 0 {
        seq![]
    } else {
        let rest = internal_positions(links.drop_last());
        if is_internal(links.last()) {
            rest.push(links.len() - 1)
        } else {
            rest
        }
    }
}

/// The requested tiles on screen are all in the raster cache, and there is at least one.
pub open spec fn visible_tiles_cached(demanded: Seq<DemandedTile>, rendered: Seq<RenderedTile>) -> bool {
    &&& exists|i: int| 0 <= i < demanded.len() && demanded[i].visible
    &&& forall|i: int|
        0 <= i < demanded.len() && demanded[i].visible ==> exists|j: int|
            0 <= j < rendered.len() && rendered[j].key == demanded[i].key
}

/// Annotation edits exist that are not yet saved (and saving is not blocked).
pub open spec fn annotations_unsaved(reader: &PdfReader) -> bool {
    !reader.annotation_persistence_blocked && match reader.annotation_revision {
        Some(revision) => revision > reader.annotation_saved_revision,
        None => false,
    }
}

/// Nothing in the reader is still loading, animating, rendering or saving.
pub open spec fn viewport_settled_spec(reader: &PdfReader) -> bool {
    let m = reader.motion;
    let busy = !reader.ready || reader.render_debounce_pending || reader.pending_tiles != 0
        || reader.annotations_loading || annotations_unsaved(reader) || (reader.search.query@.len() != 0 && (
    !reader.search.complete || reader.search_debounce_pending)) || m.sidebar || m.comment_pane
        || m.reference_panel || m.reference_details || m.reference_citation
        || m.reference_summary || m.extension_panel || m.extension_manager || m.doi_copy
        || m.link_card_expansion || m.link_card_pointer || m.toc_hover
        || reader.pending_toc_navigation is Some || reader.pending_link_navigation
        || !reader.scientific_analysis_complete || m.link_preview_loading
        || m.reference_lookup_loading || m.navigation_focus || reader.comment_autosave_pending
        || m.extension_snapshot || m.extension_service_work || m.extension_work;
    !busy && visible_tiles_cached(reader.render_viewport@, reader.rendered@)
}

/// Resources match the activity level: cold and suspended views hold no
/// tiles (a suspended view's worker also sleeps); other views are settled.
pub open spec fn resource_settled_spec(reader: &PdfReader) -> bool {
    match reader.activity {
        ActivityLevel::BackgroundCold => reader.pending_tiles == 0 && reader.render_viewport@.len()
            == 0 && reader.rendered@.len() == 0,
        ActivityLevel::Suspended => reader.pending_tiles == 0 && reader.render_viewport@.len() == 0
            && reader.rendered@.len() == 0 && reader.worker_hibernated,
        _ => viewport_settled_spec(reader),
    }
}

/// The reader fields QA hooks that only record hover state leave alone.
pub open spec fn same_except_hover(before: &PdfReader, after: &PdfReader) -> bool {
    &&& after.document == before.document
    &&& after.toc_hovered == before.toc_hovered
    &&& after.toc_hover_revision == before.toc_hover_revision
    &&& after.qa_link_navigations == before.qa_link_navigations
    &&& after.qa_toc_callout_holds == before.qa_toc_callout_holds
    &&& after.pdf_dark_mode_enabled == before.pdf_dark_mode_enabled
}

fn tile_cached(rendered: &Vec<RenderedTile>, key: TileKey) -> (cached: bool)
    ensures
        cached == exists|j: int| 0 <= j < rendered@.len() && rendered@[j].key == key,
{
    let mut index: usize = 0;
    while index < rendered.len()
        invariant
            0 <= index <= rendered@.len(),
            forall|j: int| 0 <= j < index ==> rendered@[j].key != key,
        decreases rendered@.len() - index,
    {
        if rendered[index].key == key {
            return true;
        }
        index = index + 1;
    }
    false
}

fn visible_tiles_are_cached(demanded: &Vec<DemandedTile>, rendered: &Vec<RenderedTile>) -> (cached:
    bool)
    ensures
        cached == visible_tiles_cached(demanded@, rendered@),
{
    let mut any_visible = false;
    let mut index: usize = 0;
    while index < demanded.len()
        invariant
            0 <= index <= demanded@.len(),
            any_visible == exists|i: int| 0 <= i < index && demanded@[i].visible,
            forall|i: int|
                0 <= i < index && demanded@[i].visible ==> exists|j: int|
                    0 <= j < rendered@.len() && rendered@[j].key == demanded@[i].key,
        decreases demanded@.len() - index,
    {
        let tile = demanded[index];
        if tile.visible {
            if !tile_cached(rendered, tile.key) {
                return false;
            }
            any_visible = true;
        }
        index = index + 1;
    }
    any_visible
}

impl PdfReader {
    /// Turns forced dark PDF colors on or off.
    pub fn qa_set_pdf_dark_mode(&mut self, enabled: bool) -> (effect: ReaderEffect)
        ensures
            final(self).pdf_dark_mode_enabled == enabled,
            final(self).document == old(self).document,
            effect == ReaderEffect::UpdateRenderAppearance,
    {
        self.pdf_dark_mode_enabled = enabled;
        ReaderEffect::UpdateRenderAppearance
    }

    fn toc_len(&self) -> (count: usize)
        ensures
            count == toc_count(self),
    {
        match &self.document {
            Some(document) => document.toc.len(),
            None => 0,
        }
    }

    /// Hovers the table-of-contents entry at `index`, if the document has it; the
    /// host then animates the hover.
    pub fn qa_set_toc_hovered(&mut self, index: usize) -> (result: Result<ReaderEffect, String>)
        ensures
            index < toc_count(old(self)) ==> result == Ok::<ReaderEffect, String>(
                ReaderEffect::HoverToc { index },
            ) && *final(self) == (PdfReader {
                toc_hover_revision: old(self).toc_hover_revision.wrapping_add(1),
                toc_hovered: Some(index),
                ..*old(self)
            }),
            index >= toc_count(old(self)) ==> (result matches Err(message) && message@
                == "TOC hover index "@ + decimal_spec(index as nat) + " is outside "@
                + decimal_spec(toc_count(old(self)) as nat) + " entries"@) && *final(self) == *old(self),
    {
        let count = self.toc_len();
        if index >= count {
            let mut message = with_number("TOC hover index ", index, " is outside ");
            let rest = with_number("", count, " entries");
            message.append(rest.as_str());
            proof {
                reveal_strlit("");
                assert(message@ =~= "TOC hover index "@ + decimal_spec(index as nat)
                    + " is outside "@ + decimal_spec(count as nat) + " entries"@);
            }
            return Err(message);
        }
        self.set_toc_hovered(index, true);
        Ok(ReaderEffect::HoverToc { index })
    }

    /// Navigates to the table-of-contents entry at `index`, if the document has
    /// it. `page_text_ready` tells whether the text of the entry's page is at hand.
    pub fn qa_navigate_toc(&mut self, index: usize, page_text_ready: bool) -> (result: Result<
        TocNavigation,
        String,
    >)
        ensures
            index < toc_count(old(self)) ==> (result matches Ok(step) && navigate_toc_outcome(
                *old(self),
                *final(self),
                index,
                page_text_ready,
                step,
            )),
            index >= toc_count(old(self)) ==> (result matches Err(message) && message@
                == "TOC navigation index "@ + decimal_spec(index as nat) + " is outside "@
                + decimal_spec(toc_count(old(self)) as nat) + " entries"@) && *final(self) == *old(self),
    {
        let count = self.toc_len();
        if index >= count {
            let mut message = with_number("TOC navigation index ", index, " is outside ");
            let rest = with_number("", count, " entries");
            message.append(rest.as_str());
            proof {
                reveal_strlit("");
                assert(message@ =~= "TOC navigation index "@ + decimal_spec(index as nat)
                    + " is outside "@ + decimal_spec(count as nat) + " entries"@);
            }
            return Err(message);
        }
        Ok(self.navigate_toc(index, page_text_ready))
    }

    /// Follows the internal link at `index` and counts the navigation.
    pub fn qa_navigate_link(&mut self, index: usize) -> (result: Result<ReaderEffect, String>)
        requires
            old(self).qa_link_navigations < usize::MAX,
        ensures
            index >= link_count(old(self)) ==> (result matches Err(message) && message@
                == "link index "@ + decimal_spec(index as nat) + " is unavailable"@
                && final(self).qa_link_navigations == old(self).qa_link_navigations),
            index < link_count(old(self)) && !is_internal(link_at(old(self), index as int)) ==> (
            result matches Err(message) && message@ == "link index "@ + decimal_spec(index as nat)
                + " is not an internal destination"@ && final(self).qa_link_navigations == old(
                self,
            ).qa_link_navigations),
            index < link_count(old(self)) && is_internal(link_at(old(self), index as int))
                ==> result == Ok::<ReaderEffect, String>(
                ReaderEffect::ActivateLink { id: link_at(old(self), index as int).id },
            ) && final(self).qa_link_navigations == old(self).qa_link_navigations + 1,
            final(self).document == old(self).document,
            final(self).toc_hovered == old(self).toc_hovered,
    {
        let found = match &self.document {
            Some(document) => if index < document.links.len() {
                let link = &document.links[index];
                Some((link.id, matches!(link.target, LinkTarget::Internal { .. })))
            } else {
                None
            },
            None => None,
        };
        let (id, internal) = match found {
            Some(found) => found,
            None => {
                return Err(with_number("link index ", index, " is unavailable"));
            },
        };
        if !internal {
            return Err(with_number("link index ", index, " is not an internal destination"));
        }
        self.qa_link_navigations = self.qa_link_navigations + 1;
        Ok(ReaderEffect::ActivateLink { id })
    }

    fn link_info(&self, index: usize) -> (info: Option<(usize, usize)>)
        ensures
            index < link_count(self) ==> info == Some(
                (link_at(self, index as int).id, link_at(self, index as int).page),
            ),
            index >= link_count(self) ==> info is None,
    {
        match &self.document {
            Some(document) => if index < document.links.len() {
                Some((document.links[index].id, document.links[index].page))
            } else {
                None
            },
            None => None,
        }
    }

    /// Points at the link at `index` and opens its preview card, leaving no
    /// link or link source marked as hovered.
    pub fn qa_hover_link(&mut self, index: usize) -> (result: Result<ReaderEffect, String>)
        ensures
            hover_link_outcome(old(self), final(self), index as int, result),
    {
        let (id, page) = match self.link_info(index) {
            Some(info) => info,
            None => {
                return Err(with_number("link index ", index, " is unavailable"));
            },
        };
        self.hovered_link = None;
        self.link_source_hovered = false;
        Ok(ReaderEffect::PreviewLink { id, page })
    }

    /// Hovers the `ordinal`-th internal link. The hover goes through
    /// [`PdfReader::qa_hover_link`] with that link's identifier as the index.
    pub fn qa_hover_internal_link(&mut self, ordinal: usize) -> (result: Result<ReaderEffect, String>)
        ensures
            ({
                let positions = match old(self).document {
                    Some(document) => internal_positions(document.links@),
                    None => Seq::<int>::empty(),
                };
                &&& ordinal >= positions.len() ==> (result matches Err(message) && message@
                    == "internal link ordinal "@ + decimal_spec(ordinal as nat) + " is unavailable"@
                    && *final(self) == *old(self))
                &&& ordinal < positions.len() ==> hover_link_outcome(
                    old(self),
                    final(self),
                    link_at(old(self), positions[ordinal as int]).id as int,
                    result,
                )
            }),
    {
        let found = match &self.document {
            Some(document) => nth_internal_link(&document.links, ordinal),
            None => None,
        };
        match found {
            Some(id) => self.qa_hover_link(id),
            None => Err(with_number("internal link ordinal ", ordinal, " is unavailable")),
        }
    }

    /// Points at the `ordinal`-th bibliography entry and opens its preview
    /// card, leaving no reference or link source marked as hovered.
    pub fn qa_hover_scientific_reference(&mut self, ordinal: usize) -> (result: Result<
        ReaderEffect,
        String,
    >)
        ensures
            ordinal >= reference_count(old(self)) ==> (result matches Err(message) && message@
                == "scientific reference ordinal "@ + decimal_spec(ordinal as nat)
                + " is unavailable"@ && *final(self) == *old(self)),
            ordinal < reference_count(old(self)) ==> {
                &&& result == Ok::<ReaderEffect, String>(
                    ReaderEffect::PreviewReference {
                        ordinal,
                        page: old(self).document->Some_0.scientific_references@[ordinal as int].page,
                    },
                )
                &&& final(self).hovered_reference is None
                &&& !final(self).link_source_hovered
                &&& same_except_hover(old(self), final(self))
            },
    {
        let page = match &self.document {
            Some(document) => if ordinal < document.scientific_references.len() {
                Some(document.scientific_references[ordinal].page)
            } else {
                None
            },
            None => None,
        };
        let page = match page {
            Some(page) => page,
            None => {
                return Err(
                    with_number("scientific reference ordinal ", ordinal, " is unavailable"),
                );
            },
        };
        self.hovered_reference = None;
        self.link_source_hovered = false;
        Ok(ReaderEffect::PreviewReference { ordinal, page })
    }

    /// Keeps the callout of the hovered table-of-contents entry open: the
    /// entry's hover is released (scheduling a clear) and the callout itself
    /// becomes hovered, superseding that clear.
    pub fn qa_hold_toc_callout(&mut self) -> (result: Result<ReaderEffect, String>)
        requires
            old(self).qa_toc_callout_holds < usize::MAX,
        ensures
            old(self).toc_hovered is None ==> (result matches Err(message) && message@
                == "TOC callout hold requires a hovered entry"@ && *final(self) == *old(self)),
            old(self).toc_hovered matches Some(index) ==> {
                &&& result == Ok::<ReaderEffect, String>(
                    ReaderEffect::HoldTocCallout {
                        index,
                        clear_revision: old(self).toc_hover_revision.wrapping_add(1),
                    },
                )
                &&& final(self).toc_hover_revision == old(
                    self,
                ).toc_hover_revision.wrapping_add(1).wrapping_add(1)
                &&& final(self).qa_toc_callout_holds == old(self).qa_toc_callout_holds + 1
                &&& final(self).toc_hovered == old(self).toc_hovered
                &&& final(self).document == old(self).document
            },
    {
        let index = match self.toc_hovered {
            Some(index) => index,
            None => {
                return Err("TOC callout hold requires a hovered entry".to_owned());
            },
        };
        // Releasing the entry's hover schedules a clear; hovering the callout
        // supersedes it.
        let clear_revision = self.set_toc_hovered(index, false).unwrap();
        self.set_toc_callout_hovered(true);
        self.qa_toc_callout_holds = self.qa_toc_callout_holds + 1;
        Ok(ReaderEffect::HoldTocCallout { index, clear_revision })
    }

    /// Selects a bundled theme by name, or "system" to follow the platform.
    /// Unknown names select nothing.
    pub fn qa_select_theme(&self, name: &str, bundled_theme_names: &[String]) -> (effect: Option<
        ReaderEffect,
    >)
        ensures
            ({
                let known = name@ == "system"@ || exists|i: int|
                    0 <= i < bundled_theme_names@.len() && bundled_theme_names@[i]@ == name@;
                &&& !known ==> effect is None
                &&& known ==> (effect matches Some(ReaderEffect::InvokeThemeCommand { payload })
                    && payload@ == if name@ == "system"@ {
                    Seq::<char>::empty()
                } else {
                    name@
                })
            }),
    {
        let system = str_eq(name, "system");
        if !system {
            let mut index: usize = 0;
            let mut found = false;
            while index < bundled_theme_names.len()
                invariant
                    0 <= index <= bundled_theme_names@.len(),
                    found == exists|i: int|
                        0 <= i < index && bundled_theme_names@[i]@ == name@,
                decreases bundled_theme_names@.len() - index,
            {
                if str_eq(bundled_theme_names[index].as_str(), name) {
                    found = true;
                }
                index = index + 1;
            }
            if !found {
                return None;
            }
            return Some(ReaderEffect::InvokeThemeCommand { payload: name.to_owned() });
        }
        proof {
            reveal_strlit("");
        }
        Some(ReaderEffect::InvokeThemeCommand { payload: "".to_owned() })
    }

    /// Extension QA scenarios need installable extensions, which this reader
    /// build does not include.
    pub fn qa_drive_extension_scenario(&self, scenario: &str) -> (result: Result<bool, String>)
        ensures
            result matches Err(message) && message@
                == "extension QA requires the installable-extensions feature"@,
    {
        Err("extension QA requires the installable-extensions feature".to_owned())
    }

    /// Whether the viewport has settled: nothing loading, animating, saving or
    /// pending, and every visible tile rendered.
    pub fn qa_viewport_is_settled(&self) -> (settled: bool)
        ensures
            settled == viewport_settled_spec(self),
    {
        let m = self.motion;
        let annotations_unsaved = !self.annotation_persistence_blocked && match self.annotation_revision {
            Some(revision) => revision > self.annotation_saved_revision,
            None => false,
        };
        let search_busy = byte_length(self.search.query.as_str()) != 0 && (!self.search.complete
            || self.search_debounce_pending);
        proof {
            lemma_empty_iff_no_bytes(self.search.query@);
        }
        if !self.ready || self.render_debounce_pending || self.pending_tiles != 0
            || self.annotations_loading || annotations_unsaved || search_busy || m.sidebar
            || m.comment_pane || m.reference_panel || m.reference_details || m.reference_citation
            || m.reference_summary || m.extension_panel || m.extension_manager || m.doi_copy
            || m.link_card_expansion || m.link_card_pointer || m.toc_hover
            || self.pending_toc_navigation.is_some() || self.pending_link_navigation
            || !self.scientific_analysis_complete || m.link_preview_loading
            || m.reference_lookup_loading || m.navigation_focus || self.comment_autosave_pending
            || m.extension_snapshot || m.extension_service_work || m.extension_work {
            return false;
        }
        visible_tiles_are_cached(&self.render_viewport, &self.rendered)
    }

    /// Whether resources have settled for the view's activity level.
    pub fn qa_resource_is_settled(&self) -> (settled: bool)
        ensures
            settled == resource_settled_spec(self),
    {
        match self.activity {
            ActivityLevel::BackgroundCold => self.pending_tiles == 0
                && self.render_viewport.len() == 0 && self.rendered.len() == 0,
            ActivityLevel::Suspended => self.pending_tiles == 0 && self.render_viewport.len() == 0
                && self.rendered.len() == 0 && self.worker_hibernated,
            _ => self.qa_viewport_is_settled(),
        }
    }
}

/// The outcome of hovering the link at `index`: an error naming the index
/// when there is no such link, otherwise its preview with hover marks cleared.
pub open spec fn hover_link_outcome(
    before: &PdfReader,
    after: &PdfReader,
    index: int,
    result: Result<ReaderEffect, String>,
) -> bool {
    &&& (index < 0 || index >= link_count(before)) ==> (result matches Err(message) && message@
        == "link index "@ + decimal_spec(index as nat) + " is unavailable"@ && *after == *before)
    &&& 0 <= index < link_count(before) ==> {
        &&& result == Ok::<ReaderEffect, String>(
            ReaderEffect::PreviewLink {
                id: link_at(before, index).id,
                page: link_at(before, index).page,
            },
        )
        &&& after.hovered_link is None
        &&& !after.link_source_hovered
        &&& after.hovered_reference == before.hovered_reference
        &&& same_except_hover(before, after)
    }
}

proof fn lemma_empty_iff_no_bytes(cs: Seq<char>)
    ensures
        (byte_len(cs) == 0) == (cs.len() == 0),
{
    if cs.len() > 0 {
        lemma_byte_offset_strict(cs, 0, cs.len() as int);
        lemma_byte_offset_ends(cs);
    } else {
        lemma_byte_offset_ends(cs);
    }
}

/// Identifier of the `ordinal`-th internal link.
fn nth_internal_link(links: &Vec<PdfLink>, ordinal: usize) -> (id: Option<usize>)
    ensures
        ordinal < internal_positions(links@).len() ==> id == Some(
            links@[internal_positions(links@)[ordinal as int]].id,
        ),
        ordinal >= internal_positions(links@).len() ==> id is None,
{
    let mut seen: usize = 0;
    let mut index: usize = 0;
    while index < links.len()
        invariant
            0 <= index <= links@.len(),
            seen == internal_positions(links@.take(index as int)).len(),
            seen <= index,
            seen <= ordinal,
            forall|k: int|
                0 <= k < internal_positions(links@.take(index as int)).len() ==> 0
                    <= #[trigger] internal_positions(links@.take(index as int))[k] < index,
        decreases links@.len() - index,
    {
        proof {
            let next = links@.take(index + 1);
            assert(next.drop_last() =~= links@.take(index as int));
            assert(next.last() == links@[index as int]);
        }
        if matches!(links[index].target, LinkTarget::Internal { .. }) {
            if seen == ordinal {
                proof {
                    lemma_internal_positions_prefix(links@, index + 1);
                }
                return Some(links[index].id);
            }
            seen = seen + 1;
        }
        index = index + 1;
    }
    proof {
        assert(links@.take(links@.len() as int) =~= links@);
    }
    None
}

/// Internal positions of a prefix are a prefix of the internal positions.
proof fn lemma_internal_positions_prefix(links: Seq<PdfLink>, k: int)
    requires
        0 <= k <= links.len(),
    ensures
        internal_positions(links.take(k)).len() <= internal_positions(links).len(),
        forall|i: int|
            0 <= i < internal_positions(links.take(k)).len() ==> #[trigger] internal_positions(
                links,
            )[i] == internal_positions(links.take(k))[i],
    decreases links.len() - k,
{
    if k == links.len() {
        assert(links.take(k) =~= links);
    } else {
        lemma_internal_positions_prefix(links, k + 1);
        assert(links.take(k + 1).drop_last() =~= links.take(k));
    }
}

/// `needle` occurs in `chars` starting at character `i`.
pub open spec fn occurs_at(chars: Seq<TextChar>, needle: Seq<char>, i: int) -> bool {
    &&& 0 <= i
    &&& i + needle.len() <= chars.len()
    &&& forall|k: int| 0 <= k < needle.len() ==> #[trigger] chars[i + k].value == needle[k]
}

/// The characters of page `page` that spell `needle` first: an inclusive range
/// from its first to its last character; `None` for an empty needle or one the
/// page does not contain.
pub fn qa_text_range(page: usize, characters: &[TextChar], needle: &str) -> (range: Option<TextRange>)
    ensures
        match range {
            Some(r) => {
                &&& needle@.len() > 0
                &&& occurs_at(characters@, needle@, r.start.index as int)
                &&& forall|j: int| 0 <= j < r.start.index ==> !occurs_at(characters@, needle@, j)
                &&& r.start.page == page && r.end.page == page
                &&& r.end.index == r.start.index + needle@.len() - 1
            },
            None => needle@.len() == 0 || forall|i: int| !occurs_at(characters@, needle@, i),
        },
{
    let wanted = chars_vec(needle);
    let n = wanted.len();
    if n == 0 || n > characters.len() {
        return None;
    }
    let len = characters.len();
    let last_start = len - n;
    let mut start: usize = 0;
    while start <= last_start
        invariant
            wanted@ == needle@,
            n == wanted@.len(),
            0 < n <= characters@.len(),
            len == characters@.len(),
            last_start == characters@.len() - n,
            start <= last_start + 1,
            forall|j: int| 0 <= j < start ==> !occurs_at(characters@, needle@, j),
        decreases last_start + 1 - start,
    {
        let mut k: usize = 0;
        let mut matched = true;
        while k < n
            invariant
                wanted@ == needle@,
                n == wanted@.len(),
                0 < n <= characters@.len(),
                len == characters@.len(),
                start <= last_start,
                last_start == characters@.len() - n,
                k <= n,
                matched == forall|q: int| 0 <= q < k ==> characters@[start + q].value == needle@[q],
            decreases n - k,
        {
            if characters[start + k].value != wanted[k] {
                proof {
                    assert(!(characters@[start + k as int].value == needle@[k as int]));
                }
                matched = false;
            }
            k = k + 1;
        }
        if matched {
            proof {
                assert(occurs_at(characters@, needle@, start as int));
            }
            return Some(
                TextRange {
                    start: TextPosition { page, index: start },
                    end: TextPosition { page, index: start + n - 1 },
                },
            );
        }
        start = start + 1;
    }
    proof {
        assert forall|i: int| !occurs_at(characters@, needle@, i) by {
            if i > last_start {
                assert(i + needle@.len() > characters@.len());
            }
        }
    }
    None
}

} // verus!
