use lib::reader::comments::{
    CommentFlush, CommentStart, CommentWrite, HighlightStart, is_blank_text, newest_candidate,
};
use lib::reader::extensions::TextChar;
use lib::reader::qa::qa_text_range;
use lib::reader::qa_report::QaStatusHost;
use lib::reader::render::AnnotationId;
use lib::text_field::TextField;
use lib::theme::ThemePreference;
use lib::reader::search::{QueryValidation, SearchMatchId, SearchState, SearchStep};
use lib::reader::toc::TocNavigation;
use lib::reader::{
    ActivityLevel, AnnotationSummary, DemandedTile, HighlightColor, LinkTarget, PdfLink, PdfReader,
    QaCounters, RasterSize, ReaderDocument, ReaderFocus, ReaderPresentation, ScientificSignals,
    TextCacheState, TextSelection,
    ReaderEffect, ReaderMotion, RenderedTile, ScientificReference, TextPosition, TextRange, TileKey,
    TocEntry,
};

fn toc(title: &str, page: usize, depth: u16) -> TocEntry {
    TocEntry {
        title: title.to_owned(),
        page,
        depth,
    }
}

fn tile(page: usize, column: u32) -> TileKey {
    TileKey {
        page,
        raster: RasterSize {
            width: 2_048,
            height: 2_048,
        },
        column,
        row: 0,
    }
}

fn reader() -> PdfReader {
    PdfReader {
        document: Some(ReaderDocument {
            toc: vec![toc("Intro", 0, 0), toc("Methods", 3, 0), toc("Data", 4, 1)],
            links: vec![
                PdfLink {
                    id: 0,
                    page: 0,
                    target: LinkTarget::External {
                        url: "https://example.org".to_owned(),
                    },
                },
                PdfLink {
                    id: 1,
                    page: 1,
                    target: LinkTarget::Internal { page: 4 },
                },
            ],
            scientific_references: vec![ScientificReference {
                number: 7,
                page: 9,
                text: "7. A reference".to_owned(),
            }],
        }),
        ready: true,
        pdf_dark_mode_enabled: false,
        toc_hovered: None,
        toc_hover_revision: 0,
        hovered_link: None,
        hovered_reference: None,
        link_source_hovered: false,
        qa_link_navigations: 0,
        qa_toc_callout_holds: 0,
        render_debounce_pending: false,
        pending_tiles: 0,
        render_viewport: vec![
            DemandedTile {
                key: tile(0, 0),
                visible: true,
            },
            DemandedTile {
                key: tile(0, 1),
                visible: true,
            },
            DemandedTile {
                key: tile(1, 0),
                visible: true,
            },
            DemandedTile {
                key: tile(2, 0),
                visible: false,
            },
        ],
        rendered: vec![
            RenderedTile {
                key: tile(0, 0),
                byte_len: 100,
            },
            RenderedTile {
                key: tile(0, 1),
                byte_len: 300,
            },
            RenderedTile {
                key: tile(1, 0),
                byte_len: 200,
            },
        ],
        annotations_loading: false,
        annotation_persistence_blocked: false,
        annotation_revision: Some(4),
        annotation_saved_revision: 4,
        search: SearchState {
            complete: true,
            ..SearchState::default()
        },
        search_debounce_pending: false,
        comment_editor_open: false,
        comment_draft_dirty: false,
        comment_autosave_revision: 0,
        comment_autosave_pending: false,
        pending_toc_navigation: None,
        pending_link_navigation: false,
        scientific_analysis_complete: true,
        motion: ReaderMotion::default(),
        activity: ActivityLevel::ForegroundInteractive,
        worker_hibernated: false,
        presentation: ReaderPresentation {
            selected_theme: None,
            theme_preference: ThemePreference::System,
            render_forced: false,
            previewed_link: None,
            previewed_reference: None,
            extension_panel_owner: None,
        },
        scientific_document: false,
        scientific_signals: ScientificSignals::default(),
        text_cache: TextCacheState {
            cached_pages: 1,
            desired_pages: 2,
            pending: Vec::new(),
        },
        annotations: Vec::new(),
        annotation_enqueued_revision: 4,
        focus: ReaderFocus {
            selection: None,
            active_annotation: None,
            sidebar_anchored: false,
        },
        search_field: TextField::new("Search", 256),
        qa_counts: QaCounters::default(),
    }
}

fn host() -> QaStatusHost {
    QaStatusHost {
        reference_group: 0,
        citation_source: None,
        link_preview_state: "internal-matched".to_owned(),
        scholarly: "none".to_owned(),
        toc_hover_strength: "0.000".to_owned(),
        zoom: "1.000".to_owned(),
        scroll_x: "0.00".to_owned(),
        scroll_y: "12.50".to_owned(),
        sidebar_progress: "0.000".to_owned(),
        sidebar_target: "0".to_owned(),
        reference_panel_value: "0.000".to_owned(),
        reference_panel_target: "0".to_owned(),
        comment_pane_progress: "0.000".to_owned(),
        comment_pane_target: "0".to_owned(),
        sidebar_anchor_error: "0.000000".to_owned(),
        status: "Ready".to_owned(),
    }
}

#[test]
fn qa_hooks_reject_missing_entries_with_their_index() {
    let mut reader = reader();
    assert_eq!(
        reader.qa_set_toc_hovered(1),
        Ok(ReaderEffect::HoverToc { index: 1 })
    );
    assert_eq!(reader.toc_hovered, Some(1));
    assert_eq!(
        reader.qa_navigate_toc(2, false),
        Ok(TocNavigation::AwaitText {
            index: 2,
            page: 4,
            request: true
        })
    );
    assert_eq!(reader.pending_toc_navigation, Some(2));
    assert_eq!(
        reader.qa_set_toc_hovered(5),
        Err("TOC hover index 5 is outside 3 entries".to_owned())
    );
    assert_eq!(
        reader.qa_navigate_toc(9, true),
        Err("TOC navigation index 9 is outside 3 entries".to_owned())
    );
    assert_eq!(
        reader.qa_navigate_link(0),
        Err("link index 0 is not an internal destination".to_owned())
    );
    assert_eq!(
        reader.qa_navigate_link(7),
        Err("link index 7 is unavailable".to_owned())
    );
    assert!(reader.qa_navigate_link(1).is_ok());
    assert_eq!(reader.qa_link_navigations, 1);
    assert_eq!(
        reader.qa_hover_scientific_reference(3),
        Err("scientific reference ordinal 3 is unavailable".to_owned())
    );
    assert_eq!(
        reader.qa_hold_toc_callout(),
        Ok(ReaderEffect::HoldTocCallout {
            index: 1,
            clear_revision: 2
        })
    );
    assert_eq!(reader.toc_hover_revision, 3);
    assert_eq!(reader.qa_toc_callout_holds, 1);
    assert_eq!(
        self::reader().qa_hold_toc_callout(),
        Err("TOC callout hold requires a hovered entry".to_owned())
    );
    assert_eq!(
        reader.qa_drive_extension_scenario("any"),
        Err("extension QA requires the installable-extensions feature".to_owned())
    );
}

#[test]
fn qa_dark_mode_and_theme_selection_produce_host_effects() {
    let mut reader = reader();
    assert_eq!(
        reader.qa_set_pdf_dark_mode(true),
        ReaderEffect::UpdateRenderAppearance
    );
    assert!(reader.pdf_dark_mode_enabled);
    let themes = vec!["Ayu Dark".to_owned()];
    assert_eq!(
        reader.qa_select_theme("system", &themes),
        Some(ReaderEffect::InvokeThemeCommand {
            payload: String::new()
        })
    );
    assert_eq!(
        reader.qa_select_theme("Ayu Dark", &themes),
        Some(ReaderEffect::InvokeThemeCommand {
            payload: "Ayu Dark".to_owned()
        })
    );
    assert_eq!(reader.qa_select_theme("Unknown", &themes), None);
}

#[test]
fn settled_viewport_needs_every_visible_tile_cached_and_nothing_in_flight() {
    let mut reader = reader();
    assert!(reader.qa_viewport_is_settled());
    assert!(reader.qa_resource_is_settled());
    reader.comment_editor_changed();
    assert!(!reader.qa_viewport_is_settled());
    let mut cold = self::reader();
    cold.activity = ActivityLevel::BackgroundCold;
    assert!(!cold.qa_resource_is_settled());
    cold.render_viewport.clear();
    cold.rendered.clear();
    assert!(cold.qa_resource_is_settled());
}

#[test]
fn comment_autosave_fires_only_for_the_latest_edit() {
    let mut reader = reader();
    reader.comment_editor_open = true;
    let first = reader.comment_editor_changed();
    assert!(reader.comment_draft_dirty);
    assert!(reader.comment_draft_needs_confirmation());
    let second = reader.comment_editor_changed();
    assert!(!reader.comment_autosave_due(first));
    assert!(reader.comment_autosave_pending);
    assert!(reader.comment_autosave_due(second));
    assert!(!reader.comment_autosave_pending);

    let armed = reader.comment_editor_changed();
    reader.cancel_comment_autosave();
    assert!(!reader.comment_autosave_due(armed));

    reader.discard_comment_editor();
    assert!(!reader.comment_editor_open);
    assert!(!reader.comment_draft_dirty);
    assert!(!reader.comment_draft_needs_confirmation());
}

#[test]
fn toc_navigation_waits_for_page_text_of_its_own_page() {
    let mut reader = reader();
    reader.focus = ReaderFocus {
        selection: Some(TextSelection {
            anchor: TextPosition { page: 0, index: 1 },
            focus: TextPosition { page: 0, index: 4 },
        }),
        active_annotation: Some(AnnotationId(3)),
        sidebar_anchored: true,
    };
    assert_eq!(reader.navigate_toc(7, true), TocNavigation::Ignored);
    assert!(reader.focus.sidebar_anchored);
    assert_eq!(
        reader.navigate_toc(1, true),
        TocNavigation::Resolve { index: 1, page: 3 }
    );
    assert_eq!(reader.focus.selection, None);
    assert_eq!(reader.focus.active_annotation, None);
    assert!(!reader.focus.sidebar_anchored);
    assert_eq!(
        reader.navigate_toc(2, false),
        TocNavigation::AwaitText {
            index: 2,
            page: 4,
            request: true
        }
    );
    assert_eq!(reader.text_cache.pending, vec![4]);
    assert_eq!(
        reader.navigate_toc(2, false),
        TocNavigation::AwaitText {
            index: 2,
            page: 4,
            request: false
        }
    );
    assert_eq!(reader.text_cache.pending, vec![4]);
    assert_eq!(reader.pending_toc_navigation, Some(2));
    assert_eq!(
        reader.complete_pending_toc_navigation(3),
        TocNavigation::Ignored
    );
    assert_eq!(reader.pending_toc_navigation, Some(2));
    assert_eq!(
        reader.complete_pending_toc_navigation(4),
        TocNavigation::Resolve { index: 2, page: 4 }
    );
    assert_eq!(reader.pending_toc_navigation, None);
    assert_eq!(
        reader.complete_pending_toc_navigation(4),
        TocNavigation::Ignored
    );
}

#[test]
fn toc_navigation_without_extractable_text_jumps_to_the_destination() {
    let mut reader = reader();
    reader.text_cache.pending = vec![9, 4];
    assert_eq!(
        reader.navigate_toc(1, false),
        TocNavigation::AwaitText {
            index: 1,
            page: 3,
            request: true
        }
    );
    assert_eq!(
        reader.toc_text_unavailable(1, 3),
        TocNavigation::JumpToDestination { index: 1, page: 3 }
    );
    assert_eq!(reader.pending_toc_navigation, None);
    assert_eq!(reader.text_cache.pending, vec![9, 4]);
}

#[test]
fn toc_hover_clear_is_superseded_by_a_later_hover() {
    let mut reader = reader();
    assert_eq!(reader.set_toc_hovered(1, true), None);
    assert_eq!(reader.toc_hovered, Some(1));
    let clear = reader.set_toc_hovered(1, false).unwrap();
    assert_eq!(reader.set_toc_hovered(2, false), None);
    assert_eq!(reader.set_toc_callout_hovered(true), None);
    assert!(!reader.toc_hover_clear_due(clear));
    assert_eq!(reader.toc_hovered, Some(1));
    let clear = reader.set_toc_callout_hovered(false).unwrap();
    assert!(reader.toc_hover_clear_due(clear));
    assert_eq!(reader.toc_hovered, None);
}

#[test]
fn search_queries_restart_and_stale_debounces_never_start() {
    let mut reader = reader();
    let first = match reader.set_search_query("cell", QueryValidation::Valid) {
        SearchStep::Debounce { revision } => revision,
        other => panic!("unexpected step {other:?}"),
    };
    assert!(reader.search_debounce_pending);
    assert!(!reader.search.complete);
    let second = match reader.set_search_query("cells", QueryValidation::Valid) {
        SearchStep::Debounce { revision } => revision,
        other => panic!("unexpected step {other:?}"),
    };
    assert!(!reader.search_debounce_due(first));
    assert!(reader.search_debounce_due(second));
    assert_eq!(
        reader.set_search_query("cells", QueryValidation::Valid),
        SearchStep::Unchanged
    );
    assert_eq!(
        reader.set_search_query(
            "(",
            QueryValidation::Invalid {
                message: "unbalanced".to_owned()
            }
        ),
        SearchStep::Finished {
            revision: second + 1
        }
    );
    assert_eq!(reader.search.input_error, Some("unbalanced".to_owned()));
    assert!(reader.search.complete);
    reader.search_field.set_text("cells").unwrap();
    assert_eq!(reader.search_field.text(), "cells");
    let revision = reader.reset_search();
    assert_eq!(reader.search_field.text(), "");
    assert_eq!(revision, second + 2);
    assert_eq!(reader.search.query, "");
    assert!(reader.search.complete);
    assert_eq!(reader.search.input_error, None);
}

#[test]
fn search_navigation_activates_matches_and_reveals_their_rows() {
    let mut reader = reader();
    let a = SearchMatchId {
        page: 1,
        start: 0,
        end: 2,
    };
    let b = SearchMatchId {
        page: 1,
        start: 5,
        end: 7,
    };
    let c = SearchMatchId {
        page: 3,
        start: 1,
        end: 2,
    };
    reader.search.order = vec![a, b, c];
    assert_eq!(reader.navigate_search(true), Some((a, Some(1))));
    assert_eq!(reader.navigate_search(true), Some((b, Some(2))));
    assert_eq!(reader.navigate_search(true), Some((c, Some(4))));
    assert_eq!(reader.navigate_search(true), Some((a, Some(1))));
    assert_eq!(reader.search.active, Some(a));
    assert_eq!(reader.qa_counts.search_focuses, 4);
    let missing = SearchMatchId {
        page: 9,
        start: 0,
        end: 1,
    };
    assert_eq!(reader.activate_search_match(missing), None);
    assert_eq!(reader.search.active, Some(a));
    assert_eq!(reader.qa_counts.search_focuses, 4);
    reader.search.order.clear();
    assert_eq!(reader.navigate_search(false), None);
    assert_eq!(reader.qa_counts.search_focuses, 4);
}

#[test]
fn qa_report_counts_tiles_pages_and_search_position() {
    let mut reader = reader();
    reader.toc_hovered = Some(2);
    let a = SearchMatchId {
        page: 1,
        start: 0,
        end: 2,
    };
    let b = SearchMatchId {
        page: 2,
        start: 0,
        end: 2,
    };
    reader.search.order = vec![a, b];
    reader.search.active = Some(b);
    reader.rendered.pop();
    reader.annotations = vec![
        AnnotationSummary {
            id: AnnotationId(1),
            highlight: Some(HighlightColor::Yellow),
            has_comment: false,
        },
        AnnotationSummary {
            id: AnnotationId(2),
            highlight: Some(HighlightColor::Yellow),
            has_comment: true,
        },
        AnnotationSummary {
            id: AnnotationId(3),
            highlight: Some(HighlightColor::Blue),
            has_comment: false,
        },
        AnnotationSummary {
            id: AnnotationId(4),
            highlight: None,
            has_comment: true,
        },
    ];
    let line = reader.qa_report(&host());
    assert!(line.starts_with(
        "GPUI_PDF_READER_QA view=Fluid theme=system pdf_render=normal pdf_dark_enabled=0 toc=3 links=2 link_navigations=0 link_preview=0 reference_preview=0 reference_group=0 citation_source=none link_preview_state=none scholarly=none "
    ));
    assert!(line.contains(" toc_hover=3 toc_hover_strength=0.000 "));
    assert!(line.contains(
        " cached_tiles=2 cached_bytes=400 max_tile_bytes=300 cached_text_pages=1 text_desired=2 pending=0 desired=4 visible_exact=2/3 visible_pages=2 debouncing=0 scroll=(0.00,12.50) sidebar=0.000/0 "
    ));
    assert!(line.contains(
        " annotations=4 highlights=3 highlight_colors=2 comments=2 annotation_revision=4/4/4 "
    ));
    assert!(line.contains(" search_results=2 "));
    assert!(line.contains(" active_search=2 "));
    assert!(line.ends_with(
        " extension_packages=0 extension_active=0 extension_suspended=0 extension_failed=0 extension_panel=none extension_checks=0 extension_native_rejected=0 status=Ready"
    ));
}

#[test]
fn qa_report_names_the_chosen_theme_render_mode_and_previewed_link() {
    let mut reader = reader();
    reader.presentation.selected_theme = Some("Ayu Dark".to_owned());
    reader.presentation.render_forced = true;
    reader.pdf_dark_mode_enabled = true;
    reader.presentation.previewed_link = Some(1);
    reader.presentation.previewed_reference = Some(0);
    reader.presentation.extension_panel_owner = Some("demo".to_owned());
    let mut host = host();
    host.citation_source = Some("  Smith  et\nal. ".to_owned());
    let line = reader.qa_report(&host);
    assert!(line.starts_with(
        "GPUI_PDF_READER_QA view=Fluid theme=Ayu Dark pdf_render=forced pdf_dark_enabled=1 toc=3 links=2 link_navigations=0 link_preview=2 reference_preview=1 reference_group=0 citation_source=Smith_et_al. link_preview_state=internal-matched "
    ));
    assert!(line.contains(" extension_panel=demo "));
    reader.presentation.previewed_link = Some(9);
    let line = reader.qa_report(&host);
    assert!(line.contains(" link_preview=0 "));
    assert!(line.contains(" citation_source=none link_preview_state=none "));
}

#[test]
fn flushing_the_autosave_writes_only_a_changed_non_blank_draft() {
    let mut reader = reader();
    reader.comment_editor_open = true;
    assert_eq!(reader.flush_comment_autosave(Some("text")), CommentFlush::Nothing);
    let armed = reader.comment_editor_changed();
    assert_eq!(reader.flush_comment_autosave(Some(" \n\t")), CommentFlush::Blank);
    assert!(!reader.comment_autosave_due(armed));
    assert_eq!(reader.flush_comment_autosave(Some("A note")), CommentFlush::Write);
    assert_eq!(reader.flush_comment_autosave(None), CommentFlush::Nothing);
    assert!(is_blank_text(""));
    assert!(!is_blank_text(" x "));
}

#[test]
fn qa_text_ranges_cover_the_first_occurrence() {
    let chars: Vec<TextChar> = "abcabc".chars().map(|value| TextChar { value }).collect();
    assert_eq!(
        qa_text_range(3, &chars, "ca"),
        Some(TextRange {
            start: TextPosition { page: 3, index: 2 },
            end: TextPosition { page: 3, index: 3 }
        })
    );
    assert_eq!(
        qa_text_range(0, &chars, "abc"),
        Some(TextRange {
            start: TextPosition { page: 0, index: 0 },
            end: TextPosition { page: 0, index: 2 }
        })
    );
    assert_eq!(qa_text_range(0, &chars, "cb"), None);
    assert_eq!(qa_text_range(0, &chars, ""), None);
    assert_eq!(qa_text_range(0, &chars, "abcabca"), None);
}

#[test]
fn search_panel_status_follows_the_search() {
    let mut search = SearchState {
        query: "  ".to_owned(),
        input_error: None,
        revision: 1,
        order: Vec::new(),
        active: None,
        searched_pages: 2,
        total_highlight_runs: 0,
        complete: false,
        truncated: false,
    };
    assert_eq!(search.status_text(9), "Type to search the document");
    search.query = "wave".to_owned();
    assert_eq!(search.status_text(9), "Searching… 2 / 9 pages");
    search.complete = true;
    assert_eq!(search.status_text(9), "0 results");
    let first = SearchMatchId {
        page: 0,
        start: 0,
        end: 4,
    };
    let second = SearchMatchId {
        page: 3,
        start: 8,
        end: 12,
    };
    search.order = vec![first];
    assert_eq!(search.status_text(9), "1 result");
    search.order.push(second);
    search.truncated = true;
    assert_eq!(search.status_text(9), "2 results (limit reached)");
    assert_eq!(search.status_label(9), "2 results (limit reached)");
    search.active = Some(second);
    assert_eq!(search.status_label(9), "2 of 2");
    search.input_error = Some("Search text is too long".to_owned());
    assert_eq!(search.status_text(9), "Search text is too long");
}

fn selection() -> TextSelection {
    TextSelection {
        anchor: TextPosition { page: 0, index: 4 },
        focus: TextPosition { page: 0, index: 9 },
    }
}

#[test]
fn starting_a_comment_keeps_an_open_draft() {
    let mut reader = reader();
    assert_eq!(reader.add_comment(false), CommentStart::NoSelection);
    assert_eq!(
        CommentStart::NoSelection.message(),
        Some("Select text before adding a comment")
    );
    reader.focus.selection = Some(selection());
    assert_eq!(reader.add_comment(false), CommentStart::Open(selection()));
    assert_eq!(CommentStart::Open(selection()).message(), None);
    assert_eq!(reader.add_comment(true), CommentStart::SelectionTooWide);
    reader.annotation_persistence_blocked = true;
    assert_eq!(reader.add_comment(false), CommentStart::Disabled);
    reader.annotations_loading = true;
    assert_eq!(reader.add_comment(false), CommentStart::StillLoading);
    reader.comment_editor_open = true;
    assert_eq!(reader.add_comment(false), CommentStart::KeepOpenDraft);
    assert_eq!(
        CommentStart::KeepOpenDraft.message(),
        Some("Finish or cancel the current comment before starting another")
    );
}

#[test]
fn writing_a_comment_refuses_blank_text_and_updates_the_edited_annotation() {
    let reader = reader();
    assert_eq!(
        reader.write_comment_target(" \n\t", true, None),
        CommentWrite::Empty
    );
    assert_eq!(
        reader.write_comment_target("note", false, None),
        CommentWrite::NoTarget
    );
    assert_eq!(reader.write_comment_target("note", true, None), CommentWrite::Add);
    assert_eq!(
        reader.write_comment_target("note", true, Some(AnnotationId(7))),
        CommentWrite::Update(AnnotationId(7))
    );
    let mut unloaded = reader;
    unloaded.annotation_revision = None;
    assert_eq!(
        unloaded.write_comment_target("note", true, None),
        CommentWrite::NoTarget
    );
}

#[test]
fn highlighting_uses_the_selection_or_the_active_annotation() {
    let mut reader = reader();
    assert_eq!(reader.add_highlight(false), HighlightStart::NoRange);
    reader.focus.active_annotation = Some(AnnotationId(2));
    assert_eq!(reader.add_highlight(false), HighlightStart::NoRange);
    reader.annotations = vec![AnnotationSummary {
        id: AnnotationId(2),
        highlight: Some(HighlightColor::Yellow),
        has_comment: true,
    }];
    assert_eq!(
        reader.add_highlight(false),
        HighlightStart::Annotation(AnnotationId(2))
    );
    reader.focus.selection = Some(selection());
    assert_eq!(
        reader.add_highlight(false),
        HighlightStart::Selection(selection())
    );
    assert_eq!(reader.add_highlight(true), HighlightStart::RangeTooWide);
    reader.annotation_revision = None;
    assert_eq!(reader.add_highlight(false), HighlightStart::NoAnnotationSet);
    reader.annotation_persistence_blocked = true;
    assert_eq!(reader.add_highlight(false), HighlightStart::Disabled);
    reader.annotations_loading = true;
    assert_eq!(reader.add_highlight(false), HighlightStart::StillLoading);
}

#[test]
fn the_newest_exact_annotation_is_reused() {
    assert_eq!(newest_candidate(&[]), None);
    let candidates = [
        (3, AnnotationId(9)),
        (5, AnnotationId(1)),
        (5, AnnotationId(4)),
        (2, AnnotationId(12)),
    ];
    assert_eq!(newest_candidate(&candidates), Some(AnnotationId(4)));
}
