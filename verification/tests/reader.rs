use lib::reader::comments::{
    CommentEditorPresentation, CommentEmptyPresentation, annotation_error_presentation,
    comment_draft_needs_confirmation, compact_preview, stale_sidecar_error,
};
use lib::reader::extensions::{
    ExtensionSnapshotDispatch, TextChar, TextLayer, bounded_snapshot_string, text_layer_statistics,
};
use lib::reader::render::{
    AnnotationId, PaintBudget, TILE_SIZE, is_inactive, retained_cache_limit, tile_core_rect,
};
use lib::reader::search::{SearchListRow, SearchMatchId, next_search_match_id, search_list_rows};
use lib::reader::toc::{
    active_toc_index, end_truncate, toc_breadcrumb_entries, toc_display_breadcrumbs,
};
use lib::reader::{
    PendingOpenTransition, PixelRect, RasterSize, TileKey, TocEntry, transition_pending_open,
};
use std::path::PathBuf;

const RESOURCE_MIB: u64 = 1024 * 1024;

#[test]
fn editor_copy_is_shared_without_losing_state() {
    assert_eq!(
        CommentEditorPresentation::new(false, false, false).title,
        "Comments"
    );
    assert_eq!(
        CommentEditorPresentation::new(true, true, false).save_status,
        "Saved"
    );
    assert_eq!(
        CommentEditorPresentation::new(true, true, true).save_status,
        "Saving…"
    );
}

#[test]
fn empty_copy_explains_the_floating_note_controls() {
    let empty = CommentEmptyPresentation::new(false, false);
    assert_eq!(empty.title, "No comments yet");
    assert!(empty.detail.contains("floating Note"));
    assert_eq!(
        CommentEmptyPresentation::new(false, true).title,
        "No comments loaded"
    );
}

#[test]
fn stale_sidecar_errors_are_concise_without_hiding_the_safety_decision() {
    let message = "annotation sidecar belongs to a different PDF revision (expected 1 byte; found 2 bytes)";
    let presented = annotation_error_presentation(message);
    assert_eq!(
        presented,
        "Saved comments are for another version of this PDF, so they were not loaded."
    );
}

#[test]
fn other_annotation_errors_are_shown_verbatim() {
    assert!(!stale_sidecar_error("Annotations are still loading"));
    assert!(stale_sidecar_error(
        "annotation sidecar belongs to a different PDF revision"
    ));
    assert_eq!(
        annotation_error_presentation("Annotations are still loading"),
        "Annotations are still loading"
    );
    assert_eq!(
        CommentEditorPresentation::new(true, false, false),
        CommentEditorPresentation {
            title: "New Comment",
            save_status: "Auto-save"
        }
    );
    assert_eq!(
        CommentEditorPresentation::new(true, true, false).title,
        "Edit Comment"
    );
    assert_eq!(CommentEmptyPresentation::new(true, false).title, "Loading comments…");
    assert!(CommentEmptyPresentation::new(true, true)
        .detail
        .starts_with("Reading is unaffected."));
}

#[test]
fn only_a_modified_open_comment_requires_discard_confirmation() {
    assert!(!comment_draft_needs_confirmation(false, false));
    assert!(!comment_draft_needs_confirmation(false, true));
    assert!(!comment_draft_needs_confirmation(true, false));
    assert!(comment_draft_needs_confirmation(true, true));
}

#[test]
fn comment_previews_collapse_whitespace_and_truncate_by_unicode_character() {
    assert_eq!(compact_preview("  Café\n\t日本語  ", 32), "Café 日本語");
    assert_eq!(compact_preview("😀😀😀😀", 3), "😀😀😀…");
    assert_eq!(compact_preview("one   two three", 7), "one two…");
    assert_eq!(compact_preview("", 3), "");
}

#[test]
fn comment_previews_treat_unicode_spaces_as_white_space() {
    assert_eq!(compact_preview("a\u{3000}\u{00A0}b\u{2028}c", 10), "a b c");
    assert_eq!(compact_preview(" \n\t ", 10), "");
    assert_eq!(compact_preview("abc", 3), "abc");
    assert_eq!(compact_preview("abcd", 0), "…");
}

#[test]
fn idle_cache_retention_scales_without_rounding_small_nonzero_limits_to_zero() {
    assert_eq!(
        retained_cache_limit(64 * RESOURCE_MIB as usize, 50),
        32 * RESOURCE_MIB as usize
    );
    assert_eq!(
        retained_cache_limit(64 * RESOURCE_MIB as usize, 10),
        6_710_887
    );
    assert_eq!(retained_cache_limit(1, 10), 1);
    assert_eq!(retained_cache_limit(0, 10), 0);
}

#[test]
fn retention_of_the_full_percentage_keeps_the_whole_limit() {
    assert_eq!(retained_cache_limit(usize::MAX, 100), usize::MAX);
    assert_eq!(retained_cache_limit(usize::MAX, 0), 0);
    assert_eq!(retained_cache_limit(199, 1), 2);
}

#[test]
fn extension_statistics_count_known_text_without_copying_it_into_snapshots() {
    let text = TextLayer::new(
        "one  two\nthree"
            .chars()
            .map(|value| TextChar { value })
            .collect(),
    );
    assert_eq!(text_layer_statistics(&text), (3, 14));
    assert_eq!(bounded_snapshot_string("abcdefgh", 4), "abcd");
}

#[test]
fn snapshot_strings_are_cut_at_character_boundaries() {
    assert_eq!(bounded_snapshot_string("aé", 2), "a");
    assert_eq!(bounded_snapshot_string("aé", 3), "aé");
    assert_eq!(bounded_snapshot_string("😀", 3), "");
    let empty = TextLayer::new(Vec::new());
    assert_eq!(text_layer_statistics(&empty), (0, 0));
    let spaced = TextLayer::new(
        "  a  "
            .chars()
            .map(|value| TextChar { value })
            .collect(),
    );
    assert_eq!(text_layer_statistics(&spaced), (1, 5));
}

#[test]
fn raw_input_snapshot_requests_coalesce_until_async_dispatch_begins() {
    let mut dispatch = ExtensionSnapshotDispatch::default();
    assert!(dispatch.request());
    assert!(!dispatch.request());
    assert!(!dispatch.request());
    dispatch.begin_dispatch();
    assert!(dispatch.request());
}

#[test]
fn tile_grid_clips_partial_edges_without_zero_sized_tiles() {
    let raster = RasterSize {
        width: 2_050,
        height: 1_025,
    };
    let first = tile_core_rect(TileKey {
        page: 0,
        raster,
        column: 0,
        row: 0,
    })
    .unwrap();
    let last = tile_core_rect(TileKey {
        page: 0,
        raster,
        column: 2,
        row: 1,
    })
    .unwrap();
    assert_eq!(first.width, 1_024);
    assert_eq!(
        last,
        PixelRect {
            x: 2_048,
            y: 1_024,
            width: 2,
            height: 1
        }
    );
    assert!(
        tile_core_rect(TileKey {
            page: 0,
            raster,
            column: 3,
            row: 0,
        })
        .is_none()
    );
    assert!(
        tile_core_rect(TileKey {
            page: 0,
            raster,
            column: u32::MAX,
            row: 0,
        })
        .is_none()
    );
}

#[test]
fn every_raster_pixel_lies_in_the_tile_of_its_grid_cell() {
    let raster = RasterSize {
        width: 3_000,
        height: 1_500,
    };
    for (px, py) in [(0, 0), (1_023, 1_023), (1_024, 0), (2_999, 1_499)] {
        let rect = tile_core_rect(TileKey {
            page: 2,
            raster,
            column: px / TILE_SIZE,
            row: py / TILE_SIZE,
        })
        .unwrap();
        assert!(rect.x <= px && px < rect.x + rect.width);
        assert!(rect.y <= py && py < rect.y + rect.height);
        assert!(rect.width >= 1 && rect.height >= 1);
    }
    let empty = RasterSize {
        width: 0,
        height: 0,
    };
    assert!(
        tile_core_rect(TileKey {
            page: 0,
            raster: empty,
            column: 0,
            row: 0
        })
        .is_none()
    );
}

#[test]
fn paint_budget_is_hard_and_active_items_sort_first() {
    let mut budget = PaintBudget::new(3);
    assert!(!budget.exhausted());
    assert!(budget.take());
    assert!(budget.take());
    assert!(budget.take());
    assert!(budget.exhausted());
    assert!(!budget.take());
    assert!(!budget.take());

    let mut ids = [AnnotationId(3), AnnotationId(1), AnnotationId(2)];
    ids.sort_by_key(|id| is_inactive(*id, Some(AnnotationId(2))));
    assert_eq!(ids[0], AnnotationId(2));
    assert!(ids[1..].contains(&AnnotationId(1)));
    assert!(ids[1..].contains(&AnnotationId(3)));
}

#[test]
fn paint_budget_grants_partial_claims_up_to_what_is_left() {
    let mut budget = PaintBudget::new(10);
    budget.take_up_to(4);
    assert_eq!(budget.remaining(), 6);
    budget.take_up_to(100);
    assert_eq!(budget.remaining(), 0);
    assert!(budget.exhausted());
    assert!(is_inactive(AnnotationId(1), None));
    assert!(!is_inactive(AnnotationId(1), Some(AnnotationId(1))));
}

#[test]
fn search_list_groups_matches_under_one_heading_per_page() {
    let rows = search_list_rows(&[
        SearchMatchId {
            page: 1,
            start: 2,
            end: 3,
        },
        SearchMatchId {
            page: 1,
            start: 8,
            end: 9,
        },
        SearchMatchId {
            page: 4,
            start: 1,
            end: 2,
        },
    ]);
    assert_eq!(rows.len(), 5);
    assert_eq!(rows[0], SearchListRow::Page(1));
    assert!(matches!(rows[1], SearchListRow::Match { ordinal: 0, .. }));
    assert!(matches!(rows[2], SearchListRow::Match { ordinal: 1, .. }));
    assert_eq!(rows[3], SearchListRow::Page(4));
    assert!(matches!(rows[4], SearchListRow::Match { ordinal: 2, .. }));
}

#[test]
fn search_navigation_handles_initial_stale_and_wrapped_results() {
    let first = SearchMatchId {
        page: 0,
        start: 2,
        end: 5,
    };
    let second = SearchMatchId {
        page: 2,
        start: 7,
        end: 10,
    };
    let stale = SearchMatchId {
        page: 9,
        start: 0,
        end: 0,
    };
    let results = [first, second];

    assert_eq!(next_search_match_id(&[], None, true), None);
    assert_eq!(next_search_match_id(&results, None, true), Some(first));
    assert_eq!(next_search_match_id(&results, None, false), Some(second));
    assert_eq!(
        next_search_match_id(&results, Some(first), true),
        Some(second)
    );
    assert_eq!(
        next_search_match_id(&results, Some(second), true),
        Some(first)
    );
    assert_eq!(
        next_search_match_id(&results, Some(first), false),
        Some(second)
    );
    assert_eq!(
        next_search_match_id(&results, Some(stale), true),
        Some(first)
    );
    assert_eq!(
        next_search_match_id(&results, Some(stale), false),
        Some(second)
    );
}

#[test]
fn pending_document_open_waits_opens_or_cancels_without_losing_its_path() {
    let first = PathBuf::from("next.pdf");
    let mut pending = Some(first.clone());

    assert_eq!(
        transition_pending_open(&mut pending, Some(6), 5, false),
        PendingOpenTransition::Waiting
    );
    assert_eq!(pending, Some(first.clone()));
    assert_eq!(
        transition_pending_open(&mut pending, Some(6), 6, false),
        PendingOpenTransition::Open(first)
    );
    assert_eq!(pending, None);

    let replacement = PathBuf::from("replacement.pdf");
    pending = Some(replacement.clone());
    assert_eq!(
        transition_pending_open(&mut pending, Some(1), 0, true),
        PendingOpenTransition::Cancelled(replacement)
    );
    assert_eq!(pending, None);
    assert_eq!(
        transition_pending_open(&mut pending, None, 0, false),
        PendingOpenTransition::Idle
    );
}

#[test]
fn a_pending_open_without_an_awaited_generation_proceeds() {
    let mut pending = Some("a.pdf".to_owned());
    assert_eq!(
        transition_pending_open(&mut pending, None, 0, false),
        PendingOpenTransition::Open("a.pdf".to_owned())
    );
    assert_eq!(pending, None);
}

fn entry(title: &str, page: usize, depth: u16) -> TocEntry {
    TocEntry {
        title: title.to_owned(),
        page,
        depth,
    }
}

#[test]
fn active_entry_is_the_last_one_starting_on_or_before_the_page() {
    let entries = vec![
        entry("Intro", 2, 0),
        entry("Methods", 5, 0),
        entry("Data", 5, 1),
        entry("Results", 9, 0),
    ];
    assert_eq!(active_toc_index(&entries, 0), Some(0));
    assert_eq!(active_toc_index(&entries, 2), Some(0));
    assert_eq!(active_toc_index(&entries, 6), Some(2));
    assert_eq!(active_toc_index(&entries, 100), Some(3));
    assert_eq!(active_toc_index(&[], 3), None);
}

#[test]
fn breadcrumbs_walk_up_to_the_outermost_ancestor() {
    let entries = vec![
        entry("Part I", 0, 0),
        entry("Chapter 1", 1, 1),
        entry("Part II", 4, 0),
        entry("Chapter 2", 5, 1),
        entry("Section 2.1", 6, 2),
        entry("Section 2.2", 7, 2),
    ];
    assert_eq!(
        toc_breadcrumb_entries(&entries, 5),
        Some(vec![
            (2, "Part II".to_owned()),
            (3, "Chapter 2".to_owned()),
            (5, "Section 2.2".to_owned())
        ])
    );
    assert_eq!(
        toc_breadcrumb_entries(&entries, 0),
        Some(vec![(0, "Part I".to_owned())])
    );
    assert_eq!(toc_breadcrumb_entries(&entries, 6), None);
}

#[test]
fn breadcrumb_labels_share_the_line_budget() {
    assert_eq!(end_truncate("Introduction", 5), "Intr…");
    assert_eq!(end_truncate("Intro", 5), "Intro");
    assert_eq!(end_truncate("Introduction", 1), "Introduction");
    let trail = vec![
        (0, "A rather long part title".to_owned()),
        (1, "Chapter".to_owned()),
    ];
    assert_eq!(
        toc_display_breadcrumbs(&trail),
        vec![
            (0, "A rather long part …".to_owned()),
            (1, "Chapter".to_owned())
        ]
    );
    let many: Vec<(usize, String)> = (0..6).map(|i| (i, "Subsection title".to_owned())).collect();
    assert!(
        toc_display_breadcrumbs(&many)
            .iter()
            .all(|(_, label)| label == "Subsect…")
    );
    assert!(toc_display_breadcrumbs(&[]).is_empty());
}
