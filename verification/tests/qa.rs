use lib::qa::{
    QaConfig, QaPoll, QaRandom, QaWorkspaceResourceTotals, reader_settled_poll,
    TransferPoll, annotation_contexts_check, resources_settled_poll, tab_count_check,
    tab_order_matches, tab_reorder_expected, tab_transfer_poll, tab_transfer_window_check,
    trace_operation_label, window_count_poll,
};
use lib::reader::ActivityLevel;
use lib::reader::qa::QaReaderResourceSnapshot;
use lib::theme::{BackgroundAppearance, ThemePreference, window_background_appearance};

fn inactive_config() -> QaConfig {
    QaConfig {
        keystrokes: Vec::new(),
        wheel_delta_count: 0,
        interval_ms: 180,
        timeout_ms: 20_000,
        report: false,
        exit_after_report: false,
        feature_scenario: false,
        fluid_scenario: false,
        toc_hover: None,
        toc_navigate: None,
        link_navigate: None,
        link_hover: None,
        internal_link_hover: None,
        scientific_reference_hover: None,
        toc_callout_hold: false,
        reference_details: false,
        extension_scenario: None,
        expected_window_count: None,
        expected_tab_count: None,
        tab_drag_scenario: None,
        split_view_scenario: false,
        split_view_hold: false,
        tab_hover_hold: false,
        control_bar_scenario: false,
        multi_annotation_scenario: false,
        resource_trace: false,
        resource_sample_interval_ms: 100,
        resource_stress: false,
        progressive_open: false,
        resource_chaos: false,
        chaos_rounds: 2,
        chaos_actions_per_window: 4,
        chaos_seed: 1,
        render_dwell_ms: 320,
    }
}

#[test]
fn inactive_configuration_does_not_start_the_driver() {
    let config = inactive_config();
    assert!(!config.requested());
    assert!(!config.has_navigation_setup());
}

#[test]
fn any_single_request_starts_the_driver() {
    let mut keys = inactive_config();
    keys.keystrokes.push("cmd-f".to_owned());
    assert!(keys.requested());
    assert!(!keys.has_navigation_setup());

    let mut hover = inactive_config();
    hover.toc_hover = Some(2);
    assert!(hover.requested());
    assert!(hover.has_navigation_setup());

    let mut chaos = inactive_config();
    chaos.resource_chaos = true;
    assert!(chaos.requested());
}

#[test]
fn chaos_randomization_is_deterministic_and_bounded() {
    let mut first = QaRandom::new(42);
    let mut second = QaRandom::new(42);
    let first_values = (0..32).map(|_| first.next_usize(7)).collect::<Vec<_>>();
    let second_values = (0..32).map(|_| second.next_usize(7)).collect::<Vec<_>>();
    assert_eq!(first_values, second_values);
    assert!(first_values.iter().all(|value| *value < 7));
}

#[test]
fn chaos_generator_steps_and_shuffles_as_a_permutation() {
    let mut zero = QaRandom::new(0);
    let mut one = QaRandom::new(1);
    assert_eq!(zero.next(), one.next());
    let mut random = QaRandom::new(7);
    assert_eq!(
        random.next(),
        7u64.wrapping_mul(6_364_136_223_846_793_005)
            .wrapping_add(1_442_695_040_888_963_407)
    );
    let mut values = [1, 2, 3, 4, 5, 6, 7, 8];
    QaRandom::new(99).shuffle(&mut values);
    let mut sorted = values;
    sorted.sort();
    assert_eq!(sorted, [1, 2, 3, 4, 5, 6, 7, 8]);
    let mut again = [1, 2, 3, 4, 5, 6, 7, 8];
    QaRandom::new(99).shuffle(&mut again);
    assert_eq!(values, again);
}

#[test]
fn shuffling_owned_values_follows_the_same_swaps() {
    let mut words: Vec<String> = ["a", "b", "c", "d", "e"].iter().map(|w| w.to_string()).collect();
    QaRandom::new(5).shuffle(&mut words);
    let mut positions = [0usize, 1, 2, 3, 4];
    QaRandom::new(5).shuffle(&mut positions);
    let names = ["a", "b", "c", "d", "e"];
    let expected: Vec<String> = positions.iter().map(|&i| names[i].to_string()).collect();
    assert_eq!(words, expected);
    let mut random = QaRandom::new(5);
    let mut by_hand = [0usize, 1, 2, 3, 4];
    for index in (1..5).rev() {
        let j = random.next_usize(index + 1);
        by_hand.swap(index, j);
    }
    assert_eq!(positions, by_hand);
}

#[test]
fn trace_labels_are_bounded_and_sanitized() {
    assert_eq!(
        trace_operation_label("chaos", 3, "window 1/open.pdf"),
        "chaos-3-window_1_open.pdf"
    );
    let long = "x".repeat(100);
    let label = trace_operation_label("k", 0, &long);
    assert_eq!(label, format!("k-0-{}", "x".repeat(80)));
    assert_eq!(trace_operation_label("k", 12, "é-_."), "k-12-_-_.");
}

#[test]
fn workspace_totals_count_views_by_activity_and_saturate_bytes() {
    let snapshot = QaReaderResourceSnapshot {
        activity: ActivityLevel::BackgroundWarm,
        allocated_cpu_bytes: u64::MAX,
        allocated_gpu_bytes: 5,
        allocated_workers: 1,
        cached_tile_bytes: 10,
        estimated_tile_resident_bytes: 20,
        tile_cache_limit_bytes: 30,
        base_tile_cache_limit_bytes: 40,
        cached_tiles: 2,
        pending_tiles: 1,
        cached_text_pages: 3,
        cache_retention_percent: 75,
        cache_trimmed: true,
        worker_hibernated: false,
    };
    let mut totals = QaWorkspaceResourceTotals::default();
    totals.add(snapshot);
    totals.add(QaReaderResourceSnapshot {
        activity: ActivityLevel::ForegroundInteractive,
        cache_retention_percent: 50,
        cache_trimmed: false,
        worker_hibernated: true,
        ..snapshot
    });
    assert_eq!(totals.views, 2);
    assert_eq!(totals.warm, 1);
    assert_eq!(totals.interactive, 1);
    assert_eq!(totals.allocated_cpu_bytes, u64::MAX);
    assert_eq!(totals.allocated_gpu_bytes, 10);
    assert_eq!(totals.trimmed_views, 1);
    assert_eq!(totals.hibernated_views, 1);
    assert_eq!(totals.cache_retention_percent, 75);
}

#[test]
fn preferences_have_stable_qa_names() {
    assert_eq!(ThemePreference::System.name(), "system");
    assert_eq!(ThemePreference::Named.name(), "named");
}

#[test]
fn the_default_preference_follows_the_system() {
    assert_eq!(ThemePreference::default(), ThemePreference::System);
}

#[test]
fn window_count_waits_fails_on_extra_windows_and_times_out_with_counts() {
    assert_eq!(window_count_poll(2, 2, 2, 2, false), QaPoll::Settled);
    assert_eq!(window_count_poll(2, 1, 1, 1, false), QaPoll::Wait);
    assert_eq!(
        window_count_poll(2, 3, 3, 3, false),
        QaPoll::Fail {
            message: "expected 2 workspace windows, found 3".to_owned()
        }
    );
    assert_eq!(
        window_count_poll(2, 2, 1, 0, true),
        QaPoll::Fail {
            message: "multi-window startup did not settle: expected=2 windows=2 pdf_views=1 settled=0"
                .to_owned()
        }
    );
}

#[test]
fn resource_settlement_needs_every_view_settled() {
    assert_eq!(resources_settled_poll(1, 2, 2, false), QaPoll::Settled);
    assert_eq!(resources_settled_poll(1, 2, 1, false), QaPoll::Wait);
    assert_eq!(resources_settled_poll(0, 0, 0, false), QaPoll::Wait);
    assert_eq!(
        resources_settled_poll(1, 2, 1, true),
        QaPoll::Fail {
            message: "resource settlement timed out: windows=1 pdf_views=2 settled=1".to_owned()
        }
    );
    assert_eq!(tab_count_check(3, 3), Ok(()));
    assert_eq!(
        tab_count_check(3, 2),
        Err("expected 3 workspace tabs, found 2".to_owned())
    );
}

#[test]
fn reader_settlement_requires_an_unbroken_dwell() {
    assert_eq!(
        reader_settled_poll(true, None, 100, 250, 10_000),
        (QaPoll::Wait, Some(100))
    );
    assert_eq!(
        reader_settled_poll(true, Some(100), 300, 250, 10_000),
        (QaPoll::Wait, Some(100))
    );
    assert_eq!(
        reader_settled_poll(true, Some(100), 350, 250, 10_000),
        (QaPoll::Settled, Some(100))
    );
    assert_eq!(
        reader_settled_poll(false, Some(100), 350, 250, 10_000),
        (QaPoll::Wait, None)
    );
    assert_eq!(
        reader_settled_poll(false, None, 10_000, 250, 10_000),
        (
            QaPoll::Fail {
                message: "PDF viewport did not settle during progressive resource QA".to_owned()
            },
            None
        )
    );
}

#[test]
fn window_background_follows_the_design_system() {
    assert_eq!(
        window_background_appearance(true, false),
        BackgroundAppearance::Blurred
    );
    assert_eq!(
        window_background_appearance(false, true),
        BackgroundAppearance::Transparent
    );
    assert_eq!(
        window_background_appearance(false, false),
        BackgroundAppearance::Opaque
    );
}

#[test]
fn tab_reorder_moves_the_first_tab_to_the_end() {
    assert_eq!(
        tab_reorder_expected(&[7, 8]),
        Err("tab reorder requires at least three tabs".to_owned())
    );
    let expected = tab_reorder_expected(&[7, 8, 9]).unwrap();
    assert_eq!(expected, vec![8, 9, 7]);
    assert!(tab_order_matches(&expected, &[8, 9, 7]));
    assert!(!tab_order_matches(&expected, &[7, 8, 9]));
    assert!(!tab_order_matches(&expected, &[8, 9]));
}

#[test]
fn tab_transfer_needs_two_windows_and_settles_into_one() {
    assert_eq!(tab_transfer_window_check(2), Ok(()));
    assert_eq!(
        tab_transfer_window_check(3),
        Err("tab transfer requires two windows, found 3".to_owned())
    );
    assert_eq!(tab_transfer_poll(Some((2, true)), 1, false), TransferPoll::Settled);
    assert_eq!(tab_transfer_poll(Some((2, true)), 2, false), TransferPoll::Wait);
    assert_eq!(tab_transfer_poll(Some((1, true)), 1, true), TransferPoll::TimedOut);
    assert_eq!(tab_transfer_poll(None, 1, false), TransferPoll::Wait);
}

#[test]
fn annotation_contexts_must_not_be_shared_between_tabs() {
    let paths = vec!["a.pdf".to_owned(), "b.pdf".to_owned()];
    assert_eq!(annotation_contexts_check(&[1, 2], &paths, 2), Ok((2, 2)));
    assert_eq!(
        annotation_contexts_check(&[1, 1], &paths, 2),
        Err("multi-annotation contexts were reused across PDF tabs".to_owned())
    );
    let same = vec!["a.pdf".to_owned(), "a.pdf".to_owned()];
    assert_eq!(
        annotation_contexts_check(&[1, 2], &same, 2),
        Err("multi-annotation contexts were reused across PDF tabs".to_owned())
    );
}

#[test]
fn annotation_contexts_compare_paths_by_components() {
    let spelled_twice = vec!["/docs//paper.pdf".to_owned(), "/docs/paper.pdf".to_owned()];
    assert_eq!(
        annotation_contexts_check(&[1, 2], &spelled_twice, 2),
        Err("multi-annotation contexts were reused across PDF tabs".to_owned())
    );
    let with_dot = vec!["docs/./paper.pdf/".to_owned(), "docs/paper.pdf".to_owned()];
    assert_eq!(
        annotation_contexts_check(&[1, 2], &with_dot, 2),
        Err("multi-annotation contexts were reused across PDF tabs".to_owned())
    );
    let leading_dot = vec!["./paper.pdf".to_owned(), "paper.pdf".to_owned()];
    assert_eq!(annotation_contexts_check(&[1, 2], &leading_dot, 2), Ok((2, 2)));
    let rooted = vec!["/paper.pdf".to_owned(), "paper.pdf".to_owned()];
    assert_eq!(annotation_contexts_check(&[1, 2], &rooted, 2), Ok((2, 2)));
    let parent = vec!["a/../paper.pdf".to_owned(), "paper.pdf".to_owned()];
    assert_eq!(annotation_contexts_check(&[1, 2], &parent, 2), Ok((2, 2)));
}
