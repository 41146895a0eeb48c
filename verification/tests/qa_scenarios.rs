use lib::reader::qa_feature::{
    FeatureAction, FeatureFailure, FeatureObservation, FeatureStep, QaFeaturePhase,
};
use lib::reader::qa_fluid::{
    FluidAction, FluidComment, FluidFailure, FluidFirstAnnotation, FluidObservation, FluidStep,
    QaFluidPhase,
};

fn feature() -> FeatureObservation {
    FeatureObservation {
        settled: true,
        annotations_loading: false,
        first_page_text: true,
        editor_open: false,
        editor_painted: false,
        editor_markdown: String::new(),
        draft_dirty: false,
        annotations_loaded: true,
        annotation_count: 0,
        annotation_revision: 0,
        saved_comment: None,
        comments_panel_open: false,
        search_panel_open: false,
        sidebar_closed: true,
        reader_focused: true,
        markdown_menu_visual: false,
        search_field_text: String::new(),
        search_query_empty: true,
        search_results: 0,
        active_search_position: None,
    }
}

fn act(action: FeatureAction, next: QaFeaturePhase) -> FeatureStep {
    FeatureStep::Act {
        action,
        next,
        finished: false,
    }
}

#[test]
fn feature_scenario_seeds_once_the_first_page_is_ready() {
    let mut observed = feature();
    observed.first_page_text = false;
    assert_eq!(QaFeaturePhase::Seed.step(&observed), FeatureStep::Wait);
    observed.first_page_text = true;
    assert_eq!(
        QaFeaturePhase::Seed.step(&observed),
        act(
            FeatureAction::SeedAnnotationsAndComment,
            QaFeaturePhase::WaitCommentEditor
        )
    );
}

#[test]
fn feature_scenario_types_the_comment_once_the_editor_painted() {
    let mut observed = feature();
    assert_eq!(
        QaFeaturePhase::WaitCommentEditor.step(&observed),
        FeatureStep::Fail(FeatureFailure::EditorGoneBeforeFrame)
    );
    observed.editor_open = true;
    assert_eq!(
        QaFeaturePhase::WaitCommentEditor.step(&observed),
        FeatureStep::Wait
    );
    observed.editor_painted = true;
    assert_eq!(
        QaFeaturePhase::WaitCommentEditor.step(&observed),
        act(
            FeatureAction::RepeatAddCommentThenTypeList,
            QaFeaturePhase::WaitCommentEdited
        )
    );
    observed.markdown_menu_visual = true;
    assert_eq!(
        QaFeaturePhase::WaitCommentEditor.step(&observed),
        FeatureStep::Act {
            action: FeatureAction::RepeatAddCommentThenOpenMarkdownMenu,
            next: QaFeaturePhase::Complete,
            finished: true,
        }
    );
}

#[test]
fn feature_scenario_checks_the_saved_comment() {
    let mut observed = feature();
    observed.editor_open = true;
    observed.draft_dirty = true;
    observed.editor_markdown = "- important copy".to_owned();
    assert_eq!(
        QaFeaturePhase::WaitCommentEdited.step(&observed),
        FeatureStep::Wait
    );
    observed.editor_markdown = "- important copy\n- check".to_owned();
    assert_eq!(
        QaFeaturePhase::WaitCommentEdited.step(&observed),
        act(FeatureAction::Continue, QaFeaturePhase::WaitCommentSaved)
    );
    observed.draft_dirty = false;
    assert_eq!(
        QaFeaturePhase::WaitCommentEdited.step(&observed),
        FeatureStep::Fail(FeatureFailure::EditsNotDirty)
    );
    observed.annotation_count = 6;
    observed.annotation_revision = 6;
    observed.saved_comment = Some("- important copy\n- chek".to_owned());
    assert_eq!(
        QaFeaturePhase::WaitCommentSaved.step(&observed),
        FeatureStep::Fail(FeatureFailure::UnexpectedMarkdown)
    );
    observed.saved_comment = Some("- important copy\n- check".to_owned());
    assert_eq!(
        QaFeaturePhase::WaitCommentSaved.step(&observed),
        act(FeatureAction::Continue, QaFeaturePhase::WaitCommentBack)
    );
    observed.editor_open = false;
    assert_eq!(
        QaFeaturePhase::WaitCommentSaved.step(&observed),
        FeatureStep::Fail(FeatureFailure::AutosaveClosedEditor)
    );
    assert_eq!(
        QaFeaturePhase::WaitCommentList.step(&observed),
        act(
            FeatureAction::ExerciseCommentInteractions,
            QaFeaturePhase::WaitCommentsOpen
        )
    );
    observed.annotation_revision = 7;
    assert_eq!(
        QaFeaturePhase::WaitCommentList.step(&observed),
        FeatureStep::Fail(FeatureFailure::BackChangedComment)
    );
}

#[test]
fn feature_scenario_drives_search_navigation() {
    let mut observed = feature();
    observed.search_field_text = "pag".to_owned();
    assert_eq!(
        QaFeaturePhase::WaitSearch.step(&observed),
        FeatureStep::Fail(FeatureFailure::SearchTypingLost)
    );
    observed.search_field_text = "page".to_owned();
    observed.search_results = 1;
    let failed = QaFeaturePhase::WaitSearch.step(&observed);
    assert_eq!(
        failed,
        FeatureStep::Fail(FeatureFailure::TooFewSearchResults(1))
    );
    assert_eq!(
        FeatureFailure::TooFewSearchResults(1).message(),
        "fixture search returned only 1 result(s)"
    );
    observed.search_results = 3;
    assert_eq!(
        QaFeaturePhase::WaitSearch.step(&observed),
        act(FeatureAction::PressEnter, QaFeaturePhase::WaitNavigation)
    );
    assert_eq!(
        QaFeaturePhase::WaitNavigation.step(&observed),
        FeatureStep::Wait
    );
    observed.active_search_position = Some(1);
    assert_eq!(
        QaFeaturePhase::WaitNavigation.step(&observed),
        act(
            FeatureAction::NavigateSearchBackward,
            QaFeaturePhase::WaitSearchReturn
        )
    );
    assert_eq!(
        QaFeaturePhase::WaitSearchClosed.step(&observed),
        FeatureStep::Fail(FeatureFailure::SearchNotReset)
    );
    observed.reader_focused = false;
    assert_eq!(
        QaFeaturePhase::WaitSearchClosed.step(&observed),
        FeatureStep::Fail(FeatureFailure::SearchFieldKeptFocus)
    );
    assert_eq!(
        QaFeaturePhase::WaitFinalNavigation.step(&observed),
        FeatureStep::Act {
            action: FeatureAction::ValidateFinalState,
            next: QaFeaturePhase::Complete,
            finished: true,
        }
    );
    assert_eq!(QaFeaturePhase::Complete.step(&observed), FeatureStep::Done);
}

fn fluid() -> FluidObservation {
    FluidObservation {
        settled: true,
        annotations_loading: false,
        first_page_text: true,
        annotations_loaded: true,
        annotation_count: 0,
        fixture_text_found: true,
        selection_visual: false,
        context_visual: false,
        editor_visual: false,
        editor_open: false,
        editor_painted: false,
        editor_markdown: String::new(),
        draft_dirty: false,
        comment_pane_open: false,
        comment_pane_closed: true,
        sidebar_open: false,
        search_panel_open: false,
        commented: None,
        first_annotation: None,
        context_has_comment: false,
        context_anchor_visible: false,
        search_results: 0,
        search_complete: false,
        layout_present: true,
        occlusion_reach_ok: true,
    }
}

#[test]
fn fluid_scenario_requires_an_empty_sidecar() {
    let mut observed = fluid();
    assert_eq!(
        QaFluidPhase::Seed.step(&observed),
        FluidStep::Act {
            action: FluidAction::HighlightAndComment,
            next: QaFluidPhase::WaitEditor,
            finished: false,
        }
    );
    observed.annotation_count = 2;
    assert_eq!(
        QaFluidPhase::Seed.step(&observed),
        FluidStep::Fail(FluidFailure::NeedsEmptySidecar)
    );
    assert_eq!(
        FluidFailure::NeedsEmptySidecar.message(),
        "fluid scenario requires a PDF with no existing sidecar"
    );
}

#[test]
fn fluid_scenario_checks_the_autosaved_note() {
    let mut observed = fluid();
    observed.editor_open = true;
    observed.commented = Some(FluidComment {
        markdown: "fluid note".to_owned(),
        yellow: true,
        being_edited: true,
        context_is_its_note: false,
    });
    assert_eq!(
        QaFluidPhase::WaitAutosave.step(&observed),
        FluidStep::Fail(FluidFailure::ContextStillAddNote)
    );
    if let Some(comment) = observed.commented.as_mut() {
        comment.context_is_its_note = true;
    }
    assert_eq!(
        QaFluidPhase::WaitAutosave.step(&observed),
        FluidStep::Act {
            action: FluidAction::ReturnToList,
            next: QaFluidPhase::WaitList,
            finished: false,
        }
    );
    observed.draft_dirty = true;
    assert_eq!(
        QaFluidPhase::WaitAutosave.step(&observed),
        FluidStep::Fail(FluidFailure::AutosaveClosedOrDirty)
    );
}

#[test]
fn fluid_scenario_reports_an_unexpected_final_state() {
    let mut observed = fluid();
    observed.annotation_count = 1;
    observed.first_annotation = Some(FluidFirstAnnotation {
        markdown: Some("fluid note".to_owned()),
        yellow: true,
        active: true,
    });
    observed.context_has_comment = true;
    observed.context_anchor_visible = true;
    observed.search_results = 1;
    observed.search_complete = true;
    let step = QaFluidPhase::WaitSearchResults.step(&observed);
    assert_eq!(
        step,
        FluidStep::Fail(FluidFailure::UnexpectedFinalState(1, 1, true))
    );
    assert_eq!(
        FluidFailure::UnexpectedFinalState(1, 1, true).message(),
        "unexpected final Fluid state: annotations=1, results=1, complete=true"
    );
    observed.search_results = 4;
    assert_eq!(
        QaFluidPhase::WaitSearchResults.step(&observed),
        FluidStep::Act {
            action: FluidAction::Continue,
            next: QaFluidPhase::Complete,
            finished: true,
        }
    );
    observed.occlusion_reach_ok = false;
    assert_eq!(
        QaFluidPhase::WaitSearchResults.step(&observed),
        FluidStep::Fail(FluidFailure::OcclusionNotAdded)
    );
}
