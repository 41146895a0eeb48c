//! The phases of the QA feature scenario: seeding annotations and a comment,
//! native comment editing and autosave, the comment and search sidebars, and
//! search navigation. Each tick the host reports what it observes of the reader;
//! the scenario decides whether to wait, what the host does next and in which
//! phase it continues, or why the run fails. The host performs the actions
//! (keystrokes, pointer events, sidebar toggles) and the final validation.

use vstd::prelude::*;

use crate::text_format::{str_eq, with_number};

verus! {

/// Where the feature scenario stands.
#[derive(Clone, Copy, Debug, PartialEq, Eq, Structural)]
pub enum QaFeaturePhase {
    Seed,
    WaitCommentEditor,
    WaitCommentEdited,
    WaitCommentSaved,
    WaitCommentBack,
    WaitCommentList,
    WaitCommentsOpen,
    WaitCommentsClosed,
    WaitSearchOpen,
    WaitSearch,
    WaitNavigation,
    WaitSearchReturn,
    WaitSearchClosed,
    WaitSearchReopened,
    WaitSearchRepopulated,
    WaitFinalNavigation,
    Complete,
}

/// What the host observed of the reader for one tick.
pub struct FeatureObservation {
    /// The viewport has settled (no scroll, zoom or sidebar motion pending).
    pub settled: bool,
    pub annotations_loading: bool,
    /// The text of the first page has been extracted.
    pub first_page_text: bool,
    pub editor_open: bool,
    /// The open comment editor has painted a frame.
    pub editor_painted: bool,
    /// The open comment editor's Markdown (empty without an editor).
    pub editor_markdown: String,
    pub draft_dirty: bool,
    /// An annotation set is loaded, with its size and revision.
    pub annotations_loaded: bool,
    pub annotation_count: usize,
    pub annotation_revision: u64,
    /// The Markdown of the first annotation that carries a comment.
    pub saved_comment: Option<String>,
    /// The Comments sidebar is fully open.
    pub comments_panel_open: bool,
    /// The Search sidebar is fully open.
    pub search_panel_open: bool,
    /// The sidebar is fully closed.
    pub sidebar_closed: bool,
    /// The reader itself holds keyboard focus.
    pub reader_focused: bool,
    /// The run only captures the Markdown slash menu.
    pub markdown_menu_visual: bool,
    pub search_field_text: String,
    pub search_query_empty: bool,
    pub search_results: usize,
    /// Position of the active match among the results.
    pub active_search_position: Option<usize>,
}

/// What the host does for the scenario.
#[derive(Clone, Copy, Debug, PartialEq, Eq, Structural)]
pub enum FeatureAction {
    /// Seed the fixture annotations and open a comment on them.
    SeedAnnotationsAndComment,
    /// Repeat Add Comment (failing unless the open draft and its range are
    /// kept), clear the warning, and type the slash-menu keys `/ h`.
    RepeatAddCommentThenOpenMarkdownMenu,
    /// Repeat Add Comment as above, clear the warning, and type the bullet
    /// list `/bullet`, `important copy`, `check` with Return between.
    RepeatAddCommentThenTypeList,
    /// Nothing beyond the phase change.
    Continue,
    /// Press Escape in the comment editor.
    PressEscape,
    /// Click the commented highlight, open it from its floating context and
    /// from the comment list, returning to the list each time.
    ExerciseCommentInteractions,
    /// Close the Comments sidebar, then scroll and middle-click pan while it slides.
    CloseCommentsWhileScrolling,
    /// Show the Search sidebar.
    ShowSearch,
    /// Focus the search field and type `page`.
    TypeSearchQuery,
    /// Press Return.
    PressEnter,
    /// Move to the previous search match.
    NavigateSearchBackward,
    /// Center the document horizontally and close the Search sidebar.
    CenterAndCloseSearch,
    /// Move to the next search match.
    NavigateSearchForward,
    /// Validate the final state of the reader.
    ValidateFinalState,
}

/// Why the feature scenario fails.
#[derive(Clone, Copy, Debug, PartialEq, Eq, Structural)]
pub enum FeatureFailure {
    EditorGoneBeforeFrame,
    EditorGoneAfterEditing,
    EditsNotDirty,
    AnnotationsGoneAfterSave,
    AutosaveClosedEditor,
    NoSavedMarkdown,
    /// The saved Markdown differs from what was typed; the host quotes it.
    UnexpectedMarkdown,
    EditorGoneBeforeBack,
    AnnotationsGoneAfterCancel,
    BackChangedComment,
    CommentInputKeptFocus,
    SearchTypingLost,
    /// The fixture search found this many results, fewer than two.
    TooFewSearchResults(usize),
    SearchFieldKeptFocus,
    SearchNotReset,
}

/// One tick of the scenario.
#[derive(Clone, Copy, Debug, PartialEq, Eq, Structural)]
pub enum FeatureStep {
    /// Nothing to do yet.
    Wait,
    /// Perform `action` and continue in `next`; `finished` when the scenario is done.
    Act { action: FeatureAction, next: QaFeaturePhase, finished: bool },
    /// The run fails.
    Fail(FeatureFailure),
    /// The scenario is complete.
    Done,
}

impl FeatureFailure {
    /// The failure's message (for `UnexpectedMarkdown`, the part before the
    /// quoted Markdown).
    pub fn message(&self) -> (message: String)
        ensures
            message@ == feature_failure_message(*self),
    {
        match self {
            FeatureFailure::EditorGoneBeforeFrame => "comment editor disappeared before its native frame".to_owned(),
            FeatureFailure::EditorGoneAfterEditing => "comment editor disappeared after native editing".to_owned(),
            FeatureFailure::EditsNotDirty => "native comment edits did not mark the draft dirty".to_owned(),
            FeatureFailure::AnnotationsGoneAfterSave => "annotations disappeared after comment save".to_owned(),
            FeatureFailure::AutosaveClosedEditor => "autosave closed the comment editor".to_owned(),
            FeatureFailure::NoSavedMarkdown => "native comment save produced no Markdown".to_owned(),
            FeatureFailure::UnexpectedMarkdown => "native comment input/formatting produced unexpected Markdown: ".to_owned(),
            FeatureFailure::EditorGoneBeforeBack => "comment editor disappeared before Back QA".to_owned(),
            FeatureFailure::AnnotationsGoneAfterCancel => "annotations disappeared after comment cancel".to_owned(),
            FeatureFailure::BackChangedComment => "Back changed the persisted comment".to_owned(),
            FeatureFailure::CommentInputKeptFocus => "closing Comments left a hidden comment input focused".to_owned(),
            FeatureFailure::SearchTypingLost => "native search typing did not update the field".to_owned(),
            FeatureFailure::TooFewSearchResults(count) => with_number(
                "fixture search returned only ",
                *count,
                " result(s)",
            ),
            FeatureFailure::SearchFieldKeptFocus => "closing Search left its hidden text field focused".to_owned(),
            FeatureFailure::SearchNotReset => "closing Search did not reset its query and results".to_owned(),
        }
    }
}

/// The message of each failure.
pub open spec fn feature_failure_message(failure: FeatureFailure) -> Seq<char> {
    match failure {
        FeatureFailure::EditorGoneBeforeFrame => "comment editor disappeared before its native frame"@,
        FeatureFailure::EditorGoneAfterEditing => "comment editor disappeared after native editing"@,
        FeatureFailure::EditsNotDirty => "native comment edits did not mark the draft dirty"@,
        FeatureFailure::AnnotationsGoneAfterSave => "annotations disappeared after comment save"@,
        FeatureFailure::AutosaveClosedEditor => "autosave closed the comment editor"@,
        FeatureFailure::NoSavedMarkdown => "native comment save produced no Markdown"@,
        FeatureFailure::UnexpectedMarkdown => "native comment input/formatting produced unexpected Markdown: "@,
        FeatureFailure::EditorGoneBeforeBack => "comment editor disappeared before Back QA"@,
        FeatureFailure::AnnotationsGoneAfterCancel => "annotations disappeared after comment cancel"@,
        FeatureFailure::BackChangedComment => "Back changed the persisted comment"@,
        FeatureFailure::CommentInputKeptFocus => "closing Comments left a hidden comment input focused"@,
        FeatureFailure::SearchTypingLost => "native search typing did not update the field"@,
        FeatureFailure::TooFewSearchResults(count) => "fixture search returned only "@ + crate::text_format::decimal_spec(
            count as nat,
        ) + " result(s)"@,
        FeatureFailure::SearchFieldKeptFocus => "closing Search left its hidden text field focused"@,
        FeatureFailure::SearchNotReset => "closing Search did not reset its query and results"@,
    }
}

/// The comment the scenario types, as Markdown.
pub open spec fn typed_comment() -> Seq<char> {
    "- important copy\n- check"@
}

/// Continue in `next` with `action`.
pub open spec fn act(action: FeatureAction, next: QaFeaturePhase) -> FeatureStep {
    FeatureStep::Act { action, next, finished: false }
}

/// What one tick in `phase` does, given what the host observed.
pub open spec fn feature_step_spec(phase: QaFeaturePhase, o: FeatureObservation) -> FeatureStep {
    match phase {
        QaFeaturePhase::Seed => if !o.settled || o.annotations_loading || !o.first_page_text {
            FeatureStep::Wait
        } else {
            act(FeatureAction::SeedAnnotationsAndComment, QaFeaturePhase::WaitCommentEditor)
        },
        QaFeaturePhase::WaitCommentEditor => if !o.editor_open {
            FeatureStep::Fail(FeatureFailure::EditorGoneBeforeFrame)
        } else if !o.editor_painted {
            FeatureStep::Wait
        } else if o.markdown_menu_visual {
            FeatureStep::Act {
                action: FeatureAction::RepeatAddCommentThenOpenMarkdownMenu,
                next: QaFeaturePhase::Complete,
                finished: true,
            }
        } else {
            act(FeatureAction::RepeatAddCommentThenTypeList, QaFeaturePhase::WaitCommentEdited)
        },
        QaFeaturePhase::WaitCommentEdited => if !o.editor_open {
            FeatureStep::Fail(FeatureFailure::EditorGoneAfterEditing)
        } else if !o.draft_dirty {
            FeatureStep::Fail(FeatureFailure::EditsNotDirty)
        } else if o.editor_markdown@ != typed_comment() {
            FeatureStep::Wait
        } else {
            act(FeatureAction::Continue, QaFeaturePhase::WaitCommentSaved)
        },
        QaFeaturePhase::WaitCommentSaved => if !o.annotations_loaded {
            FeatureStep::Fail(FeatureFailure::AnnotationsGoneAfterSave)
        } else if o.annotation_count != 6 || o.annotation_revision != 6 || o.draft_dirty {
            FeatureStep::Wait
        } else if !o.editor_open {
            FeatureStep::Fail(FeatureFailure::AutosaveClosedEditor)
        } else {
            match o.saved_comment {
                None => FeatureStep::Fail(FeatureFailure::NoSavedMarkdown),
                Some(comment) => if comment@ != typed_comment() {
                    FeatureStep::Fail(FeatureFailure::UnexpectedMarkdown)
                } else {
                    act(FeatureAction::Continue, QaFeaturePhase::WaitCommentBack)
                },
            }
        },
        QaFeaturePhase::WaitCommentBack => if !o.editor_open {
            FeatureStep::Fail(FeatureFailure::EditorGoneBeforeBack)
        } else if o.editor_painted {
            act(FeatureAction::PressEscape, QaFeaturePhase::WaitCommentList)
        } else {
            FeatureStep::Wait
        },
        QaFeaturePhase::WaitCommentList => if o.editor_open {
            FeatureStep::Wait
        } else if !o.annotations_loaded {
            FeatureStep::Fail(FeatureFailure::AnnotationsGoneAfterCancel)
        } else if o.annotation_revision != 6 || !(o.saved_comment matches Some(c) && c@
            == typed_comment()) {
            FeatureStep::Fail(FeatureFailure::BackChangedComment)
        } else {
            act(FeatureAction::ExerciseCommentInteractions, QaFeaturePhase::WaitCommentsOpen)
        },
        QaFeaturePhase::WaitCommentsOpen => if o.settled && o.comments_panel_open {
            act(FeatureAction::CloseCommentsWhileScrolling, QaFeaturePhase::WaitCommentsClosed)
        } else {
            FeatureStep::Wait
        },
        QaFeaturePhase::WaitCommentsClosed => if !(o.settled && o.sidebar_closed) {
            FeatureStep::Wait
        } else if !o.reader_focused {
            FeatureStep::Fail(FeatureFailure::CommentInputKeptFocus)
        } else {
            act(FeatureAction::ShowSearch, QaFeaturePhase::WaitSearchOpen)
        },
        QaFeaturePhase::WaitSearchOpen => if o.settled && o.search_panel_open {
            act(FeatureAction::TypeSearchQuery, QaFeaturePhase::WaitSearch)
        } else {
            FeatureStep::Wait
        },
        QaFeaturePhase::WaitSearch => if !o.settled {
            FeatureStep::Wait
        } else if o.search_field_text@ != "page"@ {
            FeatureStep::Fail(FeatureFailure::SearchTypingLost)
        } else if o.search_results < 2 {
            FeatureStep::Fail(FeatureFailure::TooFewSearchResults(o.search_results))
        } else {
            act(FeatureAction::PressEnter, QaFeaturePhase::WaitNavigation)
        },
        QaFeaturePhase::WaitNavigation => if !o.settled || o.active_search_position != Some(1usize) {
            FeatureStep::Wait
        } else {
            act(FeatureAction::NavigateSearchBackward, QaFeaturePhase::WaitSearchReturn)
        },
        QaFeaturePhase::WaitSearchReturn => if o.settled {
            act(FeatureAction::CenterAndCloseSearch, QaFeaturePhase::WaitSearchClosed)
        } else {
            FeatureStep::Wait
        },
        QaFeaturePhase::WaitSearchClosed => if !(o.settled && o.sidebar_closed) {
            FeatureStep::Wait
        } else if !o.reader_focused {
            FeatureStep::Fail(FeatureFailure::SearchFieldKeptFocus)
        } else if !o.search_query_empty || o.search_results != 0 || o.search_field_text@.len() != 0 {
            FeatureStep::Fail(FeatureFailure::SearchNotReset)
        } else {
            act(FeatureAction::ShowSearch, QaFeaturePhase::WaitSearchReopened)
        },
        QaFeaturePhase::WaitSearchReopened => if o.settled && o.search_panel_open {
            act(FeatureAction::TypeSearchQuery, QaFeaturePhase::WaitSearchRepopulated)
        } else {
            FeatureStep::Wait
        },
        QaFeaturePhase::WaitSearchRepopulated => if o.settled && o.search_results >= 2 {
            act(FeatureAction::NavigateSearchForward, QaFeaturePhase::WaitFinalNavigation)
        } else {
            FeatureStep::Wait
        },
        QaFeaturePhase::WaitFinalNavigation => if o.settled {
            FeatureStep::Act {
                action: FeatureAction::ValidateFinalState,
                next: QaFeaturePhase::Complete,
                finished: true,
            }
        } else {
            FeatureStep::Wait
        },
        QaFeaturePhase::Complete => FeatureStep::Done,
    }
}

fn is_typed_comment(text: &str) -> (typed: bool)
    ensures
        typed == (text@ == typed_comment()),
{
    str_eq(text, "- important copy\n- check")
}

impl QaFeaturePhase {
    /// One tick of the feature scenario in this phase.
    pub fn step(&self, o: &FeatureObservation) -> (step: FeatureStep)
        ensures
            step == feature_step_spec(*self, *o),
    {
        match self {
            QaFeaturePhase::Seed => if !o.settled || o.annotations_loading || !o.first_page_text {
                FeatureStep::Wait
            } else {
                FeatureStep::Act {
                    action: FeatureAction::SeedAnnotationsAndComment,
                    next: QaFeaturePhase::WaitCommentEditor,
                    finished: false,
                }
            },
            QaFeaturePhase::WaitCommentEditor => if !o.editor_open {
                FeatureStep::Fail(FeatureFailure::EditorGoneBeforeFrame)
            } else if !o.editor_painted {
                FeatureStep::Wait
            } else if o.markdown_menu_visual {
                FeatureStep::Act {
                    action: FeatureAction::RepeatAddCommentThenOpenMarkdownMenu,
                    next: QaFeaturePhase::Complete,
                    finished: true,
                }
            } else {
                FeatureStep::Act {
                    action: FeatureAction::RepeatAddCommentThenTypeList,
                    next: QaFeaturePhase::WaitCommentEdited,
                    finished: false,
                }
            },
            QaFeaturePhase::WaitCommentEdited => if !o.editor_open {
                FeatureStep::Fail(FeatureFailure::EditorGoneAfterEditing)
            } else if !o.draft_dirty {
                FeatureStep::Fail(FeatureFailure::EditsNotDirty)
            } else if !is_typed_comment(o.editor_markdown.as_str()) {
                FeatureStep::Wait
            } else {
                FeatureStep::Act {
                    action: FeatureAction::Continue,
                    next: QaFeaturePhase::WaitCommentSaved,
                    finished: false,
                }
            },
            QaFeaturePhase::WaitCommentSaved => if !o.annotations_loaded {
                FeatureStep::Fail(FeatureFailure::AnnotationsGoneAfterSave)
            } else if o.annotation_count != 6 || o.annotation_revision != 6 || o.draft_dirty {
                FeatureStep::Wait
            } else if !o.editor_open {
                FeatureStep::Fail(FeatureFailure::AutosaveClosedEditor)
            } else {
                match &o.saved_comment {
                    None => FeatureStep::Fail(FeatureFailure::NoSavedMarkdown),
                    Some(comment) => if !is_typed_comment(comment.as_str()) {
                        FeatureStep::Fail(FeatureFailure::UnexpectedMarkdown)
                    } else {
                        FeatureStep::Act {
                            action: FeatureAction::Continue,
                            next: QaFeaturePhase::WaitCommentBack,
                            finished: false,
                        }
                    },
                }
            },
            QaFeaturePhase::WaitCommentBack => if !o.editor_open {
                FeatureStep::Fail(FeatureFailure::EditorGoneBeforeBack)
            } else if o.editor_painted {
                FeatureStep::Act {
                    action: FeatureAction::PressEscape,
                    next: QaFeaturePhase::WaitCommentList,
                    finished: false,
                }
            } else {
                FeatureStep::Wait
            },
            QaFeaturePhase::WaitCommentList => {
                if o.editor_open {
                    return FeatureStep::Wait;
                }
                if !o.annotations_loaded {
                    return FeatureStep::Fail(FeatureFailure::AnnotationsGoneAfterCancel);
                }
                let kept = match &o.saved_comment {
                    Some(comment) => is_typed_comment(comment.as_str()),
                    None => false,
                };
                if o.annotation_revision != 6 || !kept {
                    FeatureStep::Fail(FeatureFailure::BackChangedComment)
                } else {
                    FeatureStep::Act {
                        action: FeatureAction::ExerciseCommentInteractions,
                        next: QaFeaturePhase::WaitCommentsOpen,
                        finished: false,
                    }
                }
            },
            QaFeaturePhase::WaitCommentsOpen => if o.settled && o.comments_panel_open {
                FeatureStep::Act {
                    action: FeatureAction::CloseCommentsWhileScrolling,
                    next: QaFeaturePhase::WaitCommentsClosed,
                    finished: false,
                }
            } else {
                FeatureStep::Wait
            },
            QaFeaturePhase::WaitCommentsClosed => if !(o.settled && o.sidebar_closed) {
                FeatureStep::Wait
            } else if !o.reader_focused {
                FeatureStep::Fail(FeatureFailure::CommentInputKeptFocus)
            } else {
                FeatureStep::Act {
                    action: FeatureAction::ShowSearch,
                    next: QaFeaturePhase::WaitSearchOpen,
                    finished: false,
                }
            },
            QaFeaturePhase::WaitSearchOpen => if o.settled && o.search_panel_open {
                FeatureStep::Act {
                    action: FeatureAction::TypeSearchQuery,
                    next: QaFeaturePhase::WaitSearch,
                    finished: false,
                }
            } else {
                FeatureStep::Wait
            },
            QaFeaturePhase::WaitSearch => if !o.settled {
                FeatureStep::Wait
            } else if !str_eq(o.search_field_text.as_str(), "page") {
                FeatureStep::Fail(FeatureFailure::SearchTypingLost)
            } else if o.search_results < 2 {
                FeatureStep::Fail(FeatureFailure::TooFewSearchResults(o.search_results))
            } else {
                FeatureStep::Act {
                    action: FeatureAction::PressEnter,
                    next: QaFeaturePhase::WaitNavigation,
                    finished: false,
                }
            },
            QaFeaturePhase::WaitNavigation => if !o.settled || o.active_search_position != Some(1usize) {
                FeatureStep::Wait
            } else {
                FeatureStep::Act {
                    action: FeatureAction::NavigateSearchBackward,
                    next: QaFeaturePhase::WaitSearchReturn,
                    finished: false,
                }
            },
            QaFeaturePhase::WaitSearchReturn => if o.settled {
                FeatureStep::Act {
                    action: FeatureAction::CenterAndCloseSearch,
                    next: QaFeaturePhase::WaitSearchClosed,
                    finished: false,
                }
            } else {
                FeatureStep::Wait
            },
            QaFeaturePhase::WaitSearchClosed => if !(o.settled && o.sidebar_closed) {
                FeatureStep::Wait
            } else if !o.reader_focused {
                FeatureStep::Fail(FeatureFailure::SearchFieldKeptFocus)
            } else if !o.search_query_empty || o.search_results != 0 || !o.search_field_text.as_str().is_empty() {
                FeatureStep::Fail(FeatureFailure::SearchNotReset)
            } else {
                FeatureStep::Act {
                    action: FeatureAction::ShowSearch,
                    next: QaFeaturePhase::WaitSearchReopened,
                    finished: false,
                }
            },
            QaFeaturePhase::WaitSearchReopened => if o.settled && o.search_panel_open {
                FeatureStep::Act {
                    action: FeatureAction::TypeSearchQuery,
                    next: QaFeaturePhase::WaitSearchRepopulated,
                    finished: false,
                }
            } else {
                FeatureStep::Wait
            },
            QaFeaturePhase::WaitSearchRepopulated => if o.settled && o.search_results >= 2 {
                FeatureStep::Act {
                    action: FeatureAction::NavigateSearchForward,
                    next: QaFeaturePhase::WaitFinalNavigation,
                    finished: false,
                }
            } else {
                FeatureStep::Wait
            },
            QaFeaturePhase::WaitFinalNavigation => if o.settled {
                FeatureStep::Act {
                    action: FeatureAction::ValidateFinalState,
                    next: QaFeaturePhase::Complete,
                    finished: true,
                }
            } else {
                FeatureStep::Wait
            },
            QaFeaturePhase::Complete => FeatureStep::Done,
        }
    }
}

/// Every step but the last moves forward or stays: the scenario never
/// returns to an earlier phase, and it finishes only in `Complete`.
pub proof fn law_feature_scenario_only_moves_forward(phase: QaFeaturePhase, o: FeatureObservation)
    ensures
        feature_step_spec(phase, o) matches FeatureStep::Act { next, finished, .. } ==> phase_rank(next)
            > phase_rank(phase) && (finished <==> next == QaFeaturePhase::Complete),
        feature_step_spec(phase, o) is Done <==> phase == QaFeaturePhase::Complete,
{
}

/// The order of the phases.
pub open spec fn phase_rank(phase: QaFeaturePhase) -> int {
    match phase {
        QaFeaturePhase::Seed => 0,
        QaFeaturePhase::WaitCommentEditor => 1,
        QaFeaturePhase::WaitCommentEdited => 2,
        QaFeaturePhase::WaitCommentSaved => 3,
        QaFeaturePhase::WaitCommentBack => 4,
        QaFeaturePhase::WaitCommentList => 5,
        QaFeaturePhase::WaitCommentsOpen => 6,
        QaFeaturePhase::WaitCommentsClosed => 7,
        QaFeaturePhase::WaitSearchOpen => 8,
        QaFeaturePhase::WaitSearch => 9,
        QaFeaturePhase::WaitNavigation => 10,
        QaFeaturePhase::WaitSearchReturn => 11,
        QaFeaturePhase::WaitSearchClosed => 12,
        QaFeaturePhase::WaitSearchReopened => 13,
        QaFeaturePhase::WaitSearchRepopulated => 14,
        QaFeaturePhase::WaitFinalNavigation => 15,
        QaFeaturePhase::Complete => 16,
    }
}

} // verus!
