//! The phases of the QA Fluid scenario: a highlight with a comment typed
//! natively and autosaved, the comment pane sliding both ways, hit-testing the
//! highlight, and the overlay search panel. Each tick the host reports what it
//! observes; the scenario decides whether to wait, what the host does next and
//! in which phase it continues, or why the run fails. The host performs the
//! actions, with the pointer and layout lookups they need.

use vstd::prelude::*;

use crate::text_format::{decimal_spec, str_eq, with_two_numbers};

verus! {

/// Where the Fluid scenario stands.
#[derive(Clone, Copy, Debug, PartialEq, Eq, Structural)]
pub enum QaFluidPhase {
    Seed,
    WaitEditor,
    WaitAutosave,
    WaitList,
    WaitReopenedEditor,
    WaitFinalList,
    WaitSearchOpen,
    WaitSearchResults,
    Complete,
}

/// The first annotation that carries a comment, as the host observed it.
pub struct FluidComment {
    pub markdown: String,
    /// Its highlight is yellow.
    pub yellow: bool,
    /// It is the annotation the comment editor edits.
    pub being_edited: bool,
    /// The floating context shows exactly its range, as a note to edit.
    pub context_is_its_note: bool,
}

/// The first annotation of the set, as the host observed it.
pub struct FluidFirstAnnotation {
    pub markdown: Option<String>,
    pub yellow: bool,
    /// It is the active annotation.
    pub active: bool,
}

/// What the host observed of the reader for one tick.
pub struct FluidObservation {
    pub settled: bool,
    pub annotations_loading: bool,
    pub first_page_text: bool,
    /// An annotation set is loaded, with its size.
    pub annotations_loaded: bool,
    pub annotation_count: usize,
    /// The fixture sentence was found in the extracted text.
    pub fixture_text_found: bool,
    /// The run only captures the selection, the floating context or the editor.
    pub selection_visual: bool,
    pub context_visual: bool,
    pub editor_visual: bool,
    pub editor_open: bool,
    pub editor_painted: bool,
    /// The open comment editor's Markdown (empty without an editor).
    pub editor_markdown: String,
    pub draft_dirty: bool,
    /// The comment pane is fully open, or fully closed.
    pub comment_pane_open: bool,
    pub comment_pane_closed: bool,
    /// The sidebar is fully open.
    pub sidebar_open: bool,
    /// The Search sidebar is fully open.
    pub search_panel_open: bool,
    pub commented: Option<FluidComment>,
    pub first_annotation: Option<FluidFirstAnnotation>,
    /// The floating context carries a comment and its anchor is in view.
    pub context_has_comment: bool,
    pub context_anchor_visible: bool,
    pub search_results: usize,
    pub search_complete: bool,
    pub layout_present: bool,
    /// The panel occlusion was added to the horizontal scroll reach and exceeds
    /// the sidebar width.
    pub occlusion_reach_ok: bool,
}

/// What the host does for the scenario.
#[derive(Clone, Copy, Debug, PartialEq, Eq, Structural)]
pub enum FluidAction {
    /// Select the fixture sentence.
    SelectFixtureText,
    /// Select the fixture sentence, highlight it yellow (failing unless the
    /// highlight becomes active and is found under its first character) and
    /// comment on the floating context.
    HighlightAndComment,
    /// Type `fluid note` in the editor.
    TypeNote,
    /// Return to the comment list.
    ReturnToList,
    /// Click the commented highlight (failing unless it becomes the active
    /// annotation with no selection).
    ClickHighlight,
    /// Click the commented highlight as above, then open it from the comment list.
    ClickHighlightThenOpenFromList,
    /// Nothing beyond the phase change.
    Continue,
    /// Show the Search sidebar.
    ShowSearch,
    /// Focus the search field and type `page`.
    TypeSearchQuery,
}

/// Why the Fluid scenario fails.
#[derive(Clone, Copy, Debug, PartialEq, Eq, Structural)]
pub enum FluidFailure {
    NeedsEmptySidecar,
    FixtureTextMissing,
    EditorGoneBeforePaint,
    NoPersistedComment,
    /// The saved annotation is not the typed note on a yellow highlight; the
    /// host quotes its comment and highlight.
    UnexpectedAnnotation,
    AutosaveClosedOrDirty,
    ContextStillAddNote,
    CommentVanished,
    ReopenFailed,
    MarkdownLost,
    AnnotationsGone,
    AnnotationGone,
    /// The final state is off: annotation count, result count, completeness.
    UnexpectedFinalState(usize, usize, bool),
    LayoutGone,
    OcclusionNotAdded,
}

/// One tick of the scenario.
#[derive(Clone, Copy, Debug, PartialEq, Eq, Structural)]
pub enum FluidStep {
    Wait,
    /// Perform `action` and continue in `next`; `finished` when the scenario is done.
    Act { action: FluidAction, next: QaFluidPhase, finished: bool },
    Fail(FluidFailure),
    Done,
}

/// The message of each failure (for `UnexpectedAnnotation`, the part before
/// the quoted values).
pub open spec fn fluid_failure_message(failure: FluidFailure) -> Seq<char> {
    match failure {
        FluidFailure::NeedsEmptySidecar => "fluid scenario requires a PDF with no existing sidecar"@,
        FluidFailure::FixtureTextMissing => "fixture Fluid text was not extracted"@,
        FluidFailure::EditorGoneBeforePaint => "Fluid comment editor disappeared before painting"@,
        FluidFailure::NoPersistedComment => "Fluid autosave produced no persisted comment"@,
        FluidFailure::UnexpectedAnnotation => "Fluid autosave produced unexpected annotation: "@,
        FluidFailure::AutosaveClosedOrDirty => "Fluid autosave closed the editor or left the saved draft dirty"@,
        FluidFailure::ContextStillAddNote => "Fluid context did not switch from Add note to Edit note"@,
        FluidFailure::CommentVanished => "Fluid comment vanished after Back"@,
        FluidFailure::ReopenFailed => "comment-list navigation did not open the Fluid editor"@,
        FluidFailure::MarkdownLost => "reopened Fluid editor did not preserve Markdown"@,
        FluidFailure::AnnotationsGone => "Fluid annotations disappeared"@,
        FluidFailure::AnnotationGone => "Fluid scenario annotation disappeared"@,
        FluidFailure::UnexpectedFinalState(annotations, results, complete) => "unexpected final Fluid state: annotations="@
            + decimal_spec(annotations as nat) + ", results="@ + decimal_spec(results as nat)
            + ", complete="@ + (if complete {
            "true"@
        } else {
            "false"@
        }),
        FluidFailure::LayoutGone => "Fluid layout disappeared"@,
        FluidFailure::OcclusionNotAdded => "Fluid panel occlusion was not added to horizontal reach"@,
    }
}

impl FluidFailure {
    /// The failure's message.
    pub fn message(&self) -> (message: String)
        ensures
            message@ == fluid_failure_message(*self),
    {
        match self {
            FluidFailure::NeedsEmptySidecar => "fluid scenario requires a PDF with no existing sidecar".to_owned(),
            FluidFailure::FixtureTextMissing => "fixture Fluid text was not extracted".to_owned(),
            FluidFailure::EditorGoneBeforePaint => "Fluid comment editor disappeared before painting".to_owned(),
            FluidFailure::NoPersistedComment => "Fluid autosave produced no persisted comment".to_owned(),
            FluidFailure::UnexpectedAnnotation => "Fluid autosave produced unexpected annotation: ".to_owned(),
            FluidFailure::AutosaveClosedOrDirty => "Fluid autosave closed the editor or left the saved draft dirty".to_owned(),
            FluidFailure::ContextStillAddNote => "Fluid context did not switch from Add note to Edit note".to_owned(),
            FluidFailure::CommentVanished => "Fluid comment vanished after Back".to_owned(),
            FluidFailure::ReopenFailed => "comment-list navigation did not open the Fluid editor".to_owned(),
            FluidFailure::MarkdownLost => "reopened Fluid editor did not preserve Markdown".to_owned(),
            FluidFailure::AnnotationsGone => "Fluid annotations disappeared".to_owned(),
            FluidFailure::AnnotationGone => "Fluid scenario annotation disappeared".to_owned(),
            FluidFailure::UnexpectedFinalState(annotations, results, complete) => {
                let mut text = with_two_numbers(
                    "unexpected final Fluid state: annotations=",
                    *annotations,
                    ", results=",
                    *results,
                    ", complete=",
                );
                if *complete {
                    text.append("true");
                } else {
                    text.append("false");
                }
                text
            },
            FluidFailure::LayoutGone => "Fluid layout disappeared".to_owned(),
            FluidFailure::OcclusionNotAdded => "Fluid panel occlusion was not added to horizontal reach".to_owned(),
        }
    }
}

/// The note the scenario types.
pub open spec fn fluid_note() -> Seq<char> {
    "fluid note"@
}

/// Continue in `next` with `action`.
pub open spec fn fluid_act(action: FluidAction, next: QaFluidPhase) -> FluidStep {
    FluidStep::Act { action, next, finished: false }
}

/// Finish the scenario with `action`.
pub open spec fn fluid_finish(action: FluidAction) -> FluidStep {
    FluidStep::Act { action, next: QaFluidPhase::Complete, finished: true }
}

/// The final state the scenario expects: one yellow highlight carrying the
/// note, active, with its context in view, and a complete search with at
/// least two results.
pub open spec fn fluid_final_state_ok(o: FluidObservation) -> bool {
    &&& o.annotation_count == 1
    &&& o.first_annotation matches Some(first) && first.yellow && first.active && (
    first.markdown matches Some(m) && m@ == fluid_note())
    &&& o.context_has_comment
    &&& o.context_anchor_visible
    &&& o.search_results >= 2
    &&& o.search_complete
}

/// What one tick in `phase` does, given what the host observed.
pub open spec fn fluid_step_spec(phase: QaFluidPhase, o: FluidObservation) -> FluidStep {
    match phase {
        QaFluidPhase::Seed => if !o.settled || o.annotations_loading || !o.first_page_text {
            FluidStep::Wait
        } else if !o.annotations_loaded || o.annotation_count != 0 {
            FluidStep::Fail(FluidFailure::NeedsEmptySidecar)
        } else if !o.fixture_text_found {
            FluidStep::Fail(FluidFailure::FixtureTextMissing)
        } else if o.selection_visual {
            fluid_finish(FluidAction::SelectFixtureText)
        } else {
            fluid_act(FluidAction::HighlightAndComment, QaFluidPhase::WaitEditor)
        },
        QaFluidPhase::WaitEditor => if !o.editor_open {
            FluidStep::Fail(FluidFailure::EditorGoneBeforePaint)
        } else if o.editor_painted && o.comment_pane_open && o.sidebar_open {
            fluid_act(FluidAction::TypeNote, QaFluidPhase::WaitAutosave)
        } else {
            FluidStep::Wait
        },
        QaFluidPhase::WaitAutosave => if !o.settled {
            FluidStep::Wait
        } else {
            match o.commented {
                None => FluidStep::Fail(FluidFailure::NoPersistedComment),
                Some(c) => if c.markdown@ != fluid_note() || !c.yellow {
                    FluidStep::Fail(FluidFailure::UnexpectedAnnotation)
                } else if !o.editor_open || o.draft_dirty || !c.being_edited {
                    FluidStep::Fail(FluidFailure::AutosaveClosedOrDirty)
                } else if !c.context_is_its_note {
                    FluidStep::Fail(FluidFailure::ContextStillAddNote)
                } else {
                    fluid_act(FluidAction::ReturnToList, QaFluidPhase::WaitList)
                },
            }
        },
        QaFluidPhase::WaitList => if !o.settled || o.editor_open || !o.comment_pane_closed {
            FluidStep::Wait
        } else if o.commented is None {
            FluidStep::Fail(FluidFailure::CommentVanished)
        } else if o.context_visual {
            fluid_finish(FluidAction::ClickHighlight)
        } else {
            fluid_act(FluidAction::ClickHighlightThenOpenFromList, QaFluidPhase::WaitReopenedEditor)
        },
        QaFluidPhase::WaitReopenedEditor => if !o.editor_open {
            FluidStep::Fail(FluidFailure::ReopenFailed)
        } else if !(o.comment_pane_open && o.editor_painted) {
            FluidStep::Wait
        } else if o.editor_markdown@ != fluid_note() {
            FluidStep::Fail(FluidFailure::MarkdownLost)
        } else if o.editor_visual {
            fluid_finish(FluidAction::Continue)
        } else {
            fluid_act(FluidAction::ReturnToList, QaFluidPhase::WaitFinalList)
        },
        QaFluidPhase::WaitFinalList => if o.settled && !o.editor_open && o.comment_pane_closed {
            fluid_act(FluidAction::ShowSearch, QaFluidPhase::WaitSearchOpen)
        } else {
            FluidStep::Wait
        },
        QaFluidPhase::WaitSearchOpen => if o.settled && o.search_panel_open {
            fluid_act(FluidAction::TypeSearchQuery, QaFluidPhase::WaitSearchResults)
        } else {
            FluidStep::Wait
        },
        QaFluidPhase::WaitSearchResults => if !o.settled {
            FluidStep::Wait
        } else if !o.annotations_loaded {
            FluidStep::Fail(FluidFailure::AnnotationsGone)
        } else if o.first_annotation is None {
            FluidStep::Fail(FluidFailure::AnnotationGone)
        } else if !fluid_final_state_ok(o) {
            FluidStep::Fail(
                FluidFailure::UnexpectedFinalState(o.annotation_count, o.search_results, o.search_complete),
            )
        } else if !o.layout_present {
            FluidStep::Fail(FluidFailure::LayoutGone)
        } else if !o.occlusion_reach_ok {
            FluidStep::Fail(FluidFailure::OcclusionNotAdded)
        } else {
            fluid_finish(FluidAction::Continue)
        },
        QaFluidPhase::Complete => FluidStep::Done,
    }
}

fn is_fluid_note(text: &str) -> (note: bool)
    ensures
        note == (text@ == fluid_note()),
{
    str_eq(text, "fluid note")
}

fn final_state_ok(o: &FluidObservation) -> (ok: bool)
    ensures
        ok == fluid_final_state_ok(*o),
{
    if o.annotation_count != 1 || !o.context_has_comment || !o.context_anchor_visible
        || o.search_results < 2 || !o.search_complete {
        return false;
    }
    match &o.first_annotation {
        None => false,
        Some(first) => first.yellow && first.active && match &first.markdown {
            Some(m) => is_fluid_note(m.as_str()),
            None => false,
        },
    }
}

impl QaFluidPhase {
    /// One tick of the Fluid scenario in this phase.
    pub fn step(&self, o: &FluidObservation) -> (step: FluidStep)
        ensures
            step == fluid_step_spec(*self, *o),
    {
        match self {
            QaFluidPhase::Seed => if !o.settled || o.annotations_loading || !o.first_page_text {
                FluidStep::Wait
            } else if !o.annotations_loaded || o.annotation_count != 0 {
                FluidStep::Fail(FluidFailure::NeedsEmptySidecar)
            } else if !o.fixture_text_found {
                FluidStep::Fail(FluidFailure::FixtureTextMissing)
            } else if o.selection_visual {
                FluidStep::Act {
                    action: FluidAction::SelectFixtureText,
                    next: QaFluidPhase::Complete,
                    finished: true,
                }
            } else {
                FluidStep::Act {
                    action: FluidAction::HighlightAndComment,
                    next: QaFluidPhase::WaitEditor,
                    finished: false,
                }
            },
            QaFluidPhase::WaitEditor => if !o.editor_open {
                FluidStep::Fail(FluidFailure::EditorGoneBeforePaint)
            } else if o.editor_painted && o.comment_pane_open && o.sidebar_open {
                FluidStep::Act { action: FluidAction::TypeNote, next: QaFluidPhase::WaitAutosave, finished: false }
            } else {
                FluidStep::Wait
            },
            QaFluidPhase::WaitAutosave => {
                if !o.settled {
                    return FluidStep::Wait;
                }
                match &o.commented {
                    None => FluidStep::Fail(FluidFailure::NoPersistedComment),
                    Some(c) => if !is_fluid_note(c.markdown.as_str()) || !c.yellow {
                        FluidStep::Fail(FluidFailure::UnexpectedAnnotation)
                    } else if !o.editor_open || o.draft_dirty || !c.being_edited {
                        FluidStep::Fail(FluidFailure::AutosaveClosedOrDirty)
                    } else if !c.context_is_its_note {
                        FluidStep::Fail(FluidFailure::ContextStillAddNote)
                    } else {
                        FluidStep::Act {
                            action: FluidAction::ReturnToList,
                            next: QaFluidPhase::WaitList,
                            finished: false,
                        }
                    },
                }
            },
            QaFluidPhase::WaitList => if !o.settled || o.editor_open || !o.comment_pane_closed {
                FluidStep::Wait
            } else if o.commented.is_none() {
                FluidStep::Fail(FluidFailure::CommentVanished)
            } else if o.context_visual {
                FluidStep::Act {
                    action: FluidAction::ClickHighlight,
                    next: QaFluidPhase::Complete,
                    finished: true,
                }
            } else {
                FluidStep::Act {
                    action: FluidAction::ClickHighlightThenOpenFromList,
                    next: QaFluidPhase::WaitReopenedEditor,
                    finished: false,
                }
            },
            QaFluidPhase::WaitReopenedEditor => if !o.editor_open {
                FluidStep::Fail(FluidFailure::ReopenFailed)
            } else if !(o.comment_pane_open && o.editor_painted) {
                FluidStep::Wait
            } else if !is_fluid_note(o.editor_markdown.as_str()) {
                FluidStep::Fail(FluidFailure::MarkdownLost)
            } else if o.editor_visual {
                FluidStep::Act { action: FluidAction::Continue, next: QaFluidPhase::Complete, finished: true }
            } else {
                FluidStep::Act {
                    action: FluidAction::ReturnToList,
                    next: QaFluidPhase::WaitFinalList,
                    finished: false,
                }
            },
            QaFluidPhase::WaitFinalList => if o.settled && !o.editor_open && o.comment_pane_closed {
                FluidStep::Act { action: FluidAction::ShowSearch, next: QaFluidPhase::WaitSearchOpen, finished: false }
            } else {
                FluidStep::Wait
            },
            QaFluidPhase::WaitSearchOpen => if o.settled && o.search_panel_open {
                FluidStep::Act {
                    action: FluidAction::TypeSearchQuery,
                    next: QaFluidPhase::WaitSearchResults,
                    finished: false,
                }
            } else {
                FluidStep::Wait
            },
            QaFluidPhase::WaitSearchResults => if !o.settled {
                FluidStep::Wait
            } else if !o.annotations_loaded {
                FluidStep::Fail(FluidFailure::AnnotationsGone)
            } else if o.first_annotation.is_none() {
                FluidStep::Fail(FluidFailure::AnnotationGone)
            } else if !final_state_ok(o) {
                FluidStep::Fail(
                    FluidFailure::UnexpectedFinalState(o.annotation_count, o.search_results, o.search_complete),
                )
            } else if !o.layout_present {
                FluidStep::Fail(FluidFailure::LayoutGone)
            } else if !o.occlusion_reach_ok {
                FluidStep::Fail(FluidFailure::OcclusionNotAdded)
            } else {
                FluidStep::Act { action: FluidAction::Continue, next: QaFluidPhase::Complete, finished: true }
            },
            QaFluidPhase::Complete => FluidStep::Done,
        }
    }
}

/// The order of the phases.
pub open spec fn fluid_phase_rank(phase: QaFluidPhase) -> int {
    match phase {
        QaFluidPhase::Seed => 0,
        QaFluidPhase::WaitEditor => 1,
        QaFluidPhase::WaitAutosave => 2,
        QaFluidPhase::WaitList => 3,
        QaFluidPhase::WaitReopenedEditor => 4,
        QaFluidPhase::WaitFinalList => 5,
        QaFluidPhase::WaitSearchOpen => 6,
        QaFluidPhase::WaitSearchResults => 7,
        QaFluidPhase::Complete => 8,
    }
}

/// The Fluid scenario never returns to an earlier phase, and it finishes only
/// in `Complete`.
pub proof fn law_fluid_scenario_only_moves_forward(phase: QaFluidPhase, o: FluidObservation)
    ensures
        fluid_step_spec(phase, o) matches FluidStep::Act { next, finished, .. } ==> fluid_phase_rank(next)
            > fluid_phase_rank(phase) && (finished <==> next == QaFluidPhase::Complete),
        fluid_step_spec(phase, o) is Done <==> phase == QaFluidPhase::Complete,
{
}

} // verus!
