//! Comment panel copy, comment previews and draft handling.

use vstd::prelude::*;

use crate::reader::render::AnnotationId;
use crate::reader::{PdfReader, TextSelection};
use crate::text_format::{push_char, starts_with};
use crate::utf8_text::{chars_vec, is_whitespace, is_whitespace_char};

verus! {

/// Heading and save status shared by both comment panel layouts.
#[derive(Clone, Copy, Debug, PartialEq, Eq)]
pub struct CommentEditorPresentation {
    pub title: &'static str,
    pub save_status: &'static str,
}

impl CommentEditorPresentation {
    pub fn new(editor_open: bool, editing: bool, saving: bool) -> (presentation: Self)
        ensures
            presentation.title@ == (if editor_open {
                if editing {
                    "Edit Comment"@
                } else {
                    "New Comment"@
                }
            } else {
                "Comments"@
            }),
            presentation.save_status@ == (if saving {
                "Saving…"@
            } else if editor_open && editing {
                "Saved"@
            } else {
                "Auto-save"@
            }),
    {
        let title = if editor_open {
            if editing {
                "Edit Comment"
            } else {
                "New Comment"
            }
        } else {
            "Comments"
        };
        let save_status = if saving {
            "Saving…"
        } else if editor_open && editing {
            "Saved"
        } else {
            "Auto-save"
        };
        CommentEditorPresentation { title, save_status }
    }
}

/// What the comment list says while it has no comments to show.
#[derive(Clone, Copy, Debug, PartialEq, Eq)]
pub struct CommentEmptyPresentation {
    pub title: &'static str,
    pub detail: &'static str,
}

impl CommentEmptyPresentation {
    pub fn new(loading: bool, persistence_blocked: bool) -> (presentation: Self)
        ensures
            presentation.title@ == (if loading {
                "Loading comments…"@
            } else if persistence_blocked {
                "No comments loaded"@
            } else {
                "No comments yet"@
            }),
            presentation.detail@ == (if persistence_blocked {
                "Reading is unaffected. Comments stay disabled until the saved comments file is replaced."@
            } else {
                "Select text, then use either floating Note control."@
            }),
    {
        let title = if loading {
            "Loading comments…"
        } else if persistence_blocked {
            "No comments loaded"
        } else {
            "No comments yet"
        };
        let detail = if persistence_blocked {
            "Reading is unaffected. Comments stay disabled until the saved comments file is replaced."
        } else {
            "Select text, then use either floating Note control."
        };
        CommentEmptyPresentation { title, detail }
    }
}

/// The message reports a comments file written for another revision of the PDF.
pub open spec fn is_stale_sidecar_message(message: Seq<char>) -> bool {
    let prefix = "annotation sidecar belongs to a different PDF revision"@;
    prefix.len() <= message.len() && message.take(prefix.len() as int) == prefix
}

/// Whether an annotation error is the refusal of a comments file that belongs
/// to another revision of the PDF.
pub fn stale_sidecar_error(message: &str) -> (stale: bool)
    ensures
        stale == is_stale_sidecar_message(message@),
{
    starts_with(message, "annotation sidecar belongs to a different PDF revision")
}

/// The annotation error as the comment panel shows it: a stale comments file is
/// explained in one sentence, any other message is shown as it is.
pub fn annotation_error_presentation(message: &str) -> (presented: String)
    ensures
        presented@ == (if is_stale_sidecar_message(message@) {
            "Saved comments are for another version of this PDF, so they were not loaded."@
        } else {
            message@
        }),
{
    if stale_sidecar_error(message) {
        "Saved comments are for another version of this PDF, so they were not loaded.".to_owned()
    } else {
        message.to_owned()
    }
}

/// Closing or replacing the editor must be confirmed only while it is open and
/// holds unsaved changes.
pub fn comment_draft_needs_confirmation(editor_open: bool, draft_dirty: bool) -> (confirm: bool)
    ensures
        confirm == (editor_open && draft_dirty),
{
    editor_open && draft_dirty
}

/// One step of whitespace collapsing: the text so far, and whether a run of
/// white space after a word is waiting to become a single space.
pub open spec fn collapse_step(state: (Seq<char>, bool), c: char) -> (Seq<char>, bool) {
    if is_whitespace_char(c) {
        (state.0, state.0.len() > 0)
    } else if state.1 {
        (state.0.push(' ').push(c), false)
    } else {
        (state.0.push(c), false)
    }
}

/// The collapsing state after reading all of `s`.
pub open spec fn collapse_state(s: Seq<char>) -> (Seq<char>, bool)
    decreases s.len(),
{
    if s.len() == 0 {
        (Seq::empty(), false)
    } else {
        collapse_step(collapse_state(s.drop_last()), s.last())
    }
}

/// The words of `s` (its maximal runs of non-white-space characters) joined by
/// single spaces.
pub open spec fn collapse_whitespace(s: Seq<char>) -> Seq<char> {
    collapse_state(s).0
}

/// A comment preview: the collapsed text, cut after `max_chars` characters with
/// an ellipsis when it is longer.
pub open spec fn compact_preview_spec(s: Seq<char>, max_chars: nat) -> Seq<char> {
    let collapsed = collapse_whitespace(s);
    if collapsed.len() > max_chars {
        collapsed.take(max_chars as int).push('…')
    } else {
        collapsed
    }
}

/// Every white-space character of a collapsed text is a single space with a
/// non-white-space character on each side.
pub open spec fn is_compact_text(t: Seq<char>) -> bool {
    forall|i: int|
        0 <= i < t.len() && #[trigger] is_whitespace_char(t[i]) ==> {
            &&& t[i] == ' '
            &&& 0 < i < t.len() - 1
            &&& !is_whitespace_char(t[i - 1])
            &&& !is_whitespace_char(t[i + 1])
        }
}

proof fn lemma_collapse_state_shape(s: Seq<char>)
    ensures
        is_compact_text(collapse_state(s).0),
        collapse_state(s).1 ==> collapse_state(s).0.len() > 0,
        collapse_state(s).0.len() > 0 ==> !is_whitespace_char(collapse_state(s).0.last()),
    decreases s.len(),
{
    if s.len() > 0 {
        lemma_collapse_state_shape(s.drop_last());
        let prev = collapse_state(s.drop_last());
        let c = s.last();
        let next = collapse_state(s);
        assert(next == collapse_step(prev, c));
        if !is_whitespace_char(c) {
            assert(is_whitespace_char(' '));
            assert forall|i: int|
                0 <= i < next.0.len() && #[trigger] is_whitespace_char(next.0[i]) implies {
                &&& next.0[i] == ' '
                &&& 0 < i < next.0.len() - 1
                &&& !is_whitespace_char(next.0[i - 1])
                &&& !is_whitespace_char(next.0[i + 1])
            } by {
                if i < prev.0.len() {
                    assert(next.0[i] == prev.0[i]);
                    if i + 1 < prev.0.len() {
                        assert(next.0[i + 1] == prev.0[i + 1]);
                    }
                }
            }
        }
    }
}

/// A collapsed text has no leading, trailing or repeated white space, and every
/// white-space character in it is a plain space.
pub proof fn law_collapsed_text_is_compact(s: Seq<char>)
    ensures
        is_compact_text(collapse_whitespace(s)),
{
    lemma_collapse_state_shape(s);
}

/// The characters of `s` that are not white space, in order.
pub open spec fn visible_chars(s: Seq<char>) -> Seq<char> {
    s.filter(|c: char| !is_whitespace_char(c))
}

proof fn lemma_visible_chars_push(s: Seq<char>, c: char)
    ensures
        visible_chars(s.push(c)) == (if is_whitespace_char(c) {
            visible_chars(s)
        } else {
            visible_chars(s).push(c)
        }),
{
    reveal(Seq::filter);
    assert(s.push(c).drop_last() =~= s);
}

/// Collapsing white space loses no other character: the text keeps every
/// non-white-space character, in order.
pub proof fn law_collapsing_keeps_every_visible_character(s: Seq<char>)
    ensures
        visible_chars(collapse_whitespace(s)) == visible_chars(s),
    decreases s.len(),
{
    if s.len() > 0 {
        law_collapsing_keeps_every_visible_character(s.drop_last());
        let prev = collapse_state(s.drop_last());
        let c = s.last();
        assert(s =~= s.drop_last().push(c));
        lemma_visible_chars_push(s.drop_last(), c);
        assert(is_whitespace_char(' '));
        if !is_whitespace_char(c) {
            if prev.1 {
                lemma_visible_chars_push(prev.0, ' ');
                lemma_visible_chars_push(prev.0.push(' '), c);
            } else {
                lemma_visible_chars_push(prev.0, c);
            }
        }
    }
}

/// The words of `text` joined by single spaces, as characters.
pub fn collapse_whitespace_chars(text: &str) -> (collapsed: Vec<char>)
    ensures
        collapsed@ == collapse_whitespace(text@),
{
    let chars = chars_vec(text);
    let mut collapsed: Vec<char> = Vec::new();
    let mut pending = false;
    for index in 0..chars.len()
        invariant
            chars@ == text@,
            (collapsed@, pending) == collapse_state(chars@.take(index as int)),
    {
        proof {
            assert(chars@.take(index + 1).drop_last() =~= chars@.take(index as int));
        }
        let c = chars[index];
        if is_whitespace(c) {
            pending = collapsed.len() > 0;
        } else {
            if pending {
                collapsed.push(' ');
            }
            collapsed.push(c);
            pending = false;
        }
    }
    proof {
        assert(chars@.take(chars@.len() as int) =~= chars@);
    }
    collapsed
}

/// Collapses runs of Unicode white space in `text` to single spaces, trims both
/// ends, and cuts the result after `max_chars` characters with `…` when it is
/// longer.
pub fn compact_preview(text: &str, max_chars: usize) -> (preview: String)
    ensures
        preview@ == compact_preview_spec(text@, max_chars as nat),
{
    let collapsed = collapse_whitespace_chars(text);
    let keep = if collapsed.len() > max_chars {
        max_chars
    } else {
        collapsed.len()
    };
    let mut preview = String::new();
    for index in 0..keep
        invariant
            keep <= collapsed@.len(),
            preview@ == collapsed@.take(index as int),
    {
        proof {
            assert(collapsed@.take(index + 1) =~= collapsed@.take(index as int).push(
                collapsed@[index as int],
            ));
        }
        push_char(&mut preview, collapsed[index]);
    }
    if collapsed.len() > max_chars {
        push_char(&mut preview, '…');
    } else {
        proof {
            assert(collapsed@.take(keep as int) =~= collapsed@);
        }
    }
    preview
}

/// The reader after an edit in the comment editor: the draft is dirty and a new
/// autosave revision is armed.
pub open spec fn edited_for_autosave(r: PdfReader) -> PdfReader {
    PdfReader {
        comment_draft_dirty: true,
        comment_autosave_revision: r.comment_autosave_revision.wrapping_add(1),
        comment_autosave_pending: true,
        ..r
    }
}

/// The reader after its armed autosave was abandoned.
pub open spec fn autosave_cancelled(r: PdfReader) -> PdfReader {
    PdfReader {
        comment_autosave_revision: r.comment_autosave_revision.wrapping_add(1),
        comment_autosave_pending: false,
        ..r
    }
}

impl PdfReader {
    /// Whether closing the comment editor now would discard unsaved text.
    pub fn comment_draft_needs_confirmation(&self) -> (confirm: bool)
        ensures
            confirm == (self.comment_editor_open && self.comment_draft_dirty),
    {
        comment_draft_needs_confirmation(self.comment_editor_open, self.comment_draft_dirty)
    }

    /// Starts the autosave debounce after an edit: the draft is marked dirty and a
    /// new autosave revision is issued. The host arms a timer that carries the
    /// returned revision.
    pub fn comment_editor_changed(&mut self) -> (revision: u64)
        ensures
            *final(self) == edited_for_autosave(*old(self)),
            revision == final(self).comment_autosave_revision,
    {
        self.comment_draft_dirty = true;
        self.comment_autosave_revision = self.comment_autosave_revision.wrapping_add(1);
        self.comment_autosave_pending = true;
        self.comment_autosave_revision
    }

    /// Abandons any armed autosave: its revision is superseded.
    pub fn cancel_comment_autosave(&mut self)
        ensures
            *final(self) == autosave_cancelled(*old(self)),
    {
        self.comment_autosave_revision = self.comment_autosave_revision.wrapping_add(1);
        self.comment_autosave_pending = false;
    }

    /// An autosave timer armed for `revision` has fired. It saves only when no
    /// later edit or cancellation superseded it.
    pub fn comment_autosave_due(&mut self, revision: u64) -> (save: bool)
        ensures
            save == (revision == old(self).comment_autosave_revision),
            *final(self) == (if save {
                PdfReader { comment_autosave_pending: false, ..*old(self) }
            } else {
                *old(self)
            }),
    {
        if self.comment_autosave_revision == revision {
            self.comment_autosave_pending = false;
            true
        } else {
            false
        }
    }

    /// Unmounts the comment editor once its closing transition is over.
    pub fn finish_comment_editor_close(&mut self)
        ensures
            *final(self) == (PdfReader {
                comment_editor_open: false,
                comment_draft_dirty: false,
                ..*old(self)
            }),
    {
        self.comment_editor_open = false;
        self.comment_draft_dirty = false;
    }

    /// Discards the open draft without saving it.
    pub fn discard_comment_editor(&mut self)
        ensures
            *final(self) == (PdfReader {
                comment_editor_open: false,
                comment_draft_dirty: false,
                ..autosave_cancelled(*old(self))
            }),
    {
        self.cancel_comment_autosave();
        self.finish_comment_editor_close();
    }
}

/// The text is empty or white space only.
pub open spec fn is_blank(text: Seq<char>) -> bool {
    forall|i: int| 0 <= i < text.len() ==> is_whitespace_char(#[trigger] text[i])
}

/// Whether `text` is empty or white space only.
pub fn is_blank_text(text: &str) -> (blank: bool)
    ensures
        blank == is_blank(text@),
{
    let chars = chars_vec(text);
    for index in 0..chars.len()
        invariant
            chars@ == text@,
            forall|i: int| 0 <= i < index ==> is_whitespace_char(#[trigger] chars@[i]),
    {
        if !is_whitespace(chars[index]) {
            return false;
        }
    }
    true
}

/// What flushing the comment autosave asks of the host.
#[derive(Clone, Copy, Debug, PartialEq, Eq, Structural)]
pub enum CommentFlush {
    /// Nothing to save: the draft is unchanged or no editor is open. Flushing succeeded.
    Nothing,
    /// The draft is blank and is not saved. Flushing failed.
    Blank,
    /// Save the editor's markdown as the comment; flushing succeeds if that write does.
    Write,
}

impl PdfReader {
    /// Flushes the autosave now: any armed autosave is abandoned, and the draft
    /// is written unless it is unchanged, absent or blank. `markdown` is the
    /// open editor's text, `None` without an editor.
    pub fn flush_comment_autosave(&mut self, markdown: Option<&str>) -> (flush: CommentFlush)
        ensures
            *final(self) == autosave_cancelled(*old(self)),
            flush == (if !old(self).comment_draft_dirty || markdown is None {
                CommentFlush::Nothing
            } else if is_blank(markdown->0@) {
                CommentFlush::Blank
            } else {
                CommentFlush::Write
            }),
    {
        self.cancel_comment_autosave();
        if !self.comment_draft_dirty {
            return CommentFlush::Nothing;
        }
        match markdown {
            None => CommentFlush::Nothing,
            Some(text) => {
                if is_blank_text(text) {
                    CommentFlush::Blank
                } else {
                    CommentFlush::Write
                }
            },
        }
    }
}

/// What a request to start a comment does.
#[derive(Clone, Copy, Debug, PartialEq, Eq, Structural)]
pub enum CommentStart {
    /// A comment editor is open: its draft and range are kept, the user is
    /// asked to finish or cancel it, and the Comments sidebar is shown.
    KeepOpenDraft,
    /// Annotations are still loading.
    StillLoading,
    /// The annotation sidecar could not be loaded, so comments are disabled.
    Disabled,
    /// Nothing is selected.
    NoSelection,
    /// The selection reaches past what the annotation store can address
    /// (Select All).
    SelectionTooWide,
    /// Open the editor on the selection.
    Open(TextSelection),
}

/// The start a comment request gets, in the order the reader checks: an open
/// draft first, then loading, a blocked sidecar, the selection and its extent.
pub open spec fn comment_start_spec(r: PdfReader, selection_too_wide: bool) -> CommentStart {
    if r.comment_editor_open {
        CommentStart::KeepOpenDraft
    } else if r.annotations_loading {
        CommentStart::StillLoading
    } else if r.annotation_persistence_blocked {
        CommentStart::Disabled
    } else {
        match r.focus.selection {
            None => CommentStart::NoSelection,
            Some(selection) => if selection_too_wide {
                CommentStart::SelectionTooWide
            } else {
                CommentStart::Open(selection)
            },
        }
    }
}

impl CommentStart {
    /// The message the reader shows for a refused start (the sidecar message
    /// only while no other annotation error is shown).
    pub fn message(&self) -> (message: Option<&'static str>)
        ensures
            match *self {
                CommentStart::KeepOpenDraft => message matches Some(m) && m@
                    == "Finish or cancel the current comment before starting another"@,
                CommentStart::StillLoading => message matches Some(m) && m@
                    == "Annotations are still loading"@,
                CommentStart::Disabled => message matches Some(m) && m@
                    == "Comments are disabled because the sidecar could not be loaded"@,
                CommentStart::NoSelection => message matches Some(m) && m@
                    == "Select text before adding a comment"@,
                CommentStart::SelectionTooWide => message matches Some(m) && m@
                    == "Commenting on Select All is not supported yet; select a concrete text range"@,
                CommentStart::Open(_) => message is None,
            },
    {
        match self {
            CommentStart::KeepOpenDraft => Some("Finish or cancel the current comment before starting another"),
            CommentStart::StillLoading => Some("Annotations are still loading"),
            CommentStart::Disabled => Some("Comments are disabled because the sidecar could not be loaded"),
            CommentStart::NoSelection => Some("Select text before adding a comment"),
            CommentStart::SelectionTooWide => Some(
                "Commenting on Select All is not supported yet; select a concrete text range",
            ),
            CommentStart::Open(_) => None,
        }
    }
}

/// Where writing a comment goes.
#[derive(Clone, Copy, Debug, PartialEq, Eq, Structural)]
pub enum CommentWrite {
    /// The comment is blank and is refused ("A comment cannot be empty").
    Empty,
    /// No range awaits a comment, or no annotation set is loaded: nothing is written.
    NoTarget,
    /// Replace the comment of the annotation being edited, keeping its highlight.
    Update(AnnotationId),
    /// Add a new annotation carrying the comment.
    Add,
}

/// Where a comment with text `markdown` is written, in the order the reader
/// checks: blank text, then a pending range and a loaded set, then whether an
/// annotation is being edited.
pub open spec fn comment_write_spec(
    r: PdfReader,
    markdown: Seq<char>,
    pending_range: bool,
    editing: Option<AnnotationId>,
) -> CommentWrite {
    if is_blank(markdown) {
        CommentWrite::Empty
    } else if !pending_range || r.annotation_revision is None {
        CommentWrite::NoTarget
    } else {
        match editing {
            Some(id) => CommentWrite::Update(id),
            None => CommentWrite::Add,
        }
    }
}

impl PdfReader {
    /// Decides what starting a comment does; `selection_too_wide` tells whether
    /// the selected range ends past the last character index the annotation
    /// store addresses. An open draft is never replaced.
    pub fn add_comment(&self, selection_too_wide: bool) -> (start: CommentStart)
        ensures
            start == comment_start_spec(*self, selection_too_wide),
    {
        if self.comment_editor_open {
            return CommentStart::KeepOpenDraft;
        }
        if self.annotations_loading {
            return CommentStart::StillLoading;
        }
        if self.annotation_persistence_blocked {
            return CommentStart::Disabled;
        }
        match self.focus.selection {
            None => CommentStart::NoSelection,
            Some(selection) => if selection_too_wide {
                CommentStart::SelectionTooWide
            } else {
                CommentStart::Open(selection)
            },
        }
    }

    /// Decides where a comment with text `markdown` is written: `pending_range`
    /// tells whether a range awaits the comment and `editing` names the
    /// annotation whose comment is being edited.
    pub fn write_comment_target(&self, markdown: &str, pending_range: bool, editing: Option<AnnotationId>) -> (target:
        CommentWrite)
        ensures
            target == comment_write_spec(*self, markdown@, pending_range, editing),
    {
        if is_blank_text(markdown) {
            return CommentWrite::Empty;
        }
        if !pending_range || self.annotation_revision.is_none() {
            return CommentWrite::NoTarget;
        }
        match editing {
            Some(id) => CommentWrite::Update(id),
            None => CommentWrite::Add,
        }
    }
}

/// What a request to highlight does.
#[derive(Clone, Copy, Debug, PartialEq, Eq, Structural)]
pub enum HighlightStart {
    /// Annotations are still loading ("Annotations are still loading").
    StillLoading,
    /// The annotation sidecar could not be loaded, so annotations are disabled.
    Disabled,
    /// Neither a selection nor an active annotation of the loaded set gives a
    /// range ("Select text before adding a highlight").
    NoRange,
    /// The range reaches past what the annotation store can address (Select All).
    RangeTooWide,
    /// No annotation set is loaded: nothing happens.
    NoAnnotationSet,
    /// Highlight the selected text.
    Selection(TextSelection),
    /// Highlight the range of the active annotation.
    Annotation(AnnotationId),
}

/// The range a highlight applies to: the selection, else the active
/// annotation when the loaded set holds it.
pub open spec fn highlight_source(r: PdfReader) -> Option<HighlightStart> {
    match r.focus.selection {
        Some(selection) => Some(HighlightStart::Selection(selection)),
        None => match r.focus.active_annotation {
            Some(id) => if exists|i: int| 0 <= i < r.annotations@.len() && #[trigger] r.annotations@[i].id == id {
                Some(HighlightStart::Annotation(id))
            } else {
                None
            },
            None => None,
        },
    }
}

/// The start a highlight request gets, in the order the reader checks.
pub open spec fn highlight_start_spec(r: PdfReader, range_too_wide: bool) -> HighlightStart {
    if r.annotations_loading {
        HighlightStart::StillLoading
    } else if r.annotation_persistence_blocked {
        HighlightStart::Disabled
    } else {
        match highlight_source(r) {
            None => HighlightStart::NoRange,
            Some(source) => if range_too_wide {
                HighlightStart::RangeTooWide
            } else if r.annotation_revision is None {
                HighlightStart::NoAnnotationSet
            } else {
                source
            },
        }
    }
}

fn holds_annotation(annotations: &[crate::reader::AnnotationSummary], id: AnnotationId) -> (held: bool)
    ensures
        held == exists|i: int| 0 <= i < annotations@.len() && #[trigger] annotations@[i].id == id,
{
    for index in 0..annotations.len()
        invariant
            forall|i: int| 0 <= i < index ==> #[trigger] annotations@[i].id != id,
    {
        if annotations[index].id == id {
            return true;
        }
    }
    false
}

/// Whether update revision and id `a` order no later than `b`.
pub open spec fn key_le(a: (u64, AnnotationId), b: (u64, AnnotationId)) -> bool {
    a.0 < b.0 || (a.0 == b.0 && a.1.0 <= b.1.0)
}

/// Which of `candidates` (each an annotation with its last update revision)
/// an exact-range request reuses: the greatest by revision, then id; the
/// later one among equals.
pub open spec fn newest_index(candidates: Seq<(u64, AnnotationId)>) -> Option<int>
    decreases candidates.len(),
{
    if candidates.len() == 0 {
        None
    } else {
        match newest_index(candidates.drop_last()) {
            None => Some(candidates.len() - 1),
            Some(best) => if key_le(candidates[best], candidates.last()) {
                Some(candidates.len() - 1)
            } else {
                Some(best)
            },
        }
    }
}

/// The candidate `newest_index` picks is one of them and no candidate orders
/// after it.
pub proof fn law_newest_candidate_is_greatest(candidates: Seq<(u64, AnnotationId)>)
    ensures
        candidates.len() == 0 <==> newest_index(candidates) is None,
        newest_index(candidates) matches Some(best) ==> 0 <= best < candidates.len() && forall|i: int|
            0 <= i < candidates.len() ==> key_le(#[trigger] candidates[i], candidates[best]),
    decreases candidates.len(),
{
    if candidates.len() > 0 {
        let head = candidates.drop_last();
        let last = candidates.len() - 1;
        law_newest_candidate_is_greatest(head);
        match newest_index(head) {
            None => {
                assert(head.len() == 0);
            },
            Some(b) => {
                assert(head[b] == candidates[b]);
                if key_le(candidates[b], candidates[last]) {
                    assert forall|i: int| 0 <= i < candidates.len() implies key_le(
                        #[trigger] candidates[i],
                        candidates[last],
                    ) by {
                        if i < last {
                            assert(head[i] == candidates[i]);
                            assert(key_le(head[i], head[b]));
                        }
                    }
                } else {
                    assert forall|i: int| 0 <= i < candidates.len() implies key_le(
                        #[trigger] candidates[i],
                        candidates[b],
                    ) by {
                        if i < last {
                            assert(head[i] == candidates[i]);
                            assert(key_le(head[i], head[b]));
                        }
                    }
                }
            },
        }
    }
}

/// The annotation an exact-range request reuses, if any.
pub fn newest_candidate(candidates: &[(u64, AnnotationId)]) -> (chosen: Option<AnnotationId>)
    ensures
        chosen == (match newest_index(candidates@) {
            Some(i) => Some(candidates@[i].1),
            None => None,
        }),
{
    let mut best: Option<usize> = None;
    for index in 0..candidates.len()
        invariant
            best == (match newest_index(candidates@.take(index as int)) {
                Some(i) => Some(i as usize),
                None => None,
            }),
    {
        proof {
            let prefix = candidates@.take(index + 1);
            assert(prefix.drop_last() =~= candidates@.take(index as int));
            law_newest_candidate_is_greatest(candidates@.take(index as int));
        }
        let current = candidates[index];
        best = match best {
            None => Some(index),
            Some(b) => {
                let kept = candidates[b];
                if kept.0 < current.0 || (kept.0 == current.0 && (kept.1).0 <= (current.1).0) {
                    Some(index)
                } else {
                    Some(b)
                }
            },
        };
    }
    proof {
        assert(candidates@.take(candidates@.len() as int) =~= candidates@);
        law_newest_candidate_is_greatest(candidates@);
    }
    match best {
        Some(b) => Some(candidates[b].1),
        None => None,
    }
}

impl PdfReader {
    /// Decides what a highlight request does; `range_too_wide` tells whether
    /// the range ends past the last character index the annotation store
    /// addresses.
    pub fn add_highlight(&self, range_too_wide: bool) -> (start: HighlightStart)
        ensures
            start == highlight_start_spec(*self, range_too_wide),
    {
        if self.annotations_loading {
            return HighlightStart::StillLoading;
        }
        if self.annotation_persistence_blocked {
            return HighlightStart::Disabled;
        }
        let source = match self.focus.selection {
            Some(selection) => HighlightStart::Selection(selection),
            None => match self.focus.active_annotation {
                Some(id) => if holds_annotation(self.annotations.as_slice(), id) {
                    HighlightStart::Annotation(id)
                } else {
                    return HighlightStart::NoRange;
                },
                None => {
                    return HighlightStart::NoRange;
                },
            },
        };
        if range_too_wide {
            return HighlightStart::RangeTooWide;
        }
        if self.annotation_revision.is_none() {
            return HighlightStart::NoAnnotationSet;
        }
        source
    }
}

/// Asking to start a comment while an editor is open keeps that draft,
/// whatever else holds.
pub proof fn law_open_draft_is_kept(r: PdfReader, selection_too_wide: bool)
    requires
        r.comment_editor_open,
    ensures
        comment_start_spec(r, selection_too_wide) == CommentStart::KeepOpenDraft,
{
}

/// A comment editor opens only on the current selection, and only when no
/// draft is open, annotations have loaded, the sidecar is usable and the
/// selection is addressable; while annotations load (and no draft is open)
/// the request is refused as loading whatever the sidecar and selection; the
/// sidecar refusal comes only once loading is over; and the selection is
/// judged last.
pub proof fn law_comment_start_refusals(r: PdfReader, selection_too_wide: bool)
    ensures
        ({
            let start = comment_start_spec(r, selection_too_wide);
            &&& start == CommentStart::KeepOpenDraft <==> r.comment_editor_open
            &&& !r.comment_editor_open && r.annotations_loading ==> start == CommentStart::StillLoading
            &&& start == CommentStart::StillLoading ==> !r.comment_editor_open && r.annotations_loading
            &&& start == CommentStart::Disabled <==> !r.comment_editor_open && !r.annotations_loading
                && r.annotation_persistence_blocked
            &&& start == CommentStart::NoSelection <==> !r.comment_editor_open && !r.annotations_loading
                && !r.annotation_persistence_blocked && r.focus.selection is None
            &&& start == CommentStart::SelectionTooWide <==> !r.comment_editor_open
                && !r.annotations_loading && !r.annotation_persistence_blocked
                && r.focus.selection is Some && selection_too_wide
            &&& start is Open <==> !r.comment_editor_open && !r.annotations_loading
                && !r.annotation_persistence_blocked && r.focus.selection is Some && !selection_too_wide
            &&& start is Open ==> r.focus.selection == Some(start->0)
        }),
{
}

/// A highlight request goes ahead only once annotations have loaded, the
/// sidecar is usable, a range exists and is addressable and a set is loaded;
/// it then applies to the selection when there is one, and otherwise to the
/// active annotation, which must be in the loaded set. Loading is reported
/// before everything else.
pub proof fn law_highlight_start_refusals(r: PdfReader, range_too_wide: bool)
    ensures
        ({
            let start = highlight_start_spec(r, range_too_wide);
            let ready = !r.annotations_loading && !r.annotation_persistence_blocked && !range_too_wide
                && r.annotation_revision is Some;
            &&& r.annotations_loading <==> start == HighlightStart::StillLoading
            &&& start == HighlightStart::Disabled <==> !r.annotations_loading
                && r.annotation_persistence_blocked
            &&& start is Selection <==> ready && r.focus.selection is Some
            &&& start is Selection ==> r.focus.selection == Some(start->Selection_0)
            &&& start is Annotation <==> ready && r.focus.selection is None
                && r.focus.active_annotation is Some && exists|i: int|
                0 <= i < r.annotations@.len() && #[trigger] r.annotations@[i].id
                    == r.focus.active_annotation->0
            &&& start is Annotation ==> r.focus.active_annotation == Some(start->Annotation_0)
            &&& start == HighlightStart::NoRange ==> !r.annotations_loading
                && !r.annotation_persistence_blocked && r.focus.selection is None
        }),
{
}

/// A blank comment is always refused; a written comment replaces the edited
/// annotation's comment exactly when one is being edited, and otherwise adds
/// an annotation; nothing is written without a pending range or a loaded set.
pub proof fn law_comment_write_targets(r: PdfReader, markdown: Seq<char>, pending_range: bool, editing: Option<
    AnnotationId,
>)
    ensures
        ({
            let target = comment_write_spec(r, markdown, pending_range, editing);
            let writable = !is_blank(markdown) && pending_range && r.annotation_revision is Some;
            &&& is_blank(markdown) <==> target == CommentWrite::Empty
            &&& target == CommentWrite::Add <==> writable && editing is None
            &&& target is Update <==> writable && editing is Some
            &&& target is Update ==> editing == Some(target->Update_0)
            &&& target == CommentWrite::NoTarget <==> !is_blank(markdown) && !writable
        }),
{
}

/// An autosave armed by an edit is superseded by a cancellation and by every
/// later edit, so its timer then never saves; until then the timer's revision is
/// the current one.
pub proof fn law_superseded_autosave_never_fires(r: PdfReader)
    ensures
        autosave_cancelled(edited_for_autosave(r)).comment_autosave_revision
            != edited_for_autosave(r).comment_autosave_revision,
        edited_for_autosave(edited_for_autosave(r)).comment_autosave_revision
            != edited_for_autosave(r).comment_autosave_revision,
{
}

} // verus!
