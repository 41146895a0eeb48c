//! The generation-safe authority model of the PDF capability bridge: document
//! generations, the page handles issued within one, monotonic snapshot
//! revisions, and the bounds applied to text handed to extensions.
//!
//! Every document opened in the reader gets a fresh generation; a handle
//! carries the generation it was issued in and is refused once another
//! document replaced it. The snapshots themselves and the extension-facing
//! service traits stay with the host.

use vstd::prelude::*;
use vstd::utf8::*;

use crate::reader::{TextPosition, TextSelection};
use crate::text_field::{byte_slice, floor_boundary};
use crate::utf8_text::{
    byte_len, byte_length, floor_boundary_spec, lemma_ends_are_boundaries, lemma_floor_boundary,
};

verus! {

broadcast use vstd::utf8::group_utf8_lib;

/// The byte length at which `cs` is cut to fit `maximum_bytes`: the last
/// character boundary at or below the limit.
pub open spec fn bounded_utf8_end(cs: Seq<char>, maximum_bytes: int) -> int {
    if byte_len(cs) <= maximum_bytes {
        byte_len(cs)
    } else {
        floor_boundary_spec(cs, maximum_bytes)
    }
}

/// `value` cut to at most `maximum_bytes` UTF-8 bytes without splitting a
/// character: unchanged when it fits, else its bytes up to the last character
/// boundary at or below the limit.
pub fn bounded_utf8(value: &str, maximum_bytes: usize) -> (bounded: String)
    ensures
        encode_utf8(bounded@) == encode_utf8(value@).subrange(
            0,
            bounded_utf8_end(value@, maximum_bytes as int),
        ),
        byte_len(bounded@) <= maximum_bytes,
        byte_len(value@) <= maximum_bytes ==> bounded@ == value@,
{
    let len = byte_length(value);
    if len <= maximum_bytes {
        proof {
            assert(encode_utf8(value@).subrange(0, byte_len(value@)) =~= encode_utf8(value@));
        }
        return value.to_owned();
    }
    let end = floor_boundary(value, maximum_bytes);
    proof {
        lemma_ends_are_boundaries(value@);
        lemma_floor_boundary(value@, maximum_bytes as int);
    }
    byte_slice(value, 0, end)
}

/// Identity of an open document: the generation it belongs to and its id.
#[derive(Clone, Copy, Debug, PartialEq, Eq, Hash, Structural)]
pub struct DocumentHandle {
    pub generation: u64,
    pub id: u64,
}

/// Identity of a page of an open document within one generation.
#[derive(Clone, Copy, Debug, PartialEq, Eq, Hash, Structural)]
pub struct PageHandle {
    pub generation: u64,
    pub id: u64,
}

/// Zero-based page number.
#[derive(Clone, Copy, Debug, PartialEq, Eq, Hash, PartialOrd, Ord, Structural)]
pub struct PageIndex(pub u32);

/// Revision of a published snapshot; newer snapshots carry larger revisions.
#[derive(Clone, Copy, Debug, PartialEq, Eq, Hash, PartialOrd, Ord, Structural)]
pub struct SnapshotRevision(pub u64);

/// Kinds of bridge resources that a request can name.
#[derive(Clone, Copy, Debug, PartialEq, Eq, Structural)]
pub enum ResourceKind {
    Document,
    Page,
}

/// Why a bridge request was refused.
#[derive(Clone, Debug, PartialEq, Eq)]
pub enum BridgeError {
    /// No document is open.
    NoActiveDocument,
    /// The handle belongs to a document generation that has been replaced.
    StaleGeneration { expected: u64, actual: u64 },
    /// The handle is of the current generation but names nothing in it.
    ResourceNotFound { kind: ResourceKind, id: u64 },
    /// The page is not in the document.
    PageOutOfBounds { page: u32, page_count: u32 },
    /// A published snapshot is not newer than the one it replaces.
    StaleRevision,
    /// A counter of the bridge ran out.
    Internal { message: String },
}

/// Id of the page handle of page `page`.
pub open spec fn page_handle_id(page: u32) -> u64 {
    (page + 2) as u64
}

/// A navigation an extension asked for, waiting for the reader to perform it.
#[derive(Clone, Copy, Debug, PartialEq, Eq, Structural)]
pub struct PendingNavigation {
    pub page: PageIndex,
    pub viewport_revision: SnapshotRevision,
    pub focus_scheduled: bool,
}

/// The open document, the counters of its generation and the navigation
/// waiting for the reader.
#[derive(Clone, Copy, Debug, PartialEq, Eq, Structural)]
pub struct ActiveDocument {
    pub document: DocumentHandle,
    pub page_count: u32,
    pub next_snapshot_revision: u64,
    pub next_viewport_revision: u64,
    pub next_overlay_id: u64,
    pub pending_navigation: Option<PendingNavigation>,
}

/// The document after a navigation to `page` was scheduled: the viewport
/// revision advances and the request replaces any navigation not yet taken.
pub open spec fn navigation_scheduled(active: ActiveDocument, page: PageIndex, focus_scheduled: bool) -> ActiveDocument {
    let revision = (active.next_viewport_revision + 1) as u64;
    ActiveDocument {
        next_viewport_revision: revision,
        pending_navigation: Some(
            PendingNavigation { page, viewport_revision: SnapshotRevision(revision), focus_scheduled },
        ),
        ..active
    }
}

/// The document after its pending navigation was taken.
pub open spec fn navigation_taken(active: ActiveDocument) -> ActiveDocument {
    ActiveDocument { pending_navigation: None, ..active }
}

/// The handle `page_handle` issues for page `page`.
pub open spec fn page_handle_spec(active: ActiveDocument, page: PageIndex) -> Result<PageHandle, BridgeError> {
    if page.0 >= active.page_count {
        Err(BridgeError::PageOutOfBounds { page: page.0, page_count: active.page_count })
    } else {
        Ok(PageHandle { generation: active.document.generation, id: page_handle_id(page.0) })
    }
}

/// The page `page_index` finds for a handle.
pub open spec fn page_index_spec(active: ActiveDocument, handle: PageHandle) -> Result<PageIndex, BridgeError> {
    if handle.generation != active.document.generation {
        Err(
            BridgeError::StaleGeneration {
                expected: active.document.generation,
                actual: handle.generation,
            },
        )
    } else if 2 <= handle.id && handle.id - 2 < active.page_count {
        Ok(PageIndex((handle.id - 2) as u32))
    } else if 2 <= handle.id && handle.id - 2 <= u32::MAX {
        Err(
            BridgeError::PageOutOfBounds {
                page: (handle.id - 2) as u32,
                page_count: active.page_count,
            },
        )
    } else {
        Err(BridgeError::ResourceNotFound { kind: ResourceKind::Page, id: handle.id })
    }
}

impl ActiveDocument {
    /// A freshly opened document: snapshot revisions start at 2 and overlay
    /// ids after the page handle ids.
    pub fn new(document: DocumentHandle, page_count: u32) -> (active: Self)
        ensures
            active == (ActiveDocument {
                document,
                page_count,
                next_snapshot_revision: 2,
                next_viewport_revision: 0,
                next_overlay_id: (page_count + 2) as u64,
                pending_navigation: None,
            }),
    {
        ActiveDocument {
            document,
            page_count,
            next_snapshot_revision: 2,
            next_viewport_revision: 0,
            next_overlay_id: page_count as u64 + 2,
            pending_navigation: None,
        }
    }

    /// The handle of page `page` in this generation.
    pub fn page_handle(&self, page: PageIndex) -> (handle: Result<PageHandle, BridgeError>)
        ensures
            handle == page_handle_spec(*self, page),
    {
        if page.0 >= self.page_count {
            return Err(BridgeError::PageOutOfBounds { page: page.0, page_count: self.page_count });
        }
        Ok(PageHandle { generation: self.document.generation, id: page.0 as u64 + 2 })
    }

    /// The page a handle names, if it is a page handle of this generation.
    pub fn page_index(&self, handle: PageHandle) -> (page: Result<PageIndex, BridgeError>)
        ensures
            page == page_index_spec(*self, handle),
    {
        if handle.generation != self.document.generation {
            return Err(
                BridgeError::StaleGeneration {
                    expected: self.document.generation,
                    actual: handle.generation,
                },
            );
        }
        if handle.id < 2 {
            return Err(BridgeError::ResourceNotFound { kind: ResourceKind::Page, id: handle.id });
        }
        let raw = handle.id - 2;
        if raw > u32::MAX as u64 {
            return Err(BridgeError::ResourceNotFound { kind: ResourceKind::Page, id: handle.id });
        }
        let page = PageIndex(raw as u32);
        match self.require_page_handle(handle, page) {
            Ok(()) => Ok(page),
            Err(error) => Err(error),
        }
    }

    /// Checks that `handle` is this generation's handle of page `index`.
    pub fn require_page_handle(&self, handle: PageHandle, index: PageIndex) -> (checked: Result<
        (),
        BridgeError,
    >)
        ensures
            handle.generation != self.document.generation ==> checked == Err::<(), BridgeError>(
                BridgeError::StaleGeneration {
                    expected: self.document.generation,
                    actual: handle.generation,
                },
            ),
            handle.generation == self.document.generation && index.0 >= self.page_count ==> checked
                == Err::<(), BridgeError>(
                BridgeError::PageOutOfBounds { page: index.0, page_count: self.page_count },
            ),
            handle.generation == self.document.generation && index.0 < self.page_count ==> checked == (
            if handle.id == page_handle_id(index.0) {
                Ok::<(), BridgeError>(())
            } else {
                Err::<(), BridgeError>(
                    BridgeError::ResourceNotFound { kind: ResourceKind::Page, id: handle.id },
                )
            }),
    {
        if handle.generation != self.document.generation {
            return Err(
                BridgeError::StaleGeneration {
                    expected: self.document.generation,
                    actual: handle.generation,
                },
            );
        }
        let expected = match self.page_handle(index) {
            Ok(expected) => expected,
            Err(error) => {
                return Err(error);
            },
        };
        if handle.generation == expected.generation && handle.id == expected.id {
            Ok(())
        } else {
            Err(BridgeError::ResourceNotFound { kind: ResourceKind::Page, id: handle.id })
        }
    }

    /// Hands out the next snapshot revision.
    pub fn allocate_snapshot_revision(&mut self) -> (revision: Result<SnapshotRevision, BridgeError>)
        ensures
            old(self).next_snapshot_revision == u64::MAX ==> {
                &&& revision matches Err(BridgeError::Internal { message }) && message@
                    == "PDF snapshot revision counter exhausted"@
                &&& *final(self) == *old(self)
            },
            old(self).next_snapshot_revision < u64::MAX ==> {
                &&& revision == Ok::<SnapshotRevision, BridgeError>(
                    SnapshotRevision(old(self).next_snapshot_revision),
                )
                &&& *final(self) == (ActiveDocument {
                    next_snapshot_revision: (old(self).next_snapshot_revision + 1) as u64,
                    ..*old(self)
                })
            },
    {
        let revision = self.next_snapshot_revision;
        if revision == u64::MAX {
            return Err(
                BridgeError::Internal { message: "PDF snapshot revision counter exhausted".to_owned() },
            );
        }
        self.next_snapshot_revision = revision + 1;
        Ok(SnapshotRevision(revision))
    }

    /// Notes a revision published from outside, so that later revisions
    /// handed out are newer still.
    pub fn observe_snapshot_revision(&mut self, revision: SnapshotRevision)
        ensures
            *final(self) == (ActiveDocument {
                next_snapshot_revision: if old(self).next_snapshot_revision > revision.0 + 1 {
                    old(self).next_snapshot_revision
                } else if revision.0 == u64::MAX {
                    u64::MAX
                } else {
                    (revision.0 + 1) as u64
                },
                ..*old(self)
            }),
    {
        let after = revision.0.saturating_add(1);
        if after > self.next_snapshot_revision {
            self.next_snapshot_revision = after;
        }
    }

    /// Schedules a navigation to `page` for the reader and returns what the
    /// requesting extension is told. A navigation not yet taken is replaced,
    /// so that requests never queue up.
    pub fn schedule_navigation(&mut self, page: PageIndex, focus_scheduled: bool) -> (receipt: Result<
        PendingNavigation,
        BridgeError,
    >)
        ensures
            old(self).next_viewport_revision == u64::MAX ==> {
                &&& receipt matches Err(BridgeError::Internal { message }) && message@
                    == "viewport revision counter exhausted"@
                &&& *final(self) == *old(self)
            },
            old(self).next_viewport_revision < u64::MAX ==> {
                &&& *final(self) == navigation_scheduled(*old(self), page, focus_scheduled)
                &&& final(self).pending_navigation matches Some(pending) && receipt == Ok::<
                    PendingNavigation,
                    BridgeError,
                >(pending)
            },
    {
        if self.next_viewport_revision == u64::MAX {
            return Err(BridgeError::Internal { message: "viewport revision counter exhausted".to_owned() });
        }
        self.next_viewport_revision = self.next_viewport_revision + 1;
        let pending = PendingNavigation {
            page,
            viewport_revision: SnapshotRevision(self.next_viewport_revision),
            focus_scheduled,
        };
        self.pending_navigation = Some(pending);
        Ok(pending)
    }

    /// Takes the navigation waiting for the reader, leaving none.
    pub fn take_pending_navigation(&mut self) -> (taken: Option<PendingNavigation>)
        ensures
            taken == old(self).pending_navigation,
            *final(self) == navigation_taken(*old(self)),
    {
        let taken = self.pending_navigation;
        self.pending_navigation = None;
        taken
    }
}

/// Checks that the document handle names the open document.
pub fn require_document(active: &ActiveDocument, document: DocumentHandle) -> (checked: Result<
    (),
    BridgeError,
>)
    ensures
        document.generation != active.document.generation ==> checked == Err::<(), BridgeError>(
            BridgeError::StaleGeneration {
                expected: active.document.generation,
                actual: document.generation,
            },
        ),
        document.generation == active.document.generation ==> checked == (if document.id
            == active.document.id {
            Ok::<(), BridgeError>(())
        } else {
            Err::<(), BridgeError>(
                BridgeError::ResourceNotFound { kind: ResourceKind::Document, id: document.id },
            )
        }),
{
    if document.generation != active.document.generation {
        return Err(
            BridgeError::StaleGeneration {
                expected: active.document.generation,
                actual: document.generation,
            },
        );
    }
    if document.id == active.document.id {
        Ok(())
    } else {
        Err(BridgeError::ResourceNotFound { kind: ResourceKind::Document, id: document.id })
    }
}

/// Refuses a snapshot whose revision is not newer than the one it replaces.
pub fn require_newer_revision(previous: Option<SnapshotRevision>, next: SnapshotRevision) -> (checked:
    Result<(), BridgeError>)
    ensures
        checked == (if previous matches Some(p) && next.0 <= p.0 {
            Err::<(), BridgeError>(BridgeError::StaleRevision)
        } else {
            Ok::<(), BridgeError>(())
        }),
{
    match previous {
        Some(p) => {
            if next.0 <= p.0 {
                Err(BridgeError::StaleRevision)
            } else {
                Ok(())
            }
        },
        None => Ok(()),
    }
}

/// The reader's page number as a bridge page index, if the document has it.
pub fn live_page_index(page: usize, page_count: u32) -> (index: Result<PageIndex, BridgeError>)
    ensures
        page > u32::MAX ==> index == Err::<PageIndex, BridgeError>(
            BridgeError::PageOutOfBounds { page: u32::MAX, page_count },
        ),
        page <= u32::MAX && page >= page_count ==> index == Err::<PageIndex, BridgeError>(
            BridgeError::PageOutOfBounds { page: page as u32, page_count },
        ),
        page < page_count ==> index == Ok::<PageIndex, BridgeError>(PageIndex(page as u32)),
{
    if page > u32::MAX as usize {
        return Err(BridgeError::PageOutOfBounds { page: u32::MAX, page_count });
    }
    let page = page as u32;
    if page >= page_count {
        return Err(BridgeError::PageOutOfBounds { page, page_count });
    }
    Ok(PageIndex(page))
}

/// A character of the document as extensions address it.
#[derive(Clone, Copy, Debug, PartialEq, Eq, Structural)]
pub struct TextLocation {
    pub page: PageIndex,
    pub character: u32,
}

/// A selection as extensions see it.
#[derive(Clone, Copy, Debug, PartialEq, Eq, Structural)]
pub struct TextSelectionRange {
    pub anchor: TextLocation,
    pub focus: TextLocation,
}

/// `position` as extensions address it: its page checked against the document,
/// its character index capped at `u32::MAX`.
pub open spec fn location_spec(position: TextPosition, page_count: u32) -> Result<TextLocation, BridgeError> {
    if position.page > u32::MAX {
        Err(BridgeError::PageOutOfBounds { page: u32::MAX, page_count })
    } else if position.page >= page_count {
        Err(BridgeError::PageOutOfBounds { page: position.page as u32, page_count })
    } else {
        Ok(
            TextLocation {
                page: PageIndex(position.page as u32),
                character: if position.index > u32::MAX {
                    u32::MAX
                } else {
                    position.index as u32
                },
            },
        )
    }
}

fn live_location(position: TextPosition, page_count: u32) -> (location: Result<TextLocation, BridgeError>)
    ensures
        location == location_spec(position, page_count),
{
    let page = match live_page_index(position.page, page_count) {
        Ok(page) => page,
        Err(error) => {
            return Err(error);
        },
    };
    let character = if position.index > u32::MAX as usize {
        u32::MAX
    } else {
        position.index as u32
    };
    Ok(TextLocation { page, character })
}

/// The reader's selection as extensions see it; refused when either end lies
/// on a page the document does not have (the anchor is checked first).
pub fn live_selection_range(selection: TextSelection, page_count: u32) -> (range: Result<
    TextSelectionRange,
    BridgeError,
>)
    ensures
        range == (match location_spec(selection.anchor, page_count) {
            Err(error) => Err(error),
            Ok(anchor) => match location_spec(selection.focus, page_count) {
                Err(error) => Err(error),
                Ok(focus) => Ok(TextSelectionRange { anchor, focus }),
            },
        }),
{
    let anchor = match live_location(selection.anchor, page_count) {
        Ok(anchor) => anchor,
        Err(error) => {
            return Err(error);
        },
    };
    let focus = match live_location(selection.focus, page_count) {
        Ok(focus) => focus,
        Err(error) => {
            return Err(error);
        },
    };
    Ok(TextSelectionRange { anchor, focus })
}

/// The bridge's state: the next generation to hand out and the open document.
pub struct PdfCapabilityBridge {
    pub next_generation: u64,
    pub active: Option<ActiveDocument>,
}

/// Every generation handed out so far is below the next one.
pub open spec fn bridge_well_formed(bridge: &PdfCapabilityBridge) -> bool {
    bridge.active matches Some(active) ==> active.document.generation < bridge.next_generation
}

impl PdfCapabilityBridge {
    /// A bridge with no document; the first generation is 1.
    pub fn new() -> (bridge: Self)
        ensures
            bridge.next_generation == 1,
            bridge.active is None,
            bridge_well_formed(&bridge),
    {
        PdfCapabilityBridge { next_generation: 1, active: None }
    }

    /// Hands out the next document generation.
    fn allocate_document_generation(&mut self) -> (generation: Result<u64, BridgeError>)
        ensures
            old(self).next_generation == u64::MAX ==> {
                &&& generation matches Err(BridgeError::Internal { message }) && message@
                    == "PDF document generation counter exhausted"@
                &&& final(self).next_generation == old(self).next_generation
                &&& final(self).active == old(self).active
            },
            old(self).next_generation < u64::MAX ==> {
                &&& generation == Ok::<u64, BridgeError>(old(self).next_generation)
                &&& final(self).next_generation == old(self).next_generation + 1
                &&& final(self).active == old(self).active
            },
    {
        let generation = self.next_generation;
        if generation == u64::MAX {
            return Err(
                BridgeError::Internal { message: "PDF document generation counter exhausted".to_owned() },
            );
        }
        self.next_generation = generation + 1;
        Ok(generation)
    }

    /// Starts a new document generation with `page_count` pages; every handle
    /// of an earlier generation is invalid from now on. When the generation
    /// counter is exhausted the previous document stays open.
    pub fn begin_document(&mut self, page_count: u32) -> (document: Result<DocumentHandle, BridgeError>)
        ensures
            bridge_well_formed(old(self)) ==> bridge_well_formed(final(self)),
            old(self).next_generation == u64::MAX ==> {
                &&& document matches Err(BridgeError::Internal { .. })
                &&& final(self).next_generation == old(self).next_generation
                &&& final(self).active == old(self).active
            },
            old(self).next_generation < u64::MAX ==> {
                let handle = DocumentHandle { generation: old(self).next_generation, id: 1 };
                &&& document == Ok::<DocumentHandle, BridgeError>(handle)
                &&& final(self).next_generation == old(self).next_generation + 1
                &&& final(self).active == Some(
                    ActiveDocument {
                        document: handle,
                        page_count,
                        next_snapshot_revision: 2,
                        next_viewport_revision: 0,
                        next_overlay_id: (page_count + 2) as u64,
                        pending_navigation: None,
                    },
                )
            },
    {
        let generation = match self.allocate_document_generation() {
            Ok(generation) => generation,
            Err(error) => {
                return Err(error);
            },
        };
        let document = DocumentHandle { generation, id: 1 };
        self.active = Some(ActiveDocument::new(document, page_count));
        Ok(document)
    }

    /// Closes the open document; its handles are refused from now on.
    pub fn close_document(&mut self)
        ensures
            final(self).active is None,
            final(self).next_generation == old(self).next_generation,
            bridge_well_formed(final(self)),
    {
        self.active = None;
    }

    /// The open document's handle.
    pub fn active_document(&self) -> (document: Option<DocumentHandle>)
        ensures
            document == (match self.active {
                Some(active) => Some(active.document),
                None => None,
            }),
    {
        match &self.active {
            Some(active) => Some(active.document),
            None => None,
        }
    }

    /// The handle of page `page` of `document`, checked against the open document.
    pub fn page_handle(&self, document: DocumentHandle, page: PageIndex) -> (handle: Result<
        PageHandle,
        BridgeError,
    >)
        ensures
            self.active is None ==> handle == Err::<PageHandle, BridgeError>(
                BridgeError::NoActiveDocument,
            ),
            self.active matches Some(active) ==> handle == (match spec_require_document(
                active,
                document,
            ) {
                Err(error) => Err(error),
                Ok(()) => if page.0 >= active.page_count {
                    Err(BridgeError::PageOutOfBounds { page: page.0, page_count: active.page_count })
                } else {
                    Ok(PageHandle { generation: active.document.generation, id: page_handle_id(page.0) })
                },
            }),
    {
        let active = match &self.active {
            Some(active) => active,
            None => {
                return Err(BridgeError::NoActiveDocument);
            },
        };
        match require_document(active, document) {
            Ok(()) => {},
            Err(error) => {
                return Err(error);
            },
        }
        active.page_handle(page)
    }

    /// The open document, its handle of the reader's page `page`, and the page
    /// index, for publishing what the reader shows on that page.
    pub fn live_page_authority(&self, page: usize) -> (authority: Result<
        (DocumentHandle, PageHandle, PageIndex),
        BridgeError,
    >)
        ensures
            self.active is None ==> authority == Err::<(DocumentHandle, PageHandle, PageIndex), BridgeError>(
                BridgeError::NoActiveDocument,
            ),
            self.active matches Some(active) ==> {
                &&& page < active.page_count ==> authority == Ok::<
                    (DocumentHandle, PageHandle, PageIndex),
                    BridgeError,
                >(
                    (
                        active.document,
                        PageHandle { generation: active.document.generation, id: page_handle_id(page as u32) },
                        PageIndex(page as u32),
                    ),
                )
                &&& page >= active.page_count ==> authority is Err
            },
    {
        let active = match &self.active {
            Some(active) => active,
            None => {
                return Err(BridgeError::NoActiveDocument);
            },
        };
        let index = match live_page_index(page, active.page_count) {
            Ok(index) => index,
            Err(error) => {
                return Err(error);
            },
        };
        match active.page_handle(index) {
            Ok(handle) => Ok((active.document, handle, index)),
            Err(error) => Err(error),
        }
    }
}

impl PdfCapabilityBridge {
    /// Schedules a navigation of `document` to `page` for the reader.
    pub fn navigate(&mut self, document: DocumentHandle, page: PageIndex, focus_scheduled: bool) -> (receipt:
        Result<PendingNavigation, BridgeError>)
        ensures
            final(self).next_generation == old(self).next_generation,
            old(self).active is None ==> receipt == Err::<PendingNavigation, BridgeError>(
                BridgeError::NoActiveDocument,
            ) && final(self).active is None,
            old(self).active matches Some(active) ==> match spec_require_document(active, document) {
                Err(error) => receipt == Err::<PendingNavigation, BridgeError>(error)
                    && final(self).active == old(self).active,
                Ok(()) => if active.next_viewport_revision == u64::MAX {
                    receipt is Err && final(self).active == old(self).active
                } else {
                    let after = navigation_scheduled(active, page, focus_scheduled);
                    &&& final(self).active == Some(after)
                    &&& after.pending_navigation matches Some(pending) && receipt == Ok::<
                        PendingNavigation,
                        BridgeError,
                    >(pending)
                },
            },
    {
        let mut active = match self.active {
            Some(active) => active,
            None => {
                return Err(BridgeError::NoActiveDocument);
            },
        };
        match require_document(&active, document) {
            Ok(()) => {},
            Err(error) => {
                return Err(error);
            },
        }
        let receipt = active.schedule_navigation(page, focus_scheduled);
        self.active = Some(active);
        receipt
    }

    /// Takes the navigation waiting for the reader of the open document.
    pub fn take_pending_navigation(&mut self) -> (taken: Result<Option<PendingNavigation>, BridgeError>)
        ensures
            final(self).next_generation == old(self).next_generation,
            old(self).active is None ==> taken == Err::<Option<PendingNavigation>, BridgeError>(
                BridgeError::NoActiveDocument,
            ) && final(self).active is None,
            old(self).active matches Some(active) ==> {
                &&& taken == Ok::<Option<PendingNavigation>, BridgeError>(active.pending_navigation)
                &&& final(self).active == Some(navigation_taken(active))
            },
    {
        let mut active = match self.active {
            Some(active) => active,
            None => {
                return Err(BridgeError::NoActiveDocument);
            },
        };
        let taken = active.take_pending_navigation();
        self.active = Some(active);
        Ok(taken)
    }
}

/// The newest navigation request supersedes one the reader has not taken yet,
/// and a navigation is taken once: taking again finds none.
pub proof fn law_newest_navigation_is_taken_once(
    active: ActiveDocument,
    first: PageIndex,
    first_focus: bool,
    second: PageIndex,
    second_focus: bool,
)
    requires
        active.next_viewport_revision < u64::MAX - 1,
    ensures
        ({
            let both = navigation_scheduled(navigation_scheduled(active, first, first_focus), second, second_focus);
            &&& both.pending_navigation == Some(
                PendingNavigation {
                    page: second,
                    viewport_revision: SnapshotRevision((active.next_viewport_revision + 2) as u64),
                    focus_scheduled: second_focus,
                },
            )
            &&& navigation_taken(both).pending_navigation is None
            &&& navigation_taken(navigation_taken(both)) == navigation_taken(both)
        }),
{
}

/// What `require_document` answers, as a value.
pub open spec fn spec_require_document(active: ActiveDocument, document: DocumentHandle) -> Result<
    (),
    BridgeError,
> {
    if document.generation != active.document.generation {
        Err(
            BridgeError::StaleGeneration {
                expected: active.document.generation,
                actual: document.generation,
            },
        )
    } else if document.id == active.document.id {
        Ok(())
    } else {
        Err(BridgeError::ResourceNotFound { kind: ResourceKind::Document, id: document.id })
    }
}

/// Page handles round-trip: the handle issued for a page of the open document
/// names that page again, and a handle of another generation is refused as
/// stale.
pub proof fn law_page_handles_round_trip(active: ActiveDocument, page: PageIndex, foreign: PageHandle)
    requires
        page.0 < active.page_count,
        foreign.generation != active.document.generation,
    ensures
        page_handle_spec(active, page) matches Ok(handle) && page_index_spec(active, handle) == Ok::<
            PageIndex,
            BridgeError,
        >(page),
        page_index_spec(active, foreign) is Err,
        page_index_spec(active, foreign) == Err::<PageIndex, BridgeError>(
            BridgeError::StaleGeneration {
                expected: active.document.generation,
                actual: foreign.generation,
            },
        ),
{
}

/// A page handle issued in an earlier generation is refused as stale by every
/// later document: generations only grow.
pub proof fn law_replaced_documents_reject_old_handles(earlier: ActiveDocument, later: ActiveDocument, page: PageIndex)
    requires
        page.0 < earlier.page_count,
        earlier.document.generation < later.document.generation,
    ensures
        page_handle_spec(earlier, page) matches Ok(handle) && page_index_spec(later, handle) == Err::<
            PageIndex,
            BridgeError,
        >(
            BridgeError::StaleGeneration {
                expected: later.document.generation,
                actual: earlier.document.generation,
            },
        ),
{
}

/// Opening a document invalidates every handle of the document it replaces:
/// the new generation is newer than any generation handed out before.
pub proof fn law_reopening_supersedes_the_previous_generation(
    bridge: &PdfCapabilityBridge,
    previous: ActiveDocument,
)
    requires
        bridge_well_formed(bridge),
        bridge.active == Some(previous),
        bridge.next_generation < u64::MAX,
    ensures
        previous.document.generation < bridge.next_generation,
{
}

} // verus!
