use lib::bridge::{
    ActiveDocument, BridgeError, DocumentHandle, PageHandle, PageIndex, PdfCapabilityBridge,
    PendingNavigation,
    ResourceKind, SnapshotRevision, TextLocation, TextSelectionRange, bounded_utf8,
    live_page_index, live_selection_range, require_newer_revision,
};
use lib::reader::{TextPosition, TextSelection};

#[test]
fn reopen_invalidates_every_handle_of_the_previous_document() {
    let mut bridge = PdfCapabilityBridge::new();
    let first = bridge.begin_document(3).unwrap();
    assert_eq!(
        first,
        DocumentHandle {
            generation: 1,
            id: 1
        }
    );
    let page = bridge.page_handle(first, PageIndex(2)).unwrap();
    assert_eq!(
        page,
        PageHandle {
            generation: 1,
            id: 4
        }
    );
    assert_eq!(
        bridge.page_handle(first, PageIndex(3)),
        Err(BridgeError::PageOutOfBounds {
            page: 3,
            page_count: 3
        })
    );

    let second = bridge.begin_document(5).unwrap();
    assert_eq!(second.generation, 2);
    assert_eq!(
        bridge.page_handle(first, PageIndex(0)),
        Err(BridgeError::StaleGeneration {
            expected: 2,
            actual: 1
        })
    );
    let active = bridge.active.unwrap();
    assert_eq!(
        active.page_index(page),
        Err(BridgeError::StaleGeneration {
            expected: 2,
            actual: 1
        })
    );

    bridge.close_document();
    assert_eq!(bridge.active_document(), None);
    assert_eq!(
        bridge.page_handle(second, PageIndex(0)),
        Err(BridgeError::NoActiveDocument)
    );
    assert_eq!(
        bridge.live_page_authority(0),
        Err(BridgeError::NoActiveDocument)
    );
}

#[test]
fn page_handles_round_trip_and_foreign_ids_are_not_found() {
    let document = DocumentHandle {
        generation: 7,
        id: 1,
    };
    let active = ActiveDocument::new(document, 4);
    assert_eq!(active.next_overlay_id, 6);
    for page in 0..4 {
        let handle = active.page_handle(PageIndex(page)).unwrap();
        assert_eq!(active.page_index(handle), Ok(PageIndex(page)));
    }
    assert_eq!(
        active.page_index(PageHandle {
            generation: 7,
            id: 1
        }),
        Err(BridgeError::ResourceNotFound {
            kind: ResourceKind::Page,
            id: 1
        })
    );
    assert_eq!(
        active.page_index(PageHandle {
            generation: 7,
            id: 9
        }),
        Err(BridgeError::PageOutOfBounds {
            page: 7,
            page_count: 4
        })
    );
    assert_eq!(
        active.require_page_handle(
            PageHandle {
                generation: 7,
                id: 3
            },
            PageIndex(0)
        ),
        Err(BridgeError::ResourceNotFound {
            kind: ResourceKind::Page,
            id: 3
        })
    );
}

#[test]
fn snapshot_revisions_are_monotonic() {
    let mut active = ActiveDocument::new(
        DocumentHandle {
            generation: 1,
            id: 1,
        },
        1,
    );
    assert_eq!(active.allocate_snapshot_revision(), Ok(SnapshotRevision(2)));
    assert_eq!(active.allocate_snapshot_revision(), Ok(SnapshotRevision(3)));
    active.observe_snapshot_revision(SnapshotRevision(10));
    assert_eq!(active.allocate_snapshot_revision(), Ok(SnapshotRevision(11)));
    active.observe_snapshot_revision(SnapshotRevision(1));
    assert_eq!(active.allocate_snapshot_revision(), Ok(SnapshotRevision(12)));
    active.observe_snapshot_revision(SnapshotRevision(u64::MAX));
    assert_eq!(
        active.allocate_snapshot_revision(),
        Err(BridgeError::Internal {
            message: "PDF snapshot revision counter exhausted".to_owned()
        })
    );
    assert_eq!(
        require_newer_revision(Some(SnapshotRevision(4)), SnapshotRevision(4)),
        Err(BridgeError::StaleRevision)
    );
    assert_eq!(
        require_newer_revision(Some(SnapshotRevision(4)), SnapshotRevision(5)),
        Ok(())
    );
    assert_eq!(require_newer_revision(None, SnapshotRevision(0)), Ok(()));
}

#[test]
fn exhausted_generations_keep_the_open_document() {
    let mut bridge = PdfCapabilityBridge::new();
    let open = bridge.begin_document(1).unwrap();
    bridge.next_generation = u64::MAX;
    assert_eq!(
        bridge.begin_document(2),
        Err(BridgeError::Internal {
            message: "PDF document generation counter exhausted".to_owned()
        })
    );
    assert_eq!(bridge.active_document(), Some(open));
}

#[test]
fn live_pages_map_into_the_document_bounds() {
    assert_eq!(live_page_index(2, 3), Ok(PageIndex(2)));
    assert_eq!(
        live_page_index(3, 3),
        Err(BridgeError::PageOutOfBounds {
            page: 3,
            page_count: 3
        })
    );
    assert_eq!(
        live_page_index(usize::MAX, 3),
        Err(BridgeError::PageOutOfBounds {
            page: u32::MAX,
            page_count: 3
        })
    );
    let mut bridge = PdfCapabilityBridge::new();
    let document = bridge.begin_document(2).unwrap();
    assert_eq!(
        bridge.live_page_authority(1),
        Ok((
            document,
            PageHandle {
                generation: document.generation,
                id: 3
            },
            PageIndex(1)
        ))
    );
}

#[test]
fn bounded_utf8_keeps_whole_characters() {
    assert_eq!(bounded_utf8("aé€", 3), "aé");
    assert_eq!(bounded_utf8("aé€", 5), "aé");
    assert_eq!(bounded_utf8("aé€", 6), "aé€");
    assert_eq!(bounded_utf8("", 0), "");
}

#[test]
fn selections_map_to_extension_locations() {
    let selection = TextSelection {
        anchor: TextPosition { page: 1, index: 4 },
        focus: TextPosition {
            page: 0,
            index: usize::MAX,
        },
    };
    assert_eq!(
        live_selection_range(selection, 2),
        Ok(TextSelectionRange {
            anchor: TextLocation {
                page: PageIndex(1),
                character: 4
            },
            focus: TextLocation {
                page: PageIndex(0),
                character: u32::MAX
            }
        })
    );
    assert_eq!(
        live_selection_range(selection, 1),
        Err(BridgeError::PageOutOfBounds {
            page: 1,
            page_count: 1
        })
    );
}

#[test]
fn the_newest_navigation_is_taken_once() {
    let mut bridge = PdfCapabilityBridge::new();
    assert_eq!(
        bridge.take_pending_navigation(),
        Err(BridgeError::NoActiveDocument)
    );
    let document = bridge.begin_document(5).unwrap();
    assert_eq!(bridge.take_pending_navigation(), Ok(None));
    let first = bridge.navigate(document, PageIndex(1), false).unwrap();
    assert_eq!(
        first,
        PendingNavigation {
            page: PageIndex(1),
            viewport_revision: SnapshotRevision(1),
            focus_scheduled: false,
        }
    );
    let second = bridge.navigate(document, PageIndex(3), true).unwrap();
    assert_eq!(second.viewport_revision, SnapshotRevision(2));
    assert_eq!(bridge.take_pending_navigation(), Ok(Some(second)));
    assert_eq!(bridge.take_pending_navigation(), Ok(None));
    let stale = DocumentHandle {
        generation: document.generation + 1,
        id: 1,
    };
    assert_eq!(
        bridge.navigate(stale, PageIndex(0), false),
        Err(BridgeError::StaleGeneration {
            expected: document.generation,
            actual: document.generation + 1
        })
    );
    assert_eq!(bridge.take_pending_navigation(), Ok(None));
}

#[test]
fn an_exhausted_viewport_counter_schedules_nothing() {
    let document = DocumentHandle {
        generation: 3,
        id: 1,
    };
    let mut active = ActiveDocument::new(document, 2);
    active.next_viewport_revision = u64::MAX;
    assert_eq!(
        active.schedule_navigation(PageIndex(0), false),
        Err(BridgeError::Internal {
            message: "viewport revision counter exhausted".to_owned()
        })
    );
    assert_eq!(active.take_pending_navigation(), None);
}
