use lib::text_field::{
    TextField, TextFieldBuffer, TextFieldEvent, TextFieldRejection, floor_boundary, next_boundary,
    previous_boundary, single_line,
};

#[test]
fn replacement_is_utf8_safe_and_forces_single_line_text() {
    let mut buffer = TextFieldBuffer::new("a😀b");
    buffer.selection = 1..5;
    buffer.replace_selection("Ω\n你", usize::MAX).unwrap();
    assert_eq!(buffer.text, "aΩ 你b");
    assert_eq!(buffer.cursor(), "aΩ 你".len());
}

#[test]
fn utf16_offsets_round_trip_at_scalar_boundaries() {
    let buffer = TextFieldBuffer::new("a😀Ω");
    for offset in [0, 1, 5, 7] {
        assert_eq!(
            buffer.offset_from_utf16(buffer.offset_to_utf16(offset)),
            offset
        );
    }
    assert_eq!(buffer.offset_from_utf16(2), 1);
}

#[test]
fn reverse_selection_and_character_navigation_are_stable() {
    let mut buffer = TextFieldBuffer::new("a😀b");
    buffer.move_to(buffer.text.len());
    buffer.select_to(previous_boundary(&buffer.text, buffer.cursor()));
    buffer.select_to(previous_boundary(&buffer.text, buffer.cursor()));
    assert_eq!(&buffer.text[buffer.selection.clone()], "😀b");
    assert!(buffer.reversed);
    buffer.select_to(buffer.text.len());
    assert!(buffer.selection.is_empty());
    assert!(!buffer.reversed);
}

#[test]
fn marked_replacement_tracks_inserted_range() {
    let mut buffer = TextFieldBuffer::new("abc");
    let inserted = buffer.replace(1..2, "😀", usize::MAX).unwrap();
    buffer.marked = Some(inserted.clone());
    assert_eq!(&buffer.text[inserted], "😀");
    assert_eq!(buffer.text, "a😀c");
}

#[test]
fn byte_limit_accepts_exact_multibyte_boundary_and_rejects_the_next_scalar() {
    let mut buffer = TextFieldBuffer::new("");
    let inserted = buffer.replace(0..0, "😀你", 7).unwrap();
    assert_eq!(inserted, 0..7);
    assert_eq!(buffer.text, "😀你");

    let before = buffer.clone();
    assert_eq!(
        buffer.replace(7..7, "é", 8),
        Err(TextFieldRejection::TooLong {
            limit_bytes: 8,
            attempted_bytes: 9,
        })
    );
    assert_eq!(buffer, before);
}

#[test]
fn ignored_search_scalars_still_count_toward_the_raw_byte_limit() {
    let ignored = "\0\u{00ad}\0";
    assert_eq!(ignored.len(), 4);

    let mut buffer = TextFieldBuffer::new("");
    buffer.replace(0..0, ignored, 4).unwrap();
    let before = buffer.clone();
    assert_eq!(
        buffer.replace(4..4, "x", 4),
        Err(TextFieldRejection::TooLong {
            limit_bytes: 4,
            attempted_bytes: 5,
        })
    );
    assert_eq!(buffer, before);
}

#[test]
fn replacement_accounts_for_removed_bytes_before_enforcing_the_limit() {
    let mut buffer = TextFieldBuffer::new("12345678");
    buffer.selection = 0..4;
    let inserted = buffer.replace_selection("😀", 8).unwrap();
    assert_eq!(inserted, 0..4);
    assert_eq!(buffer.text, "😀5678");
    assert_eq!(buffer.cursor(), 4);
}

#[test]
fn rejected_replacement_preserves_selection_direction_and_marked_text() {
    let mut buffer = TextFieldBuffer::new("a😀b");
    buffer.selection = 1..5;
    buffer.reversed = true;
    buffer.marked = Some(1..5);
    let before = buffer.clone();

    let rejection = buffer.replace(1..5, "😀😀", 6).unwrap_err();
    assert_eq!(
        rejection,
        TextFieldRejection::TooLong {
            limit_bytes: 6,
            attempted_bytes: 10,
        }
    );
    assert_eq!(buffer, before);
    assert!(rejection.message().contains("edit was ignored"));
}

#[test]
fn rejection_message_names_both_sizes() {
    let rejection = TextFieldRejection::TooLong {
        limit_bytes: 6,
        attempted_bytes: 10,
    };
    assert_eq!(
        rejection.message(),
        "Search text would be 10 bytes; the 6-byte limit was reached and the edit was ignored"
    );
}

#[test]
fn boundary_helpers_snap_inside_multibyte_characters() {
    let text = "a😀b";
    assert_eq!(floor_boundary(text, 3), 1);
    assert_eq!(floor_boundary(text, 5), 5);
    assert_eq!(previous_boundary(text, 5), 1);
    assert_eq!(previous_boundary(text, 0), 0);
    assert_eq!(previous_boundary(text, 100), 5);
    assert_eq!(next_boundary(text, 1), 5);
    assert_eq!(next_boundary(text, 2), 5);
    assert_eq!(next_boundary(text, 6), 6);
    assert_eq!(single_line("a\r\nb"), "a  b");
}

#[test]
fn utf16_positions_count_surrogate_pairs() {
    let buffer = TextFieldBuffer::new("a😀Ω");
    assert_eq!(buffer.offset_to_utf16(1), 1);
    assert_eq!(buffer.offset_to_utf16(3), 1);
    assert_eq!(buffer.offset_to_utf16(5), 3);
    assert_eq!(buffer.offset_to_utf16(7), 4);
    assert_eq!(buffer.offset_from_utf16(3), 5);
    assert_eq!(buffer.offset_from_utf16(99), 7);
    assert_eq!(buffer.range_to_utf16(1..7), 1..4);
    assert_eq!(buffer.range_from_utf16(1..4), 1..7);
}

#[test]
fn field_editing_steps_over_whole_characters() {
    let mut field = TextField::new("Search", 16);
    assert_eq!(field.set_text("a😀b"), Ok(()));
    field.left();
    field.backspace();
    assert_eq!(field.text(), "ab");
    field.home();
    assert_eq!(field.delete(), TextFieldEvent::Changed("b".to_owned()));
    field.select_all();
    assert_eq!(field.copy(), Some("b".to_owned()));
    let (copied, event) = field.cut().unwrap();
    assert_eq!(copied, "b");
    assert_eq!(event, TextFieldEvent::Changed(String::new()));
    assert_eq!(field.paste(Some("x\ny")), Some(TextFieldEvent::Changed("x y".to_owned())));
    field.select_left();
    assert_eq!(field.selected_text_range(), (2..3, true));
    field.right();
    assert_eq!(field.buffer.cursor(), 3);
    assert!(field.set_borderless(true));
    assert!(!field.set_borderless(true));
}

#[test]
fn field_limit_rejects_whole_edits() {
    let mut field = TextField::new("", 3);
    assert_eq!(
        field.set_text("abcd"),
        Err(TextFieldRejection::TooLong {
            limit_bytes: 3,
            attempted_bytes: 4,
        })
    );
    assert_eq!(field.text(), "");
    assert_eq!(
        field.replace_text_in_range(None, "😀"),
        TextFieldEvent::Rejected(TextFieldRejection::TooLong {
            limit_bytes: 3,
            attempted_bytes: 4,
        })
    );
}

#[test]
fn composition_marks_inserted_text_and_selects_inside_it() {
    let mut field = TextField::new("", 64);
    field.set_text("ab").unwrap();
    field.buffer.move_to(1);
    let event = field.replace_and_mark_text_in_range(None, "你好", Some(1..1));
    assert_eq!(event, TextFieldEvent::Changed("a你好b".to_owned()));
    assert_eq!(field.buffer.marked, Some(1..7));
    assert_eq!(field.buffer.selection, 4..4);
    assert_eq!(field.marked_text_range(), Some(1..3));
    field.unmark_text();
    assert_eq!(field.marked_text_range(), None);
    field.end();
    assert_eq!(field.buffer.cursor(), 8);
}

#[test]
fn composition_over_a_backward_selection_ends_forward() {
    let mut field = TextField::new("", 64);
    field.set_text("abcd").unwrap();
    field.buffer.move_to(3);
    field.buffer.select_to(1);
    assert!(field.buffer.reversed);
    let event = field.replace_and_mark_text_in_range(None, "xy", None);
    assert_eq!(event, TextFieldEvent::Changed("axyd".to_owned()));
    assert_eq!(field.buffer.marked, Some(1..3));
    assert_eq!(field.buffer.selection, 3..3);
    assert!(!field.buffer.reversed);
}
