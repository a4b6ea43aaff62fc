use editor::insertion;
use editor::Command;
use editor::Cursor;
use editor::Displacement;
use editor::Editor;
use editor::Outcome;

#[test]
fn round_trip_serializes_with_crlf() {
    let e = Editor::from_text("a\nb");
    assert_eq!(e.get_line_count(), 2);
    assert_eq!(e.to_text(), "a\r\nb");
}

#[test]
fn empty_text_yields_one_empty_line() {
    let mut e = Editor::from_text("");
    assert_eq!(e.get_line_count(), 1);
    assert_eq!(e.get_line_display(0, 10), "");
    assert_eq!(e.to_text(), "");
    assert_eq!(e.get_line_length(), Some(0));
    assert_eq!(e.get_unsigned_cursor(), (0, 0));
}

#[test]
fn trailing_line_feed_opens_a_line() {
    let e = Editor::from_text("a\n");
    assert_eq!(e.get_line_count(), 2);
    assert_eq!(e.get_line_display(1, 10), "");
    assert_eq!(e.to_text(), "a\r\n");
}

#[test]
fn crlf_input_keeps_carriage_return_embedded() {
    let e = Editor::from_text("a\r\nb");
    assert_eq!(e.get_line_count(), 2);
    assert_eq!(e.get_line_display(0, 10), "a\r");
    assert_eq!(e.to_text(), "a\r\r\nb");
}

#[test]
fn insert_reads_back() {
    let mut e = Editor::from_text("ab");
    assert_eq!(e.apply_command(Command::Goto(Cursor { column: 1, line: 0 })), Outcome::Done);
    assert_eq!(e.apply_command(Command::Insert(String::from("X"))), Outcome::Done);
    assert_eq!(e.get_line_display(0, 100), "aXb");
    let c = e.get_cursor();
    assert_eq!((c.column, c.line), (1, 0));
}

#[test]
fn insert_into_empty_buffer_is_a_noop() {
    let mut e = Editor::from_text("a");
    e.apply_command(Command::DeleteLine);
    assert_eq!(e.get_line_count(), 0);
    assert_eq!(e.apply_command(Command::Insert(String::from("x"))), Outcome::Done);
    assert_eq!(e.get_line_count(), 0);
}

#[test]
fn backspace_merges_lines() {
    let mut e = Editor::from_text("ab\ncd");
    e.apply_command(Command::Goto(Cursor { column: 0, line: 1 }));
    e.execute(&[
        Command::Backspace,
        Command::Offset(Displacement { line: 0, column: -1 }),
    ]);
    assert_eq!(e.get_line_count(), 1);
    assert_eq!(e.to_text(), "abcd");
    let c = e.get_cursor();
    assert_eq!((c.column, c.line), (2, 0));
}

#[test]
fn backspace_alone_lands_one_past_the_join() {
    let mut e = Editor::from_text("ab\ncd");
    e.apply_command(Command::Goto(Cursor { column: 0, line: 1 }));
    e.apply_command(Command::Backspace);
    assert_eq!(e.to_text(), "abcd");
    let c = e.get_cursor();
    assert_eq!((c.column, c.line), (3, 0));
}

#[test]
fn backspace_removes_one_character() {
    let mut e = Editor::from_text("abc");
    e.apply_command(Command::Goto(Cursor { column: 2, line: 0 }));
    e.apply_command(Command::Backspace);
    assert_eq!(e.to_text(), "ac");
    let c = e.get_cursor();
    assert_eq!((c.column, c.line), (2, 0));
}

#[test]
fn backspace_at_origin_is_a_noop() {
    let mut e = Editor::from_text("ab\ncd");
    assert_eq!(e.apply_command(Command::Backspace), Outcome::Done);
    assert_eq!(e.to_text(), "ab\r\ncd");
    let c = e.get_cursor();
    assert_eq!((c.column, c.line), (0, 0));
}

#[test]
fn delete_line_removes_the_current_line() {
    let mut e = Editor::from_text("a\nb\nc");
    e.apply_command(Command::Goto(Cursor { column: 0, line: 1 }));
    assert_eq!(e.apply_command(Command::DeleteLine), Outcome::Done);
    assert_eq!(e.get_line_count(), 2);
    assert_eq!(e.get_line_display(0, 100), "a");
    assert_eq!(e.get_line_display(1, 100), "c");
    assert_eq!(e.to_text(), "a\r\nc");
}

#[test]
fn deleting_every_line_leaves_the_fallback_text() {
    let mut e = Editor::from_text("a");
    e.apply_command(Command::DeleteLine);
    assert_eq!(e.get_line_count(), 0);
    assert_eq!(e.get_line_length(), None);
    assert_eq!(e.to_text(), "Could not reduce text !");
    assert_eq!(e.apply_command(Command::Backspace), Outcome::Done);
    assert_eq!(e.apply_command(Command::BreakLine), Outcome::Done);
    assert_eq!(e.get_line_count(), 0);
    assert_eq!(e.get_unsigned_cursor(), (0, 0));
}

#[test]
fn break_line_splits_in_place() {
    let mut e = Editor::from_text("abcd");
    e.apply_command(Command::Goto(Cursor { column: 2, line: 0 }));
    assert_eq!(e.apply_command(Command::BreakLine), Outcome::Done);
    assert_eq!(e.get_line_count(), 2);
    assert_eq!(e.get_line_display(0, 100), "ab");
    assert_eq!(e.get_line_display(1, 100), "cd");
    let c = e.get_cursor();
    assert_eq!((c.column, c.line), (2, 0));
    assert_eq!(e.to_text(), "ab\r\ncd");
}

#[test]
fn break_line_then_caller_convention_lands_at_line_start() {
    let mut e = Editor::from_text("abcd");
    e.apply_command(Command::Goto(Cursor { column: 2, line: 0 }));
    e.execute(&[
        Command::BreakLine,
        Command::Offset(Displacement { line: 1, column: 0 }),
        Command::LineStart,
    ]);
    let c = e.get_cursor();
    assert_eq!((c.column, c.line), (0, 1));
    assert_eq!(e.to_text(), "ab\r\ncd");
}

#[test]
fn append_line_to_extends_target_and_keeps_source() {
    let mut e = Editor::from_text("ab\ncd");
    e.apply_command(Command::Goto(Cursor { column: 0, line: 1 }));
    assert_eq!(e.apply_command(Command::AppendLineTo(0)), Outcome::Done);
    assert_eq!(e.get_line_display(0, 100), "abcd");
    assert_eq!(e.get_line_display(1, 100), "cd");
    assert_eq!(e.to_text(), "abcd\r\ncd");
}

#[test]
fn append_line_to_missing_target_reports_invalid() {
    let mut e = Editor::from_text("ab\ncd");
    assert_eq!(e.apply_command(Command::AppendLineTo(5)), Outcome::InvalidTarget);
    assert_eq!(e.apply_command(Command::AppendLineTo(-1)), Outcome::InvalidTarget);
    assert_eq!(e.to_text(), "ab\r\ncd");
}

#[test]
fn append_line_to_itself_doubles_the_line() {
    let mut e = Editor::from_text("ab");
    assert_eq!(e.apply_command(Command::AppendLineTo(0)), Outcome::Done);
    assert_eq!(e.get_line_display(0, 100), "abab");
}

#[test]
fn unsupported_commands_change_nothing() {
    let mut e = Editor::from_text("ab");
    e.apply_command(Command::Goto(Cursor { column: 1, line: 0 }));
    assert_eq!(e.apply_command(Command::Delete), Outcome::Unsupported);
    assert_eq!(e.apply_command(Command::Undo), Outcome::Unsupported);
    assert_eq!(e.apply_command(Command::Redo), Outcome::Unsupported);
    assert_eq!(e.to_text(), "ab");
    let c = e.get_cursor();
    assert_eq!((c.column, c.line), (1, 0));
}

#[test]
fn validation_clamps_into_bounds() {
    let mut e = Editor::from_text("ab\ncd");
    e.apply_command(Command::Goto(Cursor { column: 100, line: 100 }));
    assert_eq!(e.get_unsigned_cursor(), (2, 1));
    e.apply_command(Command::Goto(Cursor { column: -5, line: -7 }));
    assert_eq!(e.get_unsigned_cursor(), (0, 0));
}

#[test]
fn validation_is_idempotent() {
    let mut e = Editor::from_text("ab\ncd");
    e.apply_command(Command::Goto(Cursor { column: 9, line: 9 }));
    e.validate_cursor();
    let once = e.get_cursor();
    e.validate_cursor();
    let twice = e.get_cursor();
    assert_eq!(once, twice);
}

#[test]
fn goto_and_offset_do_not_clamp() {
    let mut e = Editor::from_text("ab");
    e.apply_command(Command::Goto(Cursor { column: 10, line: 10 }));
    let c = e.get_cursor();
    assert_eq!((c.column, c.line), (10, 10));
    e.apply_command(Command::Offset(Displacement { line: -3, column: -3 }));
    let c = e.get_cursor();
    assert_eq!((c.column, c.line), (7, 7));
}

#[test]
fn offset_saturates_at_the_isize_ends() {
    let mut e = Editor::from_text("ab\ncd");
    e.apply_command(Command::Goto(Cursor { column: isize::MAX, line: isize::MAX }));
    e.apply_command(Command::Offset(Displacement { line: 1, column: 1 }));
    let c = e.get_cursor();
    assert_eq!((c.column, c.line), (isize::MAX, isize::MAX));
    assert_eq!(e.get_unsigned_cursor(), (2, 1));
}

#[test]
fn line_start_and_line_end_set_the_column() {
    let mut e = Editor::from_text("abc");
    e.apply_command(Command::LineEnd);
    assert_eq!(e.get_cursor().column, 3);
    e.apply_command(Command::LineStart);
    assert_eq!(e.get_cursor().column, 0);
}

#[test]
fn line_end_validates_the_cursor_first() {
    let mut e = Editor::from_text("abc");
    e.apply_command(Command::Goto(Cursor { column: 1, line: 5 }));
    e.apply_command(Command::LineEnd);
    let c = e.get_cursor();
    assert_eq!((c.column, c.line), (3, 0));
}

#[test]
fn line_end_on_an_empty_document_keeps_the_validated_column() {
    let mut e = Editor::from_text("a");
    e.apply_command(Command::DeleteLine);
    e.apply_command(Command::Goto(Cursor { column: 7, line: 3 }));
    e.apply_command(Command::LineEnd);
    let c = e.get_cursor();
    assert_eq!((c.column, c.line), (0, 0));
}

#[test]
fn display_shows_short_lines_whole() {
    let e = Editor::from_text("abc");
    assert_eq!(e.get_line_display(0, 4), "abc");
    assert_eq!(e.get_line_display(0, 100), "abc");
}

#[test]
fn display_truncates_to_the_trailing_remainder() {
    let e = Editor::from_text("abcdefg");
    assert_eq!(e.get_line_display(0, 3), "<g");
    let e = Editor::from_text("abcdef");
    assert_eq!(e.get_line_display(0, 3), "<");
    let e = Editor::from_text("abc");
    assert_eq!(e.get_line_display(0, 3), "<");
    let e = Editor::from_text("abcde");
    assert_eq!(e.get_line_display(0, 2), "<e");
}

#[test]
fn display_placeholder_for_missing_lines() {
    let e = Editor::from_text("a");
    assert_eq!(e.get_line_display(5, 10), "~");
    assert_eq!(e.get_line_display(-1, 10), "~");
    assert_eq!(e.get_line_display(1, 2), "~");
}

#[test]
fn display_placeholder_regardless_of_width() {
    let e = Editor::from_text("a");
    assert_eq!(e.get_line_display(5, 1), "~");
    assert_eq!(e.get_line_display(-1, 1), "~");
    assert_eq!(e.get_line_display(5, 2), "~");
}

#[test]
fn get_line_length_reads_the_raw_cursor_line() {
    let mut e = Editor::from_text("ab\ncde");
    assert_eq!(e.get_line_length(), Some(2));
    e.apply_command(Command::Goto(Cursor { column: 0, line: 1 }));
    assert_eq!(e.get_line_length(), Some(3));
    e.apply_command(Command::Goto(Cursor { column: 0, line: -4 }));
    assert_eq!(e.get_line_length(), Some(2));
    e.apply_command(Command::Goto(Cursor { column: 0, line: 7 }));
    assert_eq!(e.get_line_length(), None);
}

#[test]
fn insertion_moves_cursor_by_byte_length() {
    let mut e = Editor::from_text("ab");
    insertion(String::from("xy"), &mut e);
    assert_eq!(e.get_line_display(0, 100), "xyab");
    let c = e.get_cursor();
    assert_eq!((c.column, c.line), (2, 0));
}

#[test]
fn insertion_counts_bytes_not_characters() {
    let mut e = Editor::from_text("ab");
    insertion(String::from("\u{20ac}"), &mut e);
    assert_eq!(e.get_line_display(0, 100), "\u{20ac}ab");
    let c = e.get_cursor();
    assert_eq!((c.column, c.line), (3, 0));
}

#[test]
fn default_engine_holds_no_lines() {
    let e = Editor::default();
    assert_eq!(e.get_line_count(), 0);
    assert_eq!(e.to_text(), "Could not reduce text !");
}

#[test]
fn execute_applies_in_order_without_rollback() {
    let mut e = Editor::from_text("ab");
    e.execute(&[
        Command::Goto(Cursor { column: 1, line: 0 }),
        Command::Insert(String::from("Z")),
        Command::Undo,
        Command::Insert(String::from("Y")),
    ]);
    assert_eq!(e.get_line_display(0, 100), "aYZb");
}
