use satysfi_language_server::position::{
    column_position, line_of, offset_to_position, position_to_offset, range_of, whole_line_of,
    Position, Range,
};

fn pos(line: u32, character: u32) -> Position {
    Position { line, character }
}

#[test]
fn offset_to_position_counts_lines_and_columns() {
    let text = "let x = 1\nlet y = x + 1";
    assert_eq!(offset_to_position(text, 0), Some(pos(0, 0)));
    assert_eq!(offset_to_position(text, 9), Some(pos(0, 9)));
    assert_eq!(offset_to_position(text, 10), Some(pos(1, 0)));
    assert_eq!(offset_to_position(text, 18), Some(pos(1, 8)));
    assert_eq!(offset_to_position(text, 23), Some(pos(1, 13)));
    assert_eq!(offset_to_position(text, 24), None);
}

#[test]
fn offset_to_position_counts_utf16_units() {
    // "あ" takes three bytes and one unit, "😀" four bytes and two units.
    let text = "aあ😀b\nc";
    assert_eq!(offset_to_position(text, 1), Some(pos(0, 1)));
    assert_eq!(offset_to_position(text, 4), Some(pos(0, 2)));
    assert_eq!(offset_to_position(text, 8), Some(pos(0, 4)));
    assert_eq!(offset_to_position(text, 9), Some(pos(0, 5)));
    assert_eq!(offset_to_position(text, 10), Some(pos(1, 0)));
    assert_eq!(offset_to_position(text, 11), Some(pos(1, 1)));
}

#[test]
fn position_to_offset_finds_character_boundaries() {
    let text = "aあ😀b\nc";
    assert_eq!(position_to_offset(text, pos(0, 0)), Some(0));
    assert_eq!(position_to_offset(text, pos(0, 1)), Some(1));
    assert_eq!(position_to_offset(text, pos(0, 2)), Some(4));
    assert_eq!(position_to_offset(text, pos(0, 4)), Some(8));
    assert_eq!(position_to_offset(text, pos(0, 5)), Some(9));
    assert_eq!(position_to_offset(text, pos(1, 0)), Some(10));
    assert_eq!(position_to_offset(text, pos(1, 1)), Some(11));
}

#[test]
fn position_to_offset_rejects_what_is_not_in_the_text() {
    let text = "aあ😀b\nc";
    // Inside the two units of "😀".
    assert_eq!(position_to_offset(text, pos(0, 3)), None);
    // Behind the end of the line.
    assert_eq!(position_to_offset(text, pos(0, 6)), None);
    assert_eq!(position_to_offset(text, pos(1, 2)), None);
    // A line that the text does not have.
    assert_eq!(position_to_offset(text, pos(2, 0)), None);
    assert_eq!(position_to_offset("", pos(0, 0)), Some(0));
    assert_eq!(position_to_offset("", pos(0, 1)), None);
    assert_eq!(position_to_offset("a\n", pos(1, 0)), Some(2));
}

#[test]
fn positions_round_trip() {
    for text in ["", "a", "let x = 1\nlet y = x + 1", "aあ😀b\nc\n\n😀😀\r\nz", "\n\n"] {
        for offset in 0..=text.len() {
            if !text.is_char_boundary(offset) {
                continue;
            }
            let position = offset_to_position(text, offset).unwrap();
            assert_eq!(position_to_offset(text, position), Some(offset));
        }
    }
}

#[test]
fn line_of_cuts_lines_without_their_end() {
    let text = "first\nsecond\n";
    assert_eq!(line_of(text, 0), Some("first"));
    assert_eq!(line_of(text, 1), Some("second"));
    assert_eq!(line_of(text, 2), Some(""));
    assert_eq!(line_of(text, 3), None);
    assert_eq!(line_of("", 0), Some(""));
    assert_eq!(whole_line_of(text, 0), Some("first\n"));
    assert_eq!(whole_line_of(text, 2), Some(""));
    assert_eq!(whole_line_of(text, 3), None);
}

#[test]
fn range_of_needs_both_ends() {
    let text = "ab\ncd";
    assert_eq!(range_of(text, 1, 4), Some(Range { start: pos(0, 1), end: pos(1, 1) }));
    assert_eq!(range_of(text, 1, 6), None);
}

#[test]
fn column_position_counts_characters_as_units() {
    let text = "a\n😀あb";
    assert_eq!(column_position(text, 1, 0), pos(1, 0));
    assert_eq!(column_position(text, 1, 1), pos(1, 2));
    assert_eq!(column_position(text, 1, 2), pos(1, 3));
    assert_eq!(column_position(text, 1, 9), pos(1, 4));
    assert_eq!(column_position(text, 5, 3), pos(5, 0));
}
