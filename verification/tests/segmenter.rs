use hwp_core::document::{BreakKind, BreakMarker};
use hwp_core::viewer::segmenter::segment_text;

fn line_break(offset: usize) -> BreakMarker {
    BreakMarker { offset, kind: BreakKind::LineBreak }
}

fn paragraph_break(offset: usize) -> BreakMarker {
    BreakMarker { offset, kind: BreakKind::ParagraphBreak }
}

#[test]
fn no_markers_leave_the_text_as_it_is() {
    assert_eq!(segment_text("plain text", &vec![], true), "plain text");
    assert_eq!(segment_text("plain text", &vec![], false), "plain text");
    assert_eq!(segment_text("", &vec![], true), "");
    assert_eq!(segment_text("한글 text", &vec![], false), "한글 text");
}

#[test]
fn a_break_at_the_end_adds_one_token_and_nothing_behind_it() {
    assert_eq!(segment_text("ABC", &vec![line_break(3)], true), "ABC<br>");
    assert_eq!(segment_text("ABC", &vec![line_break(3)], false), "ABC ");
    assert_eq!(segment_text("", &vec![line_break(0)], true), "<br>");
}

#[test]
fn a_break_takes_the_place_of_the_character_at_its_position() {
    let markers = vec![line_break(1), line_break(3)];
    assert_eq!(segment_text("ABCDE", &markers, true), "A<br>C<br>E");
    assert_eq!(segment_text("ABCDE", &markers, false), "A C E");
}

#[test]
fn markers_are_taken_by_ascending_position() {
    let markers = vec![line_break(3), paragraph_break(1)];
    assert_eq!(segment_text("ABCDE", &markers, true), "A<br>C<br>E");
}

#[test]
fn a_position_behind_the_end_counts_as_the_end() {
    assert_eq!(segment_text("AB", &vec![line_break(10)], true), "AB<br>");
    assert_eq!(segment_text("AB", &vec![line_break(1), line_break(10)], true), "A<br><br>");
}

#[test]
fn markers_at_one_position_give_segments_without_text() {
    assert_eq!(segment_text("ABCD", &vec![line_break(2), line_break(2)], true), "AB<br><br>D");
    assert_eq!(segment_text("ABCD", &vec![line_break(0)], false), " BCD");
}

#[test]
fn positions_count_characters_not_bytes() {
    assert_eq!(segment_text("가나다라", &vec![line_break(2)], true), "가나<br>라");
}

#[test]
fn both_kinds_of_break_give_the_same_token() {
    assert_eq!(
        segment_text("ABC", &vec![paragraph_break(1)], false),
        segment_text("ABC", &vec![line_break(1)], false)
    );
}
