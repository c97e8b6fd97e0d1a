use helix_evil::motion::{
    evil_movement_paragraph_backward, evil_movement_paragraph_forward, paragraph_motion, Direction,
};
use helix_evil::range::{Movement, Range};
use helix_evil::view::TextView;

/// A view of `text` with one grapheme per character.
fn view_of(text: &str) -> TextView {
    let chars: Vec<char> = text.chars().collect();
    let mut starts = vec![0usize];
    for (i, c) in chars.iter().enumerate() {
        if *c == '\n' {
            starts.push(i + 1);
        }
    }
    let mut blank = Vec::new();
    for (k, s) in starts.iter().enumerate() {
        let end = if k + 1 < starts.len() { starts[k + 1] } else { chars.len() };
        blank.push(chars[*s..end].iter().all(|c| *c == '\n'));
    }
    let bounds: Vec<usize> = (0..=chars.len()).collect();
    TextView::new(chars.len(), starts, blank, bounds).unwrap()
}

#[test]
fn forward_one_paragraph_lands_on_blank_line() {
    let v = view_of("a\nb\n\nc\nd\n");
    let r = evil_movement_paragraph_forward(&v, Range::point(0), 1, Movement::Move);
    assert_eq!(r.head, v.line_to_char(2));
    assert_eq!(r, Range::new(4, 4));
}

#[test]
fn forward_two_paragraphs_lands_on_second_blank_line() {
    let v = view_of("a\nb\n\nc\nd\n");
    let r = evil_movement_paragraph_forward(&v, Range::point(0), 2, Movement::Move);
    assert_eq!(r.head, v.line_to_char(5));
    assert_eq!(r.head, 9);
}

#[test]
fn forward_stops_at_first_of_two_blank_lines() {
    let v = view_of("a\n\n\nb");
    let r = evil_movement_paragraph_forward(&v, Range::point(0), 1, Movement::Move);
    assert_eq!(r.head, v.line_to_char(1));
    assert_eq!(r.head, 2);
}

#[test]
fn forward_in_last_paragraph_is_idempotent() {
    let v = view_of("a\n\nc\nd");
    let r0 = Range::point(3);
    let r1 = evil_movement_paragraph_forward(&v, r0, 1, Movement::Move);
    assert_eq!(r1, r0);
    let r2 = evil_movement_paragraph_forward(&v, r1, 3, Movement::Move);
    assert_eq!(r2, r1);
}

#[test]
fn forward_count_zero_keeps_range() {
    let v = view_of("a\nb\n\nc\nd\n");
    let r0 = Range::new(0, 1);
    assert_eq!(evil_movement_paragraph_forward(&v, r0, 0, Movement::Move), r0);
}

#[test]
fn forward_from_tail_of_blank_line_keeps_head_as_anchor() {
    let v = view_of("a\nb\n\nc\nd\n");
    let r = evil_movement_paragraph_forward(&v, Range::point(4), 1, Movement::Move);
    assert_eq!(r, Range::new(4, 9));
}

#[test]
fn forward_extend_keeps_anchor() {
    let v = view_of("a\nb\n\nc\nd\n");
    let r = evil_movement_paragraph_forward(&v, Range::new(0, 1), 1, Movement::Extend);
    assert_eq!(r, Range::new(0, 4));
}

#[test]
fn forward_single_line_buffer_is_noop() {
    let v = view_of("hello");
    let r0 = Range::point(2);
    assert_eq!(evil_movement_paragraph_forward(&v, r0, 5, Movement::Move), r0);
}

#[test]
fn backward_lands_on_leading_blank_line() {
    let v = view_of("a\nb\n\nc\nd\n");
    let r = evil_movement_paragraph_backward(&v, Range::point(8), 1, Movement::Move);
    assert_eq!(r, Range::new(4, 4));
}

#[test]
fn backward_from_first_grapheme_after_blank_skips_boundary() {
    let v = view_of("\na\n\nc\nd\n");
    // cursor at the start of "c", just below a blank line
    let r = evil_movement_paragraph_backward(&v, Range::new(5, 4), 1, Movement::Move);
    assert_eq!(r, Range::new(4, 0));
}

#[test]
fn backward_extend_moves_anchor_over_crossed_grapheme() {
    let v = view_of("a\nb\n\nc\nd\n");
    let r = evil_movement_paragraph_backward(&v, Range::new(7, 8), 1, Movement::Extend);
    assert_eq!(r, Range::new(8, 4));
}

#[test]
fn backward_in_first_paragraph_is_noop() {
    let v = view_of("a\nb\n\nc");
    let r0 = Range::point(2);
    assert_eq!(evil_movement_paragraph_backward(&v, r0, 2, Movement::Move), r0);
}

#[test]
fn view_rejects_bad_tables() {
    assert!(TextView::new(3, vec![0, 2, 1], vec![false, false, false], vec![0, 1, 2, 3]).is_none());
    assert!(TextView::new(3, vec![0], vec![false], vec![0, 1, 2]).is_none());
    assert!(TextView::new(3, vec![1], vec![false], vec![0, 3]).is_none());
    assert!(TextView::new(3, vec![0, 2], vec![false], vec![0, 3]).is_none());
    // a line that starts inside a grapheme
    assert!(TextView::new(3, vec![0, 2], vec![false, false], vec![0, 3]).is_none());
    assert!(TextView::new(3, vec![0, 2], vec![false, false], vec![0, 2, 3]).is_some());
}

#[test]
fn view_queries() {
    let v = view_of("ab\n\ncd");
    assert_eq!(v.len_lines(), 3);
    assert_eq!(v.len_chars(), 6);
    assert_eq!(v.char_to_line(1), 0);
    assert_eq!(v.char_to_line(3), 1);
    assert_eq!(v.char_to_line(6), 2);
    assert!(v.is_blank(1));
    assert!(!v.is_blank(2));
    assert_eq!(v.line_to_char(3), 6);
    assert_eq!(v.prev_grapheme_boundary(0), 0);
    assert_eq!(v.prev_grapheme_boundary(4), 3);
    assert_eq!(v.next_grapheme_boundary(4), 5);
    assert_eq!(v.next_grapheme_boundary(6), 6);
}

#[test]
fn paragraph_motion_dispatches_on_direction() {
    let v = view_of("a\nb\n\nc\nd\n");
    let fwd = paragraph_motion(Direction::Forward, &v, Range::point(0), 1, Movement::Move);
    assert_eq!(fwd, Range::new(4, 4));
    let back = paragraph_motion(Direction::Backward, &v, Range::point(8), 1, Movement::Move);
    assert_eq!(back, Range::new(4, 4));
}

#[test]
fn forward_over_leading_blanks_reaches_buffer_end() {
    let v = view_of("\n\na");
    let r = evil_movement_paragraph_forward(&v, Range::point(0), 1, Movement::Move);
    assert_eq!(r, Range::new(3, 3));
}

#[test]
fn forward_second_step_reaches_buffer_end() {
    let v = view_of("a\n\nc\nd");
    let r = evil_movement_paragraph_forward(&v, Range::point(0), 2, Movement::Move);
    assert_eq!(r, Range::new(6, 6));
}

#[test]
fn backward_over_trailing_blanks_reaches_buffer_start() {
    let v = view_of("a\n\n");
    let r = evil_movement_paragraph_backward(&v, Range::point(3), 1, Movement::Move);
    assert_eq!(r, Range::new(0, 0));
}

#[test]
fn forward_final_paragraph_with_final_line_break_is_idempotent() {
    let v = view_of("a\n\nc\nd\n");
    let r1 = evil_movement_paragraph_forward(&v, Range::point(3), 1, Movement::Move);
    assert_eq!(r1, Range::new(7, 7));
    assert_eq!(evil_movement_paragraph_forward(&v, r1, 1, Movement::Move), r1);
    let e1 = evil_movement_paragraph_forward(&v, Range::new(3, 4), 1, Movement::Extend);
    assert_eq!(e1, Range::new(3, 7));
    assert_eq!(evil_movement_paragraph_forward(&v, e1, 1, Movement::Extend), e1);
}
