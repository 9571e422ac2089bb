//! Behavior tests for arms configuration parsing and position splitting.

use dora_openarm_actions_executor_rust::Arms;

#[test]
fn parses_right_and_left() {
    let arms = Arms::parse("right,left");
    assert!(arms.has_right());
    assert!(arms.has_left());
}

#[test]
fn parses_right_only() {
    let arms = Arms::parse("right");
    assert!(arms.has_right());
    assert!(!arms.has_left());
}

#[test]
fn parses_left_only() {
    let arms = Arms::parse("left");
    assert!(!arms.has_right());
    assert!(arms.has_left());
}

#[test]
fn parses_left_and_right_in_reversed_order() {
    let arms = Arms::parse("left,right");
    assert!(arms.has_right());
    assert!(arms.has_left());
}

#[test]
fn unrecognized_token_enables_neither_arm() {
    // An arms string that names neither "right" nor "left" enables no arm.
    let arms = Arms::parse("both");
    assert!(!arms.has_right());
    assert!(!arms.has_left());
}

#[test]
fn membership_check_does_not_trim_whitespace() {
    // Membership is checked on the raw comma-separated tokens: a token with
    // surrounding whitespace does not match "right" exactly.
    let arms = Arms::parse("right ,left");
    assert!(!arms.has_right());
    assert!(arms.has_left());
}

#[test]
fn split_position_with_both_arms_takes_first_then_second_eight() {
    let arms = Arms::parse("right,left");
    let position: Vec<f32> = (0..16).map(|value| value as f32).collect();
    let (right, left) = arms.split_position(&position);
    assert_eq!(
        right.as_deref(),
        Some(&[0.0, 1.0, 2.0, 3.0, 4.0, 5.0, 6.0, 7.0][..])
    );
    assert_eq!(
        left.as_deref(),
        Some(&[8.0, 9.0, 10.0, 11.0, 12.0, 13.0, 14.0, 15.0][..])
    );
}

#[test]
fn split_position_with_right_only_leaves_left_none() {
    let arms = Arms::parse("right");
    let position: Vec<f32> = (0..8).map(|value| value as f32).collect();
    let (right, left) = arms.split_position(&position);
    assert_eq!(right.as_deref(), Some(&position[..]));
    assert_eq!(left, None);
}

#[test]
fn split_position_with_left_only_reads_from_offset_zero() {
    // The offset only advances past the right arm's slice when "right" is
    // enabled, so a left-only configuration reads
    // the left arm's 8 elements starting at offset 0, not offset 8.
    let arms = Arms::parse("left");
    let position: Vec<f32> = (0..8).map(|value| value as f32).collect();
    let (right, left) = arms.split_position(&position);
    assert_eq!(right, None);
    assert_eq!(left.as_deref(), Some(&position[..]));
}

#[test]
fn split_position_with_neither_arm_returns_none_for_both() {
    let arms = Arms::parse("both");
    let position: Vec<f32> = (0..16).map(|value| value as f32).collect();
    let (right, left) = arms.split_position(&position);
    assert_eq!(right, None);
    assert_eq!(left, None);
}

#[test]
fn empty_string_enables_neither_arm() {
    let arms = Arms::parse("");
    assert!(!arms.has_right());
    assert!(!arms.has_left());
}

#[test]
fn empty_tokens_and_repeats_are_harmless() {
    let arms = Arms::parse(",right,,right,");
    assert!(arms.has_right());
    assert!(!arms.has_left());
}

#[test]
fn membership_is_case_sensitive() {
    let arms = Arms::parse("Right,LEFT");
    assert!(!arms.has_right());
    assert!(!arms.has_left());
}

#[test]
fn split_position_ignores_trailing_elements() {
    let arms = Arms::parse("right");
    let position: Vec<i32> = (0..20).collect();
    let (right, left) = arms.split_position(&position);
    assert_eq!(right, Some((0..8).collect::<Vec<i32>>()));
    assert_eq!(left, None);
}

#[test]
fn joining_configurations_enables_either_sides_arms() {
    for (a, b) in [("right", "left"), ("", "left"), ("right ", "x"), ("left", "right,left")] {
        let joined = Arms::parse(&format!("{a},{b}"));
        let (pa, pb) = (Arms::parse(a), Arms::parse(b));
        assert_eq!(joined.has_right(), pa.has_right() || pb.has_right());
        assert_eq!(joined.has_left(), pa.has_left() || pb.has_left());
    }
}
