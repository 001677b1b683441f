use boss_engine::fsops::{read_text_content, slice_lines};

#[test]
fn read_window_of_lines() {
    let out = read_text_content("a\nb\nc\nd\ne", Some(2), Some(2));
    assert_eq!(out, "b\nc");
}

#[test]
fn read_whole_file_when_no_window_given() {
    assert_eq!(read_text_content("a\nb\nc", None, None), "a\nb\nc");
    assert_eq!(read_text_content("", None, None), "");
}

#[test]
fn read_from_line_to_end_when_no_limit() {
    assert_eq!(read_text_content("a\nb\nc\nd", Some(3), None), "c\nd");
}

#[test]
fn read_limit_without_line_starts_at_first() {
    assert_eq!(read_text_content("a\nb\nc", None, Some(2)), "a\nb");
}

#[test]
fn read_line_zero_saturates_to_first() {
    assert_eq!(read_text_content("a\nb", Some(0), Some(1)), "a");
}

#[test]
fn read_window_past_end_is_empty() {
    assert_eq!(read_text_content("a\nb", Some(5), Some(2)), "");
    assert_eq!(read_text_content("a\nb", Some(1), Some(0)), "");
}

#[test]
fn slicing_handles_line_ending_shapes() {
    // a trailing newline yields no extra empty line
    assert_eq!(slice_lines("a\nb\n", 0, 10), "a\nb");
    // \r\n line endings lose the \r
    assert_eq!(slice_lines("a\r\nb\r\nc", 0, 10), "a\nb\nc");
    // a bare \r mid-line or on the final line is kept
    assert_eq!(slice_lines("a\rb\nlast\r", 0, 10), "a\rb\nlast\r");
    // empty lines survive
    assert_eq!(slice_lines("\n\nx", 0, 10), "\n\nx");
    assert_eq!(slice_lines("", 0, 10), "");
}
