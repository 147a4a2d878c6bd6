use mcwrap::sanitize::{filter_for_log, sanitize};

#[test]
fn plain_text_drops_carriage_returns_and_repeated_newlines() {
    assert_eq!(filter_for_log(b"a\r\nb\n\n\nc\r\n"), b"a\nb\nc\n".to_vec());
}

#[test]
fn plain_text_keeps_one_newline_when_not_at_line_start() {
    let mut at_line_start = false;
    let out = sanitize(b"\n\n\nx", &mut at_line_start);
    assert_eq!(out, b"\nx".to_vec());
    assert!(!at_line_start);
}

#[test]
fn leading_newlines_dropped_at_line_start() {
    assert_eq!(filter_for_log(b"\n\nhello"), b"hello".to_vec());
}

#[test]
fn graphic_rendition_kept_verbatim() {
    let input = b"\x1b[31mred\x1b[0m plain \x1b[1;38;2;255;0;0mbold\x1b[m";
    assert_eq!(filter_for_log(input), input.to_vec());
}

#[test]
fn cursor_and_erase_sequences_removed() {
    let input = b"a\x1b[2Kb\x1b[10;5Hc\x1b[Ad\x1b[se\x1b[uf\x1b[2Jg\x1b[1S";
    assert_eq!(filter_for_log(input), b"abcdefg".to_vec());
}

#[test]
fn blank_line_after_stripped_sequence_collapses() {
    assert_eq!(filter_for_log(b"x\n\x1b[K\n\x1b[2K\ny"), b"x\ny".to_vec());
}

#[test]
fn prompt_marker_removed_at_line_start() {
    assert_eq!(filter_for_log(b"> list\r\n"), b"list\n".to_vec());
    assert_eq!(filter_for_log(b"done\n> \nnext\n"), b"done\nnext\n".to_vec());
}

#[test]
fn prompt_marker_kept_mid_line() {
    assert_eq!(filter_for_log(b"a > b"), b"a > b".to_vec());
}

#[test]
fn line_state_carries_across_chunks() {
    let mut at_line_start = true;
    assert_eq!(sanitize(b"abc\n", &mut at_line_start), b"abc\n".to_vec());
    assert!(at_line_start);
    assert_eq!(sanitize(b"> x", &mut at_line_start), b"x".to_vec());
    assert!(!at_line_start);
    assert_eq!(sanitize(b"\n\n", &mut at_line_start), b"\n".to_vec());
    assert!(at_line_start);
}

#[test]
fn unterminated_sequence_dropped() {
    assert_eq!(filter_for_log(b"ok\x1b[3"), b"ok".to_vec());
}

#[test]
fn lone_escape_at_end_passes() {
    assert_eq!(filter_for_log(b"ok\x1b"), b"ok\x1b".to_vec());
}

#[test]
fn empty_chunk_gives_empty_transcript() {
    let mut at_line_start = false;
    assert_eq!(sanitize(b"", &mut at_line_start), Vec::<u8>::new());
    assert!(!at_line_start);
}
