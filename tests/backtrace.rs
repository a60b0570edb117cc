use errbit::parse_backtrace;

#[test]
fn two_pairs_give_two_frames() {
    let frames = parse_backtrace("foo\nat bar.rs:10:5\nbaz\nat qux.rs:20:7");
    assert_eq!(frames.len(), 2);
    assert_eq!(frames[0].function.as_deref(), Some("foo"));
    assert_eq!(frames[0].file.as_deref(), Some("bar.rs"));
    assert_eq!(frames[0].line, Some(10));
    assert_eq!(frames[0].column, Some(5));
    assert_eq!(frames[1].function.as_deref(), Some("baz"));
    assert_eq!(frames[1].file.as_deref(), Some("qux.rs"));
    assert_eq!(frames[1].line, Some(20));
    assert_eq!(frames[1].column, Some(7));
    assert!(frames[1].code.is_none());
}

#[test]
fn function_line_without_position_is_dropped() {
    let frames = parse_backtrace("lost\nfoo\nat bar.rs:1:2");
    assert_eq!(frames.len(), 1);
    assert_eq!(frames[0].function.as_deref(), Some("foo"));
}

#[test]
fn last_function_line_is_kept() {
    let frames = parse_backtrace("foo\nat bar.rs:1:2\n  tail  \n\n");
    assert_eq!(frames.len(), 2);
    assert_eq!(frames[1].function.as_deref(), Some("tail"));
    assert!(frames[1].file.is_none());
    assert!(frames[1].line.is_none());
    assert!(frames[1].column.is_none());
}

#[test]
fn non_numeric_fields_are_absent() {
    let frames = parse_backtrace("f\nat a.rs:x:9\ng\nat b.rs:3:y\nat c.rs");
    assert_eq!(frames.len(), 3);
    assert_eq!(frames[0].file.as_deref(), Some("a.rs"));
    assert_eq!(frames[0].line, None);
    assert_eq!(frames[0].column, Some(9));
    assert_eq!(frames[1].line, Some(3));
    assert_eq!(frames[1].column, None);
    assert_eq!(frames[2].file.as_deref(), Some("c.rs"));
    assert!(frames[2].function.is_none());
    assert!(frames[2].line.is_none());
}

#[test]
fn empty_text_has_no_frames() {
    assert!(parse_backtrace("").is_empty());
    assert!(parse_backtrace("\n \n\t\n").is_empty());
}

#[test]
fn consecutive_position_lines() {
    let frames = parse_backtrace("  at a.rs:1:1\r\n   at b.rs:2:2");
    assert_eq!(frames.len(), 2);
    assert!(frames[0].function.is_none());
    assert_eq!(frames[1].file.as_deref(), Some("b.rs"));
    assert_eq!(frames[1].line, Some(2));
}

#[test]
fn numbers_read_as_usize_does() {
    let frames = parse_backtrace("at a.rs:+7:99999999999999999999999\nat b.rs:-1:007:5");
    assert_eq!(frames[0].line, Some(7));
    assert_eq!(frames[0].column, None);
    assert_eq!(frames[1].line, None);
    assert_eq!(frames[1].column, Some(7));
}

#[test]
fn at_without_space_is_a_function() {
    let frames = parse_backtrace("at\natx:1");
    assert_eq!(frames.len(), 1);
    assert_eq!(frames[0].function.as_deref(), Some("atx:1"));
}
