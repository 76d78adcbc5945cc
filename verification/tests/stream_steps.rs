use typeward::input::stream_step::{
    stream_char_step, stream_find_step, stream_prefix_step, stream_trim_step, CharStep, FindStep,
    PrefixStep, ScanStatus, StreamScan, TrimStep,
};
use typeward::input::stream_window::StreamWindow;
use typeward::text::CharClass;

#[test]
fn char_step_decodes_multibyte_chars() {
    let bytes = "é!".as_bytes();
    match stream_char_step(5, None, bytes, false) {
        CharStep::Char(c, w) => assert_eq!((c, w), ('é', 2)),
        other => panic!("unexpected {other:?}"),
    }
}

#[test]
fn char_step_waits_for_missing_bytes() {
    let bytes = "é".as_bytes();
    assert!(matches!(stream_char_step(0, None, &bytes[..1], false), CharStep::NeedMore));
    assert!(matches!(stream_char_step(0, None, &[], false), CharStep::NeedMore));
}

#[test]
fn char_step_ends_at_bound_and_source_end() {
    assert!(matches!(stream_char_step(3, Some(3), b"a", false), CharStep::End));
    assert!(matches!(stream_char_step(0, None, &[], true), CharStep::End));
}

#[test]
fn char_step_reports_invalid_utf8_as_fatal() {
    let CharStep::Invalid(err) = stream_char_step(0, None, &[0xff], false) else { panic!() };
    assert!(err.is_fatal());
    assert!(err.display_string().ends_with("invalid UTF-8 input: invalid leading byte"));

    let bytes = "é".as_bytes();
    let CharStep::Invalid(err) = stream_char_step(0, Some(1), bytes, false) else { panic!() };
    assert!(err.display_string().ends_with("invalid UTF-8 input: unexpected end of bounded stream input"));

    let CharStep::Invalid(err) = stream_char_step(0, None, &bytes[..1], true) else { panic!() };
    assert!(err.display_string().ends_with("invalid UTF-8 input: unexpected end of stream"));

    let CharStep::Invalid(err) = stream_char_step(0, None, &[0xc3, 0x41], false) else { panic!() };
    assert!(err.is_fatal());
    assert!(err.display_string().contains("invalid UTF-8 input: "));
}

#[test]
fn prefix_step_outcomes() {
    assert_eq!(stream_prefix_step(4, None, b"true", false, b"true"), PrefixStep::Matched(8));
    assert_eq!(stream_prefix_step(0, None, b"tx", false, b"true"), PrefixStep::Mismatch);
    assert_eq!(stream_prefix_step(0, None, b"tr", false, b"true"), PrefixStep::NeedMore);
    assert_eq!(stream_prefix_step(0, None, b"tr", true, b"true"), PrefixStep::Ended);
    assert_eq!(stream_prefix_step(0, Some(3), b"true", false, b"true"), PrefixStep::Ended);
}

#[test]
fn find_step_outcomes() {
    assert!(matches!(stream_find_step(2, None, b"ab", false, b"ab"), FindStep::Found(2)));
    assert!(matches!(stream_find_step(2, None, "éab".as_bytes(), false, b"ab"), FindStep::Advance(4)));
    assert!(matches!(stream_find_step(2, None, b"", true, b"ab"), FindStep::NotFound));
    assert!(matches!(stream_find_step(2, None, b"x", true, b""), FindStep::Found(2)));
}

#[test]
fn trim_step_outcomes() {
    assert_eq!(stream_trim_step(10, None, b"  x", false), TrimStep::Done(12));
    assert_eq!(stream_trim_step(10, None, b"   ", false), TrimStep::NeedMore(13));
    assert_eq!(stream_trim_step(10, None, b"   ", true), TrimStep::Done(13));
    assert_eq!(stream_trim_step(10, Some(11), b"   ", false), TrimStep::Done(11));
}

#[test]
fn scan_takes_class_characters_across_feeds() {
    let text = "abc123";
    let mut scan = StreamScan::new(0, CharClass::Alpha, true);
    loop {
        let at = scan.cursor();
        let end = (at + 4).min(text.len());
        match scan.feed(None, &text.as_bytes()[at..end], end == text.len()) {
            ScanStatus::Continue => {},
            ScanStatus::Done => break,
            other => panic!("unexpected {other:?}"),
        }
    }
    assert_eq!(scan.finish(), ("abc".to_string(), 3));
}

#[test]
fn window_replay_and_slice_checks() {
    let mut window = StreamWindow::<3>::new();
    window.record_read(3);
    window.record_read(3);
    assert_eq!(window.start(), 3);
    let err = window.check_replay(0).unwrap_err();
    assert!(err.is_fatal());
    assert!(err.display_string().contains("replay window"));
    assert!(window.check_replay(3).is_ok());
    assert!(window.slice_bounds(0, None, 3).unwrap_err().display_string().contains("replay window"));
    assert_eq!(window.slice_bounds(4, None, 5).unwrap(), (4, Some(5)));
    assert_eq!(
        window.slice_bounds(5, None, 4).unwrap_err().display_string(),
        "fatal: invalid stream bounds while slicing input"
    );
    assert_eq!(window.input_len(4, Some(6)), 2);
}
