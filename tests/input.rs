use piano_rs::color::Color;
use piano_rs::keyboard::{pitch_for_key, process_key, Key};
use piano_rs::playback::KeyOutcome;
use piano_rs::record::{parse_decimal, parse_record};

#[test]
fn decimal_values() {
    assert_eq!(parse_decimal(b"0"), Some(0));
    assert_eq!(parse_decimal(b"250"), Some(250));
    assert_eq!(parse_decimal(b"007"), Some(7));
    assert_eq!(parse_decimal(b"18446744073709551615"), Some(u64::MAX));
}

#[test]
fn decimal_rejects() {
    assert_eq!(parse_decimal(b""), None);
    assert_eq!(parse_decimal(b"12a"), None);
    assert_eq!(parse_decimal(b"-1"), None);
    assert_eq!(parse_decimal(b"18446744073709551616"), None);
}

#[test]
fn record_line_is_read() {
    let r = parse_record(b"c#4 250 100").unwrap();
    assert_eq!(r.pitch, b"c#4".to_vec());
    assert_eq!(r.duration_ms, 250);
    assert_eq!(r.delay_ms, 100);
}

#[test]
fn malformed_record_lines_are_rejected() {
    assert!(parse_record(b"").is_none());
    assert!(parse_record(b"c4").is_none());
    assert!(parse_record(b"c4 250").is_none());
    assert!(parse_record(b" 250 100").is_none());
    assert!(parse_record(b"c4 250 1 0").is_none());
    assert!(parse_record(b"c4 x 100").is_none());
}

#[test]
fn key_layout() {
    assert_eq!(pitch_for_key('a'), Some(b"c4".to_vec()));
    assert_eq!(pitch_for_key('w'), Some(b"c#4".to_vec()));
    assert_eq!(pitch_for_key('h'), Some(b"a4".to_vec()));
    assert_eq!(pitch_for_key('k'), Some(b"c5".to_vec()));
    assert_eq!(pitch_for_key('z'), None);
}

#[test]
fn key_outcomes() {
    assert!(matches!(process_key(Key::Esc, Color::Blue, 100), KeyOutcome::Quit));
    assert!(matches!(process_key(Key::Other, Color::Blue, 100), KeyOutcome::Ignored));
    assert!(matches!(process_key(Key::Char('z'), Color::Blue, 100), KeyOutcome::Ignored));
    match process_key(Key::Char('d'), Color::Green, 120) {
        KeyOutcome::Note(n) => {
            assert_eq!(n.pitch, b"e4".to_vec());
            assert_eq!(n.color, Color::Green);
            assert_eq!(n.duration_ms, 120);
        }
        other => panic!("unexpected outcome {:?}", other),
    }
}
