use herdr::kitty_keyboard::{KittyKeyboardTracker, KittyOp};
use herdr::text::{char_is_white_space, join_lines, trim};

#[test]
fn white_space_is_that_of_the_standard_library() {
    for u in 0..=0x10ffffu32 {
        if let Some(c) = char::from_u32(u) {
            assert_eq!(char_is_white_space(c), c.is_whitespace(), "{u:x}");
        }
    }
}

#[test]
fn trimming_is_that_of_the_standard_library() {
    for s in ["", " ", "a", "  a b\t\n", "\u{3000}x\u{2003}", "x "] {
        assert_eq!(trim(s), s.trim());
    }
}

#[test]
fn lines_are_joined_by_newlines() {
    assert_eq!(join_lines(&vec![]), "");
    assert_eq!(join_lines(&vec!["a".to_string()]), "a");
    assert_eq!(
        join_lines(&vec!["a".to_string(), String::new(), "b".to_string()]),
        "a\n\nb"
    );
}

#[test]
fn keyboard_registers_are_replayed() {
    let mut tracker = KittyKeyboardTracker::new();
    tracker.observe(b"noise\x1b[>1u\x1b[>31u more \x1b[=2;2u\x1b[<u\x1b[>7u");
    let ansi = tracker.replay_ansi().unwrap();
    let mut other = KittyKeyboardTracker::new();
    other.observe(ansi.as_bytes());
    assert_eq!(other.flags(), tracker.flags());
    assert_eq!(other.stack, tracker.stack);
    assert_eq!(tracker.flags(), 7);
    tracker.apply(KittyOp::Pop { count: 9 });
    assert_eq!(tracker.flags(), 0);
    assert_eq!(tracker.replay_ansi(), None);
}
