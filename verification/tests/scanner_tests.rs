use evdev::KeyCode;
use pocket_scan::action::Action;
use pocket_scan::scanner::{
    is_scanner_name, key_to_char, mentions_scanner, ScanState, BURST_TIMEOUT_NANOS, KEY_0, KEY_1, KEY_9,
    KEY_A, KEY_APOSTROPHE, KEY_L, KEY_M, KEY_P, KEY_Q, KEY_BACKSLASH, KEY_COMMA, KEY_DOT, KEY_ENTER, KEY_EQUAL, KEY_GRAVE,
    KEY_KPENTER, KEY_LEFTBRACE, KEY_LEFTSHIFT, KEY_MINUS, KEY_RIGHTBRACE, KEY_RIGHTSHIFT,
    KEY_SEMICOLON, KEY_SLASH, KEY_SPACE, KEY_Z,
};

#[test]
fn key_codes_match_evdev() {
    assert_eq!(KeyCode::KEY_1.0, KEY_1);
    assert_eq!(KeyCode::KEY_9.0, KEY_9);
    assert_eq!(KeyCode::KEY_0.0, KEY_0);
    assert_eq!(KeyCode::KEY_MINUS.0, KEY_MINUS);
    assert_eq!(KeyCode::KEY_EQUAL.0, KEY_EQUAL);
    assert_eq!(KeyCode::KEY_LEFTBRACE.0, KEY_LEFTBRACE);
    assert_eq!(KeyCode::KEY_RIGHTBRACE.0, KEY_RIGHTBRACE);
    assert_eq!(KeyCode::KEY_ENTER.0, KEY_ENTER);
    assert_eq!(KeyCode::KEY_A.0, KEY_A);
    assert_eq!(KeyCode::KEY_SEMICOLON.0, KEY_SEMICOLON);
    assert_eq!(KeyCode::KEY_APOSTROPHE.0, KEY_APOSTROPHE);
    assert_eq!(KeyCode::KEY_GRAVE.0, KEY_GRAVE);
    assert_eq!(KeyCode::KEY_LEFTSHIFT.0, KEY_LEFTSHIFT);
    assert_eq!(KeyCode::KEY_BACKSLASH.0, KEY_BACKSLASH);
    assert_eq!(KeyCode::KEY_Z.0, KEY_Z);
    assert_eq!(KeyCode::KEY_COMMA.0, KEY_COMMA);
    assert_eq!(KeyCode::KEY_DOT.0, KEY_DOT);
    assert_eq!(KeyCode::KEY_SLASH.0, KEY_SLASH);
    assert_eq!(KeyCode::KEY_RIGHTSHIFT.0, KEY_RIGHTSHIFT);
    assert_eq!(KeyCode::KEY_SPACE.0, KEY_SPACE);
    assert_eq!(KeyCode::KEY_KPENTER.0, KEY_KPENTER);
}

#[test]
fn each_letter_key_types_its_letter() {
    let letters = [
        (KeyCode::KEY_A, 'a'), (KeyCode::KEY_B, 'b'), (KeyCode::KEY_C, 'c'), (KeyCode::KEY_D, 'd'),
        (KeyCode::KEY_E, 'e'), (KeyCode::KEY_F, 'f'), (KeyCode::KEY_G, 'g'), (KeyCode::KEY_H, 'h'),
        (KeyCode::KEY_I, 'i'), (KeyCode::KEY_J, 'j'), (KeyCode::KEY_K, 'k'), (KeyCode::KEY_L, 'l'),
        (KeyCode::KEY_M, 'm'), (KeyCode::KEY_N, 'n'), (KeyCode::KEY_O, 'o'), (KeyCode::KEY_P, 'p'),
        (KeyCode::KEY_Q, 'q'), (KeyCode::KEY_R, 'r'), (KeyCode::KEY_S, 's'), (KeyCode::KEY_T, 't'),
        (KeyCode::KEY_U, 'u'), (KeyCode::KEY_V, 'v'), (KeyCode::KEY_W, 'w'), (KeyCode::KEY_X, 'x'),
        (KeyCode::KEY_Y, 'y'), (KeyCode::KEY_Z, 'z'),
    ];
    for (key, c) in letters {
        assert_eq!(key_to_char(key.0, false), Some(c));
        assert_eq!(key_to_char(key.0, true), Some(c.to_ascii_uppercase()));
    }
    assert_eq!(KeyCode::KEY_Q.0, KEY_Q);
    assert_eq!(KeyCode::KEY_P.0, KEY_P);
    assert_eq!(KeyCode::KEY_L.0, KEY_L);
    assert_eq!(KeyCode::KEY_M.0, KEY_M);
}

#[test]
fn keys_that_type_nothing() {
    for key in [
        KeyCode::KEY_ENTER, KeyCode::KEY_KPENTER, KeyCode::KEY_TAB, KeyCode::KEY_ESC,
        KeyCode::KEY_BACKSPACE, KeyCode::KEY_LEFTCTRL, KeyCode::KEY_LEFTALT,
        KeyCode::KEY_LEFTSHIFT, KeyCode::KEY_RIGHTSHIFT,
    ] {
        assert_eq!(key_to_char(key.0, false), None);
        assert_eq!(key_to_char(key.0, true), None);
    }
}

#[test]
fn every_printable_ascii_character_has_a_key() {
    for c in ' '..='~' {
        let found = (0u16..=255).any(|k| key_to_char(k, false) == Some(c) || key_to_char(k, true) == Some(c));
        assert!(found, "no key types {c:?}");
    }
}

#[test]
fn digits_and_punctuation() {
    let plain: Vec<Option<char>> = (KEY_1..=KEY_9).map(|k| key_to_char(k, false)).collect();
    let shifted: Vec<Option<char>> = (KEY_1..=KEY_9).map(|k| key_to_char(k, true)).collect();
    let want_plain: Vec<Option<char>> = "123456789".chars().map(Some).collect();
    let want_shifted: Vec<Option<char>> = "!@#$%^&*(".chars().map(Some).collect();
    assert_eq!(plain, want_plain);
    assert_eq!(shifted, want_shifted);
    assert_eq!(key_to_char(KEY_0, false), Some('0'));
    assert_eq!(key_to_char(KEY_0, true), Some(')'));
    assert_eq!(key_to_char(KEY_MINUS, false), Some('-'));
    assert_eq!(key_to_char(KEY_MINUS, true), Some('_'));
    assert_eq!(key_to_char(KEY_EQUAL, false), Some('='));
    assert_eq!(key_to_char(KEY_EQUAL, true), Some('+'));
    assert_eq!(key_to_char(KEY_SLASH, false), Some('/'));
    assert_eq!(key_to_char(KEY_SLASH, true), Some('?'));
    assert_eq!(key_to_char(KEY_DOT, false), Some('.'));
    assert_eq!(key_to_char(KEY_DOT, true), Some('>'));
    assert_eq!(key_to_char(KEY_COMMA, false), Some(','));
    assert_eq!(key_to_char(KEY_COMMA, true), Some('<'));
    assert_eq!(key_to_char(KEY_LEFTBRACE, false), Some('['));
    assert_eq!(key_to_char(KEY_LEFTBRACE, true), Some('{'));
    assert_eq!(key_to_char(KEY_RIGHTBRACE, false), Some(']'));
    assert_eq!(key_to_char(KEY_RIGHTBRACE, true), Some('}'));
    assert_eq!(key_to_char(KEY_SEMICOLON, false), Some(';'));
    assert_eq!(key_to_char(KEY_SEMICOLON, true), Some(':'));
    assert_eq!(key_to_char(KEY_APOSTROPHE, false), Some('\''));
    assert_eq!(key_to_char(KEY_APOSTROPHE, true), Some('"'));
    assert_eq!(key_to_char(KEY_GRAVE, false), Some('`'));
    assert_eq!(key_to_char(KEY_GRAVE, true), Some('~'));
    assert_eq!(key_to_char(KEY_BACKSLASH, false), Some('\\'));
    assert_eq!(key_to_char(KEY_BACKSLASH, true), Some('|'));
    assert_eq!(key_to_char(KEY_SPACE, false), Some(' '));
    assert_eq!(key_to_char(KEY_SPACE, true), Some(' '));
    assert_eq!(key_to_char(KEY_ENTER, false), None);
    assert_eq!(key_to_char(KEY_LEFTSHIFT + 100, false), None);
    assert_eq!(key_to_char(0, false), None);
}

#[test]
fn scanner_names() {
    assert!(is_scanner_name("Honeywell Imaging & Mobility 1900"));
    assert!(is_scanner_name("USB BARCODE Reader"));
    assert!(is_scanner_name("Symbol Scanner"));
    assert!(!is_scanner_name("AT Translated Set 2 keyboard"));
    assert!(!is_scanner_name(""));
    assert!(mentions_scanner("xbarcodex"));
    assert!(!mentions_scanner("BARCODE"));
}

const MS: u64 = 1_000_000;

fn press(st: &mut ScanState, code: u16, now: u64) -> Option<Action> {
    st.on_key(code, 1, now)
}

#[test]
fn burst_becomes_a_scan() {
    let mut st = ScanState::new();
    assert_eq!(press(&mut st, KEY_A, 0), Some(Action::SandStart));
    assert_eq!(st.on_key(KEY_A, 0, MS), None); // release
    assert_eq!(st.on_key(KEY_LEFTSHIFT, 1, 2 * MS), None);
    assert!(st.shift);
    assert_eq!(press(&mut st, KEY_A + 1, 3 * MS), None);
    assert_eq!(st.on_key(KEY_LEFTSHIFT, 0, 4 * MS), None);
    assert!(!st.shift);
    assert_eq!(press(&mut st, KEY_1, 5 * MS), None);
    assert_eq!(st.on_key(KEY_1, 2, 6 * MS), None); // auto-repeat is ignored
    assert_eq!(press(&mut st, KEY_ENTER, 7 * MS), Some(Action::Scan("aS1".to_string())));
    assert_eq!(st.buf, "");
    assert_eq!(st.burst_start, None);
    // the next key starts a new burst
    assert_eq!(press(&mut st, KEY_DOT, 8 * MS), Some(Action::SandStart));
    assert_eq!(st.on_key(KEY_KPENTER, 1, 9 * MS), Some(Action::Scan(".".to_string())));
}

#[test]
fn enter_on_empty_buffer_reports_nothing() {
    let mut st = ScanState::new();
    assert_eq!(press(&mut st, KEY_ENTER, 0), None);
    assert_eq!(st.on_key(KEY_ENTER, 0, 1), None);
}

#[test]
fn silent_key_still_throws_sand_once() {
    let mut st = ScanState::new();
    // a key that types nothing still starts a burst
    assert_eq!(press(&mut st, 200, 0), Some(Action::SandStart));
    assert_eq!(st.buf, "");
    // the buffer is still empty but the burst is fresh: no second throw
    assert_eq!(press(&mut st, 200, BURST_TIMEOUT_NANOS), None);
    // after a long gap with an empty buffer, sand again
    assert_eq!(press(&mut st, KEY_A, 2 * BURST_TIMEOUT_NANOS + 1), Some(Action::SandStart));
    // with characters in the buffer, no sand however long the gap
    assert_eq!(press(&mut st, KEY_A, 10 * BURST_TIMEOUT_NANOS), None);
    assert_eq!(st.buf, "aa");
}

#[test]
fn clock_going_backwards_counts_as_no_gap() {
    let mut st = ScanState::new();
    assert_eq!(press(&mut st, 200, 10 * BURST_TIMEOUT_NANOS), Some(Action::SandStart));
    assert_eq!(press(&mut st, 200, 0), None);
}
