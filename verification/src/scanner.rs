//! Reading a USB barcode scanner that types like a keyboard: key codes to
//! characters, and the burst state machine that turns key events into scans.
use vstd::prelude::*;
use vstd::string::*;
use vstd::utf8::is_ascii_chars;
use crate::action::Action;
use crate::text::{contains_seq, occurs_at, push_char, str_contains};

verus! {

// Linux input event codes (input-event-codes.h) of the keys a scanner types.
pub const KEY_1: u16 = 2;
pub const KEY_9: u16 = 10;
pub const KEY_0: u16 = 11;
pub const KEY_MINUS: u16 = 12;
pub const KEY_EQUAL: u16 = 13;
pub const KEY_Q: u16 = 16;
pub const KEY_P: u16 = 25;
pub const KEY_LEFTBRACE: u16 = 26;
pub const KEY_RIGHTBRACE: u16 = 27;
pub const KEY_ENTER: u16 = 28;
pub const KEY_A: u16 = 30;
pub const KEY_L: u16 = 38;
pub const KEY_SEMICOLON: u16 = 39;
pub const KEY_APOSTROPHE: u16 = 40;
pub const KEY_GRAVE: u16 = 41;
pub const KEY_LEFTSHIFT: u16 = 42;
pub const KEY_BACKSLASH: u16 = 43;
pub const KEY_Z: u16 = 44;
pub const KEY_M: u16 = 50;
pub const KEY_COMMA: u16 = 51;
pub const KEY_DOT: u16 = 52;
pub const KEY_SLASH: u16 = 53;
pub const KEY_RIGHTSHIFT: u16 = 54;
pub const KEY_SPACE: u16 = 57;
pub const KEY_KPENTER: u16 = 96;

/// A gap longer than this (400 ms, in nanoseconds) ends a scan burst that
/// had no Enter (a bad read).
pub const BURST_TIMEOUT_NANOS: u64 = 400_000_000;

/// Pause after a failed read of the device, in milliseconds.
pub const READ_ERROR_PAUSE_MILLIS: u64 = 100;

/// The shifted characters of the digit keys `1` to `9`.
pub open spec fn shifted_digit(d: int) -> char {
    if d == 0 { '!' } else if d == 1 { '@' } else if d == 2 { '#' } else if d == 3 { '$' }
    else if d == 4 { '%' } else if d == 5 { '^' } else if d == 6 { '&' } else if d == 7 { '*' }
    else { '(' }
}

/// A key with a plain and a shifted character.
pub open spec fn pick(shift: bool, plain: char, shifted: char) -> Option<char> {
    Some(if shift { shifted } else { plain })
}

/// The letters of the three letter rows of the keyboard, in key-code order:
/// `KEY_Q..=KEY_P`, `KEY_A..=KEY_L` and `KEY_Z..=KEY_M`.
pub open spec fn top_row() -> Seq<char> {
    seq!['q', 'w', 'e', 'r', 't', 'y', 'u', 'i', 'o', 'p']
}

pub open spec fn home_row() -> Seq<char> {
    seq!['a', 's', 'd', 'f', 'g', 'h', 'j', 'k', 'l']
}

pub open spec fn bottom_row() -> Seq<char> {
    seq!['z', 'x', 'c', 'v', 'b', 'n', 'm']
}

/// The lower-case letter a letter key names, `None` for other keys.
pub open spec fn letter_of(code: u16) -> Option<char> {
    if KEY_Q <= code <= KEY_P {
        Some(top_row()[code - KEY_Q])
    } else if KEY_A <= code <= KEY_L {
        Some(home_row()[code - KEY_A])
    } else if KEY_Z <= code <= KEY_M {
        Some(bottom_row()[code - KEY_Z])
    } else {
        None
    }
}

/// The upper-case form of an ASCII lower-case letter.
pub open spec fn ascii_upper(c: char) -> char {
    ((c as u32) - 32) as char
}

/// The character a key types: letters (upper-case with shift), digits and
/// their shifted symbols, the punctuation keys and space.
pub open spec fn key_char(code: u16, shift: bool) -> Option<char> {
    if letter_of(code) is Some {
        let l = letter_of(code)->0;
        Some(if shift { ascii_upper(l) } else { l })
    } else if KEY_1 <= code <= KEY_9 {
        Some(if shift { shifted_digit(code - KEY_1) } else { (49 + (code - KEY_1)) as char })
    } else if code == KEY_0 {
        pick(shift, '0', ')')
    } else if code == KEY_MINUS {
        pick(shift, '-', '_')
    } else if code == KEY_EQUAL {
        pick(shift, '=', '+')
    } else if code == KEY_SLASH {
        pick(shift, '/', '?')
    } else if code == KEY_DOT {
        pick(shift, '.', '>')
    } else if code == KEY_COMMA {
        pick(shift, ',', '<')
    } else if code == KEY_SEMICOLON {
        pick(shift, ';', ':')
    } else if code == KEY_APOSTROPHE {
        pick(shift, '\'', '"')
    } else if code == KEY_LEFTBRACE {
        pick(shift, '[', '{')
    } else if code == KEY_RIGHTBRACE {
        pick(shift, ']', '}')
    } else if code == KEY_BACKSLASH {
        pick(shift, '\\', '|')
    } else if code == KEY_GRAVE {
        pick(shift, '`', '~')
    } else if code == KEY_SPACE {
        Some(' ')
    } else {
        None
    }
}

/// A key, and whether shift is held, that types the printable ASCII character `c`.
pub open spec fn key_for(c: char) -> (u16, bool) {
    if c == 'q' { (16u16, false) } else
    if c == 'Q' { (16u16, true) } else
    if c == 'w' { (17u16, false) } else
    if c == 'W' { (17u16, true) } else
    if c == 'e' { (18u16, false) } else
    if c == 'E' { (18u16, true) } else
    if c == 'r' { (19u16, false) } else
    if c == 'R' { (19u16, true) } else
    if c == 't' { (20u16, false) } else
    if c == 'T' { (20u16, true) } else
    if c == 'y' { (21u16, false) } else
    if c == 'Y' { (21u16, true) } else
    if c == 'u' { (22u16, false) } else
    if c == 'U' { (22u16, true) } else
    if c == 'i' { (23u16, false) } else
    if c == 'I' { (23u16, true) } else
    if c == 'o' { (24u16, false) } else
    if c == 'O' { (24u16, true) } else
    if c == 'p' { (25u16, false) } else
    if c == 'P' { (25u16, true) } else
    if c == 'a' { (30u16, false) } else
    if c == 'A' { (30u16, true) } else
    if c == 's' { (31u16, false) } else
    if c == 'S' { (31u16, true) } else
    if c == 'd' { (32u16, false) } else
    if c == 'D' { (32u16, true) } else
    if c == 'f' { (33u16, false) } else
    if c == 'F' { (33u16, true) } else
    if c == 'g' { (34u16, false) } else
    if c == 'G' { (34u16, true) } else
    if c == 'h' { (35u16, false) } else
    if c == 'H' { (35u16, true) } else
    if c == 'j' { (36u16, false) } else
    if c == 'J' { (36u16, true) } else
    if c == 'k' { (37u16, false) } else
    if c == 'K' { (37u16, true) } else
    if c == 'l' { (38u16, false) } else
    if c == 'L' { (38u16, true) } else
    if c == 'z' { (44u16, false) } else
    if c == 'Z' { (44u16, true) } else
    if c == 'x' { (45u16, false) } else
    if c == 'X' { (45u16, true) } else
    if c == 'c' { (46u16, false) } else
    if c == 'C' { (46u16, true) } else
    if c == 'v' { (47u16, false) } else
    if c == 'V' { (47u16, true) } else
    if c == 'b' { (48u16, false) } else
    if c == 'B' { (48u16, true) } else
    if c == 'n' { (49u16, false) } else
    if c == 'N' { (49u16, true) } else
    if c == 'm' { (50u16, false) } else
    if c == 'M' { (50u16, true) } else
    if c == '1' { (2u16, false) } else
    if c == '2' { (3u16, false) } else
    if c == '3' { (4u16, false) } else
    if c == '4' { (5u16, false) } else
    if c == '5' { (6u16, false) } else
    if c == '6' { (7u16, false) } else
    if c == '7' { (8u16, false) } else
    if c == '8' { (9u16, false) } else
    if c == '9' { (10u16, false) } else
    if c == '!' { (2u16, true) } else
    if c == '@' { (3u16, true) } else
    if c == '#' { (4u16, true) } else
    if c == '$' { (5u16, true) } else
    if c == '%' { (6u16, true) } else
    if c == '^' { (7u16, true) } else
    if c == '&' { (8u16, true) } else
    if c == '*' { (9u16, true) } else
    if c == '(' { (10u16, true) } else
    if c == '0' { (11u16, false) } else
    if c == ')' { (11u16, true) } else
    if c == '-' { (12u16, false) } else
    if c == '_' { (12u16, true) } else
    if c == '=' { (13u16, false) } else
    if c == '+' { (13u16, true) } else
    if c == '/' { (53u16, false) } else
    if c == '?' { (53u16, true) } else
    if c == '.' { (52u16, false) } else
    if c == '>' { (52u16, true) } else
    if c == ',' { (51u16, false) } else
    if c == '<' { (51u16, true) } else
    if c == ';' { (39u16, false) } else
    if c == ':' { (39u16, true) } else
    if c == '\'' { (40u16, false) } else
    if c == '"' { (40u16, true) } else
    if c == '[' { (26u16, false) } else
    if c == '{' { (26u16, true) } else
    if c == ']' { (27u16, false) } else
    if c == '}' { (27u16, true) } else
    if c == '\\' { (43u16, false) } else
    if c == '|' { (43u16, true) } else
    if c == '`' { (41u16, false) } else
    if c == '~' { (41u16, true) } else
    if c == ' ' { (57u16, false) } else
    { (0u16, false) }
}

/// Every printable ASCII character, from space to `~`, is typed by some key,
/// with or without shift: a scanner can deliver any printable payload.
pub proof fn lemma_printable_ascii_has_a_key(c: char)
    requires
        ' ' <= c <= '~',
    ensures
        key_char(key_for(c).0, key_for(c).1) == Some(c),
{
}

/// The lower-case letter of a letter key.
fn letter_key(code: u16) -> (l: Option<char>)
    ensures
        l == letter_of(code),
        l matches Some(c) ==> 'a' <= c <= 'z',
{
    let l = match code {
        16 => Some('q'), 17 => Some('w'), 18 => Some('e'), 19 => Some('r'), 20 => Some('t'),
        21 => Some('y'), 22 => Some('u'), 23 => Some('i'), 24 => Some('o'), 25 => Some('p'),
        30 => Some('a'), 31 => Some('s'), 32 => Some('d'), 33 => Some('f'), 34 => Some('g'),
        35 => Some('h'), 36 => Some('j'), 37 => Some('k'), 38 => Some('l'),
        44 => Some('z'), 45 => Some('x'), 46 => Some('c'), 47 => Some('v'), 48 => Some('b'),
        49 => Some('n'), 50 => Some('m'),
        _ => None,
    };
    assert(l == letter_of(code));
    l
}

fn shifted_digit_char(d: u16) -> (c: char)
    requires
        d < 9,
    ensures
        c == shifted_digit(d as int),
{
    match d {
        0 => '!', 1 => '@', 2 => '#', 3 => '$', 4 => '%', 5 => '^', 6 => '&', 7 => '*', _ => '(',
    }
}

/// The character a key types, `None` for keys that type nothing.
pub fn key_to_char(code: u16, shift: bool) -> (c: Option<char>)
    ensures
        c == key_char(code, shift),
{
    if let Some(l) = letter_key(code) {
        if shift {
            Some(((l as u8) - 32) as char)
        } else {
            Some(l)
        }
    } else if KEY_1 <= code && code <= KEY_9 {
        let d = code - KEY_1;
        if !shift {
            Some((49u8 + d as u8) as char)
        } else {
            Some(shifted_digit_char(d))
        }
    } else if code == KEY_0 {
        Some(if shift { ')' } else { '0' })
    } else if code == KEY_MINUS {
        Some(if shift { '_' } else { '-' })
    } else if code == KEY_EQUAL {
        Some(if shift { '+' } else { '=' })
    } else if code == KEY_SLASH {
        Some(if shift { '?' } else { '/' })
    } else if code == KEY_DOT {
        Some(if shift { '>' } else { '.' })
    } else if code == KEY_COMMA {
        Some(if shift { '<' } else { ',' })
    } else if code == KEY_SEMICOLON {
        Some(if shift { ':' } else { ';' })
    } else if code == KEY_APOSTROPHE {
        Some(if shift { '"' } else { '\'' })
    } else if code == KEY_LEFTBRACE {
        Some(if shift { '{' } else { '[' })
    } else if code == KEY_RIGHTBRACE {
        Some(if shift { '}' } else { ']' })
    } else if code == KEY_BACKSLASH {
        Some(if shift { '|' } else { '\\' })
    } else if code == KEY_GRAVE {
        Some(if shift { '~' } else { '`' })
    } else if code == KEY_SPACE {
        Some(' ')
    } else {
        None
    }
}

/// Names the lower-case form of a text (Unicode lowercase mapping).
pub uninterp spec fn lowercase(s: Seq<char>) -> Seq<char>;

/// The lower-case form of an ASCII character: `A`-`Z` become `a`-`z`, every
/// other character stays.
pub open spec fn ascii_lower(c: char) -> char {
    if 'A' <= c <= 'Z' {
        ((c as u32) + 32) as char
    } else {
        c
    }
}

/// The lower-case form of an ASCII text, character by character.
pub open spec fn ascii_lowered(s: Seq<char>) -> Seq<char> {
    s.map_values(|c: char| ascii_lower(c))
}

/// Lower-cases a text.
///
/// Trusted: calls `str::to_lowercase` from std. The contract claims that the
/// result is the named lower-case form of the input and, for ASCII text, what
/// std documents of the Unicode mapping there: `A`-`Z` become `a`-`z` and the
/// other characters stay as they are. For other text the mapping is not stated.
#[verifier::external_body]
fn to_lowercase(s: &str) -> (lower: String)
    ensures
        lower@ == lowercase(s@),
        is_ascii_chars(s@) ==> lower@ == ascii_lowered(s@),
{
    s.to_lowercase()
}

/// A lower-cased device name names a barcode scanner: it mentions
/// `barcode`, `scanner` or `honeywell`.
pub open spec fn names_scanner(lowered: Seq<char>) -> bool {
    contains_seq(lowered, "barcode"@) || contains_seq(lowered, "scanner"@) || contains_seq(lowered, "honeywell"@)
}

/// A lower-cased name names a scanner exactly when one of the words
/// `barcode`, `scanner` or `honeywell` appears in it as a block of characters,
/// and no other name does.
pub proof fn lemma_scanner_words(s: Seq<char>)
    ensures
        names_scanner(s) <==> (exists|i: int|
            0 <= i && i + "barcode"@.len() <= s.len() && #[trigger] s.subrange(i, i + "barcode"@.len()) == "barcode"@)
            || (exists|i: int|
            0 <= i && i + "scanner"@.len() <= s.len() && #[trigger] s.subrange(i, i + "scanner"@.len()) == "scanner"@)
            || (exists|i: int|
            0 <= i && i + "honeywell"@.len() <= s.len() && #[trigger] s.subrange(i, i + "honeywell"@.len())
                == "honeywell"@),
{
    if exists|i: int|
        0 <= i && i + "barcode"@.len() <= s.len() && #[trigger] s.subrange(i, i + "barcode"@.len()) == "barcode"@ {
        let i = choose|i: int|
            0 <= i && i + "barcode"@.len() <= s.len() && #[trigger] s.subrange(i, i + "barcode"@.len()) == "barcode"@;
        assert(occurs_at(s, "barcode"@, i));
    }
    if exists|i: int|
        0 <= i && i + "scanner"@.len() <= s.len() && #[trigger] s.subrange(i, i + "scanner"@.len()) == "scanner"@ {
        let i = choose|i: int|
            0 <= i && i + "scanner"@.len() <= s.len() && #[trigger] s.subrange(i, i + "scanner"@.len()) == "scanner"@;
        assert(occurs_at(s, "scanner"@, i));
    }
    if exists|i: int|
        0 <= i && i + "honeywell"@.len() <= s.len() && #[trigger] s.subrange(i, i + "honeywell"@.len())
            == "honeywell"@ {
        let i = choose|i: int|
            0 <= i && i + "honeywell"@.len() <= s.len() && #[trigger] s.subrange(i, i + "honeywell"@.len())
                == "honeywell"@;
        assert(occurs_at(s, "honeywell"@, i));
    }
}

/// Whether an already lower-cased device name names a barcode scanner.
pub fn mentions_scanner(lowered: &str) -> (res: bool)
    ensures
        res == names_scanner(lowered@),
{
    str_contains(lowered, "barcode") || str_contains(lowered, "scanner") || str_contains(lowered, "honeywell")
}

/// Whether an input device, by its name, is a HID wedge barcode scanner.
pub fn is_scanner_name(name: &str) -> (res: bool)
    ensures
        res == names_scanner(lowercase(name@)),
        is_ascii_chars(name@) ==> res == names_scanner(ascii_lowered(name@)),
{
    let lower = to_lowercase(name);
    mentions_scanner(lower.as_str())
}

/// What the burst state machine signals, in terms of characters.
pub enum ScanSignal {
    /// First keystroke of a burst.
    SandStart,
    /// A complete payload.
    Scan(Seq<char>),
}

/// The state of the scanner reader, as values.
pub struct ScanModel {
    pub buf: Seq<char>,
    pub shift: bool,
    pub burst_start: Option<u64>,
}

/// Time from `start` to `now`, zero when `now` is earlier.
pub open spec fn elapsed(start: u64, now: u64) -> int {
    if now >= start { now - start } else { 0 }
}

/// Whether a key press at `now` begins a new burst.
pub open spec fn starts_burst(m: ScanModel, now: u64) -> bool {
    m.buf.len() == 0 && match m.burst_start {
        None => true,
        Some(t) => elapsed(t, now) > BURST_TIMEOUT_NANOS,
    }
}

pub open spec fn is_shift_key(code: u16) -> bool {
    code == KEY_LEFTSHIFT || code == KEY_RIGHTSHIFT
}

pub open spec fn is_enter_key(code: u16) -> bool {
    code == KEY_ENTER || code == KEY_KPENTER
}

/// One key event (`value`: 1 press, 0 release, 2 auto-repeat) at time `now`:
/// the next state and what is signalled.
///
/// - Shift keys only record whether shift is held.
/// - A press of Enter ends the scan: a non-empty buffer is signalled as a
///   scan and emptied, and the burst is over.
/// - Releases and repeats of other keys are ignored.
/// - A press of any other key throws sand first if it begins a burst, marks
///   the burst as active at `now`, and appends the key's character, if any.
pub open spec fn scan_step(m: ScanModel, code: u16, value: i32, now: u64) -> (ScanModel, Option<ScanSignal>) {
    if is_shift_key(code) {
        (ScanModel { buf: m.buf, shift: value != 0, burst_start: m.burst_start }, None)
    } else if is_enter_key(code) && value == 1 {
        (
            ScanModel { buf: Seq::empty(), shift: m.shift, burst_start: None },
            if m.buf.len() > 0 { Some(ScanSignal::Scan(m.buf)) } else { None },
        )
    } else if value != 1 {
        (m, None)
    } else {
        let buf = match key_char(code, m.shift) {
            Some(c) => m.buf.push(c),
            None => m.buf,
        };
        (
            ScanModel { buf, shift: m.shift, burst_start: Some(now) },
            if starts_burst(m, now) { Some(ScanSignal::SandStart) } else { None },
        )
    }
}

/// What an action reported by the reader signals.
pub open spec fn signal_of(a: Option<Action>) -> Option<ScanSignal> {
    match a {
        Some(Action::Scan(p)) => Some(ScanSignal::Scan(p@)),
        Some(Action::SandStart) => Some(ScanSignal::SandStart),
        _ => None,
    }
}

/// The reader of a grabbed scanner device.
pub struct ScanState {
    /// Characters of the scan in progress.
    pub buf: String,
    /// Whether a shift key is held.
    pub shift: bool,
    /// Time of the last key press of the burst in progress (nanoseconds).
    pub burst_start: Option<u64>,
}

impl View for ScanState {
    type V = ScanModel;

    open spec fn view(&self) -> ScanModel {
        ScanModel { buf: self.buf@, shift: self.shift, burst_start: self.burst_start }
    }
}

impl ScanState {
    /// A reader with nothing typed, shift released, no burst.
    pub fn new() -> (st: ScanState)
        ensures
            st@ == (ScanModel { buf: Seq::empty(), shift: false, burst_start: None }),
    {
        ScanState { buf: String::new(), shift: false, burst_start: None }
    }

    /// Handles one key event at time `now` (nanoseconds on a monotonic clock)
    /// and returns what to report: `SandStart`, `Scan` or nothing.
    pub fn on_key(&mut self, code: u16, value: i32, now: u64) -> (out: Option<Action>)
        ensures
            (final(self)@, signal_of(out)) == scan_step(old(self)@, code, value, now),
            out is None || out matches Some(Action::SandStart) || out matches Some(Action::Scan(_)),
    {
        if code == KEY_LEFTSHIFT || code == KEY_RIGHTSHIFT {
            self.shift = value != 0;
            return None;
        }
        if (code == KEY_ENTER || code == KEY_KPENTER) && value == 1 {
            let mut payload = String::new();
            std::mem::swap(&mut payload, &mut self.buf);
            self.burst_start = None;
            if !payload.as_str().is_empty() {
                return Some(Action::Scan(payload));
            } else {
                return None;
            }
        }
        if value != 1 {
            return None;
        }
        let first = self.buf.as_str().is_empty() && match self.burst_start {
            None => true,
            Some(t) => now.saturating_sub(t) > BURST_TIMEOUT_NANOS,
        };
        self.burst_start = Some(now);
        if let Some(c) = key_to_char(code, self.shift) {
            push_char(&mut self.buf, c);
        }
        if first {
            Some(Action::SandStart)
        } else {
            None
        }
    }
}

/// A key event as the reader gets it: key code, value (1 press, 0 release,
/// 2 auto-repeat) and time in nanoseconds.
pub type KeyEvent = (u16, i32, u64);

/// A press of a key that is neither a shift key nor Enter.
pub open spec fn is_plain_press(e: KeyEvent) -> bool {
    !is_shift_key(e.0) && !is_enter_key(e.0) && e.1 == 1
}

/// A press of Enter (main or keypad).
pub open spec fn is_enter_press(e: KeyEvent) -> bool {
    is_enter_key(e.0) && e.1 == 1
}

/// The state after the events, in order.
pub open spec fn run_events(m: ScanModel, evs: Seq<KeyEvent>) -> ScanModel
    decreases evs.len(),
{
    if evs.len() == 0 {
        m
    } else {
        let e = evs.last();
        scan_step(run_events(m, evs.drop_last()), e.0, e.1, e.2).0
    }
}

/// What the reader signals for the event `evs[i]`, after the events before it.
pub open spec fn signal_at(m: ScanModel, evs: Seq<KeyEvent>, i: int) -> Option<ScanSignal> {
    let e = evs[i];
    scan_step(run_events(m, evs.take(i)), e.0, e.1, e.2).1
}

/// Whether shift is held after the events: the value of the latest shift-key
/// event is non-zero, or, without one, as it was before.
pub open spec fn shift_after(m: ScanModel, evs: Seq<KeyEvent>) -> bool
    decreases evs.len(),
{
    if evs.len() == 0 {
        m.shift
    } else if is_shift_key(evs.last().0) {
        evs.last().1 != 0
    } else {
        shift_after(m, evs.drop_last())
    }
}

/// The characters typed since the latest Enter press (after what was already
/// typed, when there was none): each plain press adds what its key types under
/// the shift state at that moment; releases, repeats and shift events add
/// nothing.
pub open spec fn typed_since_enter(m: ScanModel, evs: Seq<KeyEvent>) -> Seq<char>
    decreases evs.len(),
{
    if evs.len() == 0 {
        m.buf
    } else {
        let prev = evs.drop_last();
        let e = evs.last();
        if is_enter_press(e) {
            Seq::empty()
        } else if is_plain_press(e) {
            typed_since_enter(m, prev) + match key_char(e.0, shift_after(m, prev)) {
                Some(c) => seq![c],
                None => Seq::empty(),
            }
        } else {
            typed_since_enter(m, prev)
        }
    }
}

/// The time of the latest plain press since the latest Enter press: none
/// after an Enter press that no plain press followed; as before, when the
/// events hold neither.
pub open spec fn last_press(m: ScanModel, evs: Seq<KeyEvent>) -> Option<u64>
    decreases evs.len(),
{
    if evs.len() == 0 {
        m.burst_start
    } else {
        let e = evs.last();
        if is_enter_press(e) {
            None
        } else if is_plain_press(e) {
            Some(e.2)
        } else {
            last_press(m, evs.drop_last())
        }
    }
}

/// After any events, the reader's buffer, shift state and burst time are the
/// characters typed since the latest Enter press, the latest shift event's
/// state and the time of the latest plain press since the latest Enter press.
#[verifier::spinoff_prover]
pub proof fn lemma_run_events(m: ScanModel, evs: Seq<KeyEvent>)
    ensures
        run_events(m, evs) == (ScanModel {
            buf: typed_since_enter(m, evs),
            shift: shift_after(m, evs),
            burst_start: last_press(m, evs),
        }),
    decreases evs.len(),
{
    if evs.len() > 0 {
        let prev = evs.drop_last();
        let e = evs.last();
        lemma_run_events(m, prev);
        let before = run_events(m, prev);
        assert(before.buf == typed_since_enter(m, prev));
        assert(before.shift == shift_after(m, prev));
        assert(before.burst_start == last_press(m, prev));
        let after = scan_step(before, e.0, e.1, e.2).0;
        assert(run_events(m, evs) == after);
        if is_shift_key(e.0) {
            assert(!is_enter_press(e) && !is_plain_press(e));
            assert(after == ScanModel { buf: before.buf, shift: e.1 != 0, burst_start: before.burst_start });
            assert(typed_since_enter(m, evs) == before.buf);
            assert(shift_after(m, evs) == (e.1 != 0));
            assert(last_press(m, evs) == before.burst_start);
        } else if is_enter_press(e) {
            assert(after == ScanModel { buf: Seq::empty(), shift: before.shift, burst_start: None });
            assert(typed_since_enter(m, evs) == Seq::<char>::empty());
            assert(shift_after(m, evs) == before.shift);
            assert(last_press(m, evs) == None::<u64>);
        } else if e.1 != 1 {
            assert(!is_plain_press(e));
            assert(after == before);
            assert(typed_since_enter(m, evs) == before.buf);
            assert(shift_after(m, evs) == before.shift);
            assert(last_press(m, evs) == before.burst_start);
        } else {
            assert(is_plain_press(e));
            let typed = match key_char(e.0, before.shift) {
                Some(c) => seq![c],
                None => Seq::<char>::empty(),
            };
            assert(after.buf =~= before.buf + typed);
            assert(typed_since_enter(m, evs) == before.buf + typed);
            assert(after == ScanModel { buf: before.buf + typed, shift: before.shift, burst_start: Some(e.2) });
            assert(shift_after(m, evs) == before.shift);
            assert(last_press(m, evs) == Some(e.2));
        }
    }
}

/// The scan-stream law, for any events (presses, releases and repeats of any
/// keys, shift changes) from any state:
/// - a press of Enter reports `Scan(p)` exactly when the characters `p` typed
///   since the previous Enter press are not empty, and nothing otherwise;
/// - a plain press throws sand exactly when nothing has been typed since the
///   previous Enter press and the latest plain press since then, if any, lies
///   more than `BURST_TIMEOUT_NANOS` back;
/// - every other event (releases, repeats, shift keys) reports nothing.
pub proof fn lemma_scan_stream(m: ScanModel, evs: Seq<KeyEvent>, i: int)
    requires
        0 <= i < evs.len(),
    ensures
        ({
            let before = evs.take(i);
            let e = evs[i];
            let p = typed_since_enter(m, before);
            &&& is_enter_press(e) ==> signal_at(m, evs, i) == if p.len() > 0 {
                Some(ScanSignal::Scan(p))
            } else {
                None
            }
            &&& is_plain_press(e) ==> (signal_at(m, evs, i) == Some(ScanSignal::SandStart) <==> (p.len() == 0
                && match last_press(m, before) {
                None => true,
                Some(t) => elapsed(t, e.2) > BURST_TIMEOUT_NANOS,
            }))
            &&& is_plain_press(e) ==> (signal_at(m, evs, i) is None || signal_at(m, evs, i) == Some(ScanSignal::SandStart))
            &&& !is_enter_press(e) && !is_plain_press(e) ==> signal_at(m, evs, i) is None
        }),
{
    lemma_run_events(m, evs.take(i));
}

/// Sand is thrown on the first keystroke of a burst: after a press of Enter,
/// the next press of a plain key signals `SandStart`, whatever its time.
pub proof fn lemma_enter_then_key_throws_sand(m: ScanModel, enter: u16, t1: u64, code: u16, t2: u64)
    requires
        is_enter_key(enter),
        !is_shift_key(code),
        !is_enter_key(code),
    ensures
        scan_step(scan_step(m, enter, 1, t1).0, code, 1, t2).1 == Some(ScanSignal::SandStart),
{
}

/// Within a burst no sand is thrown: a press while the buffer holds
/// characters signals nothing.
pub proof fn lemma_no_sand_mid_scan(m: ScanModel, code: u16, now: u64)
    requires
        m.buf.len() > 0,
        !is_enter_key(code),
    ensures
        scan_step(m, code, 1, now).1 is None,
{
}

} // verus!
