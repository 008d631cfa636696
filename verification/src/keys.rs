//! Keys, and the bytes they send to a terminal.

use vstd::prelude::*;
use vstd::string::*;

use crate::number;
use crate::text;

verus! {

/// The keys with a name of their own.
#[derive(Debug, Clone, Copy, PartialEq, Eq, Structural)]
pub enum Named {
    Enter,
    Backspace,
    Tab,
    Escape,
    ArrowUp,
    ArrowDown,
    ArrowRight,
    ArrowLeft,
    Home,
    End,
    PageUp,
    PageDown,
    Insert,
    Delete,
    F1,
    F2,
    F3,
    F4,
    F5,
    F6,
    F7,
    F8,
    F9,
    F10,
    F11,
    F12,
    Space,
    /// One that a terminal has no use for.
    Other,
}

#[derive(Debug)]
pub enum Key {
    Named(Named),
    /// What the key writes, without regard to modifiers.
    Character(String),
    Unidentified,
}

#[derive(Debug, Clone, Copy, PartialEq, Eq, Structural)]
pub struct Modifiers {
    pub shift: bool,
    pub control: bool,
    pub alt: bool,
    pub logo: bool,
}

impl Modifiers {
    pub open spec fn none() -> Modifiers {
        Modifiers { shift: false, control: false, alt: false, logo: false }
    }

    /// The modifier of shortcuts: the logo key on a Mac, Control elsewhere.
    pub open spec fn command_on(&self, mac: bool) -> bool {
        if mac {
            self.logo
        } else {
            self.control
        }
    }

    pub fn command(&self, mac: bool) -> (r: bool)
        ensures
            r == self.command_on(mac),
    {
        if mac {
            self.logo
        } else {
            self.control
        }
    }
}

// ---- Control ------------------------------------------------------------------------------

/// What Control with the character `ch` sends.
pub open spec fn control_code(ch: char) -> Option<char> {
    if 'a' <= ch <= 'z' {
        Some(((ch as int) - 96) as char)
    } else if 'A' <= ch <= 'Z' {
        Some(((ch as int) - 64) as char)
    } else if ch == '[' || ch == '3' {
        Some('\u{1b}')
    } else if ch == '\\' || ch == '4' {
        Some('\u{1c}')
    } else if ch == ']' || ch == '5' {
        Some('\u{1d}')
    } else if ch == '2' || ch == '@' || ch == '`' {
        Some('\0')
    } else if ch == '6' || ch == '^' || ch == '~' {
        Some('\u{1e}')
    } else if ch == '7' || ch == '?' {
        Some('\u{1f}')
    } else if ch == '8' {
        Some('\u{7f}')
    } else {
        None
    }
}

fn code_with_control(ch: char) -> (r: Option<char>)
    ensures
        r == control_code(ch),
{
    if 'a' <= ch && ch <= 'z' {
        let n: u32 = ch as u32;
        Some((n - 96) as u8 as char)
    } else if 'A' <= ch && ch <= 'Z' {
        let n: u32 = ch as u32;
        Some((n - 64) as u8 as char)
    } else if ch == '[' || ch == '3' {
        Some('\u{1b}')
    } else if ch == '\\' || ch == '4' {
        Some('\u{1c}')
    } else if ch == ']' || ch == '5' {
        Some('\u{1d}')
    } else if ch == '2' || ch == '@' || ch == '`' {
        Some('\0')
    } else if ch == '6' || ch == '^' || ch == '~' {
        Some('\u{1e}')
    } else if ch == '7' || ch == '?' {
        Some('\u{1f}')
    } else if ch == '8' {
        Some('\u{7f}')
    } else {
        None
    }
}

/// The text is one control character.
pub open spec fn is_control_text(t: Option<Seq<char>>) -> bool {
    t matches Some(s) && s.len() == 1 && s[0] < ' '
}

/// What a key held with Control sends on that account; `None` where Control
/// decides nothing.
pub open spec fn with_control(key: Key, t: Option<Seq<char>>) -> Option<Seq<char>> {
    match key {
        Key::Named(Named::Space) => Some(seq!['\0']),
        Key::Character(c) => if c@.len() > 0 && control_code(c@[0]) is Some {
            Some(seq![control_code(c@[0])->0])
        } else if is_control_text(t) {
            t
        } else {
            None
        },
        _ => if is_control_text(t) {
            t
        } else {
            None
        },
    }
}

/// What a key held with Alt sends on that account: an escape first.
pub open spec fn with_alt(key: Key, t: Option<Seq<char>>) -> Option<Seq<char>> {
    if t matches Some(s) && s.len() > 0 {
        Some(seq!['\u{1b}'] + t->0)
    } else {
        match key {
            Key::Character(c) => Some(seq!['\u{1b}'] + c@),
            _ => None,
        }
    }
}

// ---- named keys ------------------------------------------------------------------------------

/// The last letter of the sequence of a cursor key.
pub open spec fn cursor_letter(n: Named) -> Option<char> {
    match n {
        Named::ArrowUp => Some('A'),
        Named::ArrowDown => Some('B'),
        Named::ArrowRight => Some('C'),
        Named::ArrowLeft => Some('D'),
        Named::Home => Some('H'),
        Named::End => Some('F'),
        _ => None,
    }
}

/// The digit that stands for the modifiers in a cursor key's sequence.
pub open spec fn modifier_digit(m: Modifiers) -> char {
    if m.shift && m.alt && m.control {
        '8'
    } else if m.alt && m.control {
        '7'
    } else if m.shift && m.control {
        '6'
    } else if m.control {
        '5'
    } else if m.shift && m.alt {
        '4'
    } else if m.alt {
        '3'
    } else if m.shift {
        '2'
    } else {
        '1'
    }
}

/// What a named key sends.
pub open spec fn plain_sequence(n: Named) -> Option<Seq<char>> {
    match n {
        Named::Enter => Some("\r"@),
        Named::Backspace => Some("\x7f"@),
        Named::Tab => Some("\t"@),
        Named::Escape => Some("\x1b"@),
        Named::ArrowUp => Some("\x1b[A"@),
        Named::ArrowDown => Some("\x1b[B"@),
        Named::ArrowRight => Some("\x1b[C"@),
        Named::ArrowLeft => Some("\x1b[D"@),
        Named::Home => Some("\x1b[H"@),
        Named::End => Some("\x1b[F"@),
        Named::PageUp => Some("\x1b[5~"@),
        Named::PageDown => Some("\x1b[6~"@),
        Named::Insert => Some("\x1b[2~"@),
        Named::Delete => Some("\x1b[3~"@),
        Named::F1 => Some("\x1bOP"@),
        Named::F2 => Some("\x1bOQ"@),
        Named::F3 => Some("\x1bOR"@),
        Named::F4 => Some("\x1bOS"@),
        Named::F5 => Some("\x1b[15~"@),
        Named::F6 => Some("\x1b[17~"@),
        Named::F7 => Some("\x1b[18~"@),
        Named::F8 => Some("\x1b[19~"@),
        Named::F9 => Some("\x1b[20~"@),
        Named::F10 => Some("\x1b[21~"@),
        Named::F11 => Some("\x1b[23~"@),
        Named::F12 => Some("\x1b[24~"@),
        Named::Space => Some(" "@),
        Named::Other => None,
    }
}

fn sequence_of(n: Named) -> (r: Option<&'static str>)
    ensures
        match r {
            Some(s) => plain_sequence(n) == Some(s@),
            None => plain_sequence(n) is None,
        },
{
    match n {
        Named::Enter => Some("\r"),
        Named::Backspace => Some("\x7f"),
        Named::Tab => Some("\t"),
        Named::Escape => Some("\x1b"),
        Named::ArrowUp => Some("\x1b[A"),
        Named::ArrowDown => Some("\x1b[B"),
        Named::ArrowRight => Some("\x1b[C"),
        Named::ArrowLeft => Some("\x1b[D"),
        Named::Home => Some("\x1b[H"),
        Named::End => Some("\x1b[F"),
        Named::PageUp => Some("\x1b[5~"),
        Named::PageDown => Some("\x1b[6~"),
        Named::Insert => Some("\x1b[2~"),
        Named::Delete => Some("\x1b[3~"),
        Named::F1 => Some("\x1bOP"),
        Named::F2 => Some("\x1bOQ"),
        Named::F3 => Some("\x1bOR"),
        Named::F4 => Some("\x1bOS"),
        Named::F5 => Some("\x1b[15~"),
        Named::F6 => Some("\x1b[17~"),
        Named::F7 => Some("\x1b[18~"),
        Named::F8 => Some("\x1b[19~"),
        Named::F9 => Some("\x1b[20~"),
        Named::F10 => Some("\x1b[21~"),
        Named::F11 => Some("\x1b[23~"),
        Named::F12 => Some("\x1b[24~"),
        Named::Space => Some(" "),
        Named::Other => None,
    }
}

/// What a named key sends with the modifiers held.
pub open spec fn named_sequence(n: Named, m: Modifiers) -> Option<Seq<char>> {
    if (m.shift || m.control || m.alt) && cursor_letter(n) is Some {
        Some(seq!['\u{1b}', '[', '1', ';', modifier_digit(m), cursor_letter(n)->0])
    } else if n == Named::Tab && m.shift {
        Some("\x1b[Z"@)
    } else if n == Named::Space && m.control {
        Some(seq!['\0'])
    } else {
        plain_sequence(n)
    }
}

fn sequence_with(n: Named, m: Modifiers) -> (r: Option<String>)
    ensures
        match r {
            Some(s) => named_sequence(n, m) == Some(s@),
            None => named_sequence(n, m) is None,
        },
{
    if m.shift || m.control || m.alt {
        let letter = match n {
            Named::ArrowUp => 'A',
            Named::ArrowDown => 'B',
            Named::ArrowRight => 'C',
            Named::ArrowLeft => 'D',
            Named::Home => 'H',
            Named::End => 'F',
            _ => '\0',
        };
        if letter != '\0' {
            let digit = match (m.shift, m.alt, m.control) {
                (true, false, false) => '2',
                (false, true, false) => '3',
                (true, true, false) => '4',
                (false, false, true) => '5',
                (true, false, true) => '6',
                (false, true, true) => '7',
                (true, true, true) => '8',
                _ => '1',
            };
            let cs: Vec<char> = vec!['\u{1b}', '[', '1', ';', digit, letter];
            assert(cs@ =~= seq!['\u{1b}', '[', '1', ';', modifier_digit(m), cursor_letter(n)->0]);
            return Some(text::string_of(cs.as_slice()));
        }
    }
    match n {
        Named::Tab if m.shift => Some("\x1b[Z".to_owned()),
        Named::Space if m.control => Some(text::string_of_char('\0')),
        _ => match sequence_of(n) {
            Some(s) => Some(s.to_owned()),
            None => None,
        },
    }
}

// ---- keyboard -> terminal bytes ----------------------------------------------------------------

/// What a key press sends to the terminal: what Control or Alt make of it,
/// else the sequence of a named key, else the text typed, else what the key
/// writes.
pub open spec fn sent(key: Key, m: Modifiers, t: Option<Seq<char>>) -> Option<Seq<char>> {
    if m.control && with_control(key, t) is Some {
        with_control(key, t)
    } else if m.alt && with_alt(key, t) is Some {
        with_alt(key, t)
    } else {
        match key {
            Key::Named(n) => named_sequence(n, m),
            Key::Character(c) => if t matches Some(s) && s.len() > 0 && !m.control {
                t
            } else {
                Some(c@)
            },
            Key::Unidentified => if t matches Some(s) && s.len() > 0 && !m.control {
                t
            } else {
                None
            },
        }
    }
}

/// The text behind a key press.
pub open spec fn typed(t: Option<&str>) -> Option<Seq<char>> {
    match t {
        Some(s) => Some(s@),
        None => None,
    }
}

fn escape_before(s: &str) -> (r: String)
    ensures
        r@ == seq!['\u{1b}'] + s@,
{
    let mut r = text::string_of_char('\u{1b}');
    r.append(s);
    r
}

/// What a key press sends to the terminal.
pub fn key_to_terminal_bytes(key: &Key, modifiers: &Modifiers, t: Option<&str>) -> (r: Option<String>)
    ensures
        match r {
            Some(s) => sent(*key, *modifiers, typed(t)) == Some(s@),
            None => sent(*key, *modifiers, typed(t)) is None,
        },
{
    if modifiers.control {
        match key {
            Key::Named(Named::Space) => {
                return Some(text::string_of_char('\0'));
            },
            Key::Character(c) => {
                let cs = text::chars_of(c.as_str());
                if cs.len() > 0 {
                    match code_with_control(cs[0]) {
                        Some(code) => {
                            return Some(text::string_of_char(code));
                        },
                        None => {},
                    }
                }
            },
            _ => {},
        }
        match t {
            Some(s) => {
                let cs = text::chars_of(s);
                if cs.len() == 1 && ' ' > cs[0] {
                    return Some(s.to_owned());
                }
            },
            None => {},
        }
        assert(with_control(*key, typed(t)) is None);
    }
    if modifiers.alt {
        match t {
            Some(s) => {
                if !s.is_empty() {
                    return Some(escape_before(s));
                }
            },
            None => {},
        }
        match key {
            Key::Character(c) => {
                return Some(escape_before(c.as_str()));
            },
            _ => {},
        }
        assert(with_alt(*key, typed(t)) is None);
    }
    match key {
        Key::Named(n) => sequence_with(*n, *modifiers),
        Key::Character(c) => {
            match t {
                Some(s) => {
                    if !s.is_empty() && !modifiers.control {
                        return Some(s.to_owned());
                    }
                },
                None => {},
            }
            Some(c.clone())
        },
        Key::Unidentified => {
            match t {
                Some(s) => {
                    if !s.is_empty() && !modifiers.control {
                        return Some(s.to_owned());
                    }
                },
                None => {},
            }
            None
        },
    }
}

/// Tab or Down with no modifier.
pub open spec fn accepts_suggestion(key: Key, m: Modifiers) -> bool {
    m == Modifiers::none() && (key == Key::Named(Named::Tab) || key == Key::Named(Named::ArrowDown))
}

/// Tab or Down with no modifier: the keys that accept a suggestion.
pub fn is_autocomplete_key(key: &Key, modifiers: &Modifiers) -> (r: bool)
    ensures
        r == accepts_suggestion(*key, *modifiers),
{
    let plain = !modifiers.shift && !modifiers.control && !modifiers.alt && !modifiers.logo;
    plain && (match key {
        Key::Named(Named::Tab) => true,
        Key::Named(Named::ArrowDown) => true,
        _ => false,
    })
}

// ---- laws ------------------------------------------------------------------------------------------

/// Control with a letter sends the control character of that letter, in
/// either case of it: 1 for A up to 26 for Z.
pub proof fn law_control_letters(ch: char)
    requires
        'a' <= ch <= 'z' || 'A' <= ch <= 'Z',
    ensures
        control_code(ch) matches Some(code) && 1 <= code as int && code as int <= 26 && (code as int)
            == (ch as int) % 32,
{
}

/// Text typed with neither Control nor Alt held goes out as it was typed,
/// whatever the key is called.
pub proof fn law_plain_text_is_sent(key: Key, m: Modifiers, s: Seq<char>)
    requires
        !m.control,
        !m.alt,
        s.len() > 0,
        !(key is Named),
    ensures
        sent(key, m, Some(s)) == Some(s),
{
}

/// The direction or the end of the line that a cursor key moves to.
pub open spec fn moves(n: Named, letter: char) -> bool {
    ||| n == Named::ArrowUp && letter == 'A'
    ||| n == Named::ArrowDown && letter == 'B'
    ||| n == Named::ArrowRight && letter == 'C'
    ||| n == Named::ArrowLeft && letter == 'D'
    ||| n == Named::End && letter == 'F'
    ||| n == Named::Home && letter == 'H'
}

/// What the modifiers held count in a key's sequence: Shift one, Alt two, Control
/// four, with one added to all of them.
pub open spec fn modifier_weight(m: Modifiers) -> int {
    1 + (if m.shift {
        1int
    } else {
        0
    }) + (if m.alt {
        2int
    } else {
        0
    }) + (if m.control {
        4int
    } else {
        0
    })
}

/// A cursor key ends its sequence in the letter of its own direction, held with
/// modifiers or not: `ESC [ letter` alone, and `ESC [ 1 ; digit letter` with some,
/// where the digit is what they count. No other key is a cursor key.
pub proof fn law_a_cursor_key_keeps_its_letter(n: Named, m: Modifiers, letter: char)
    requires
        moves(n, letter),
    ensures
        !m.shift && !m.alt && !m.control ==> sent(Key::Named(n), m, None) == Some(
            seq!['\u{1b}', '[', letter],
        ),
        m.shift || m.alt || m.control ==> (sent(Key::Named(n), m, None) matches Some(s) && {
            &&& s.len() == 6
            &&& s.take(4) == seq!['\u{1b}', '[', '1', ';']
            &&& (s[4] as int) == ('0' as int) + modifier_weight(m)
            &&& s[5] == letter
        }),
{
    reveal_strlit("\x1b[A");
    reveal_strlit("\x1b[B");
    reveal_strlit("\x1b[C");
    reveal_strlit("\x1b[D");
    reveal_strlit("\x1b[H");
    reveal_strlit("\x1b[F");
    if m.shift || m.alt || m.control {
        let s = sent(Key::Named(n), m, None)->0;
        assert(s.take(4) =~= seq!['\u{1b}', '[', '1', ';']);
    } else {
        assert(sent(Key::Named(n), m, None)->0 =~= seq!['\u{1b}', '[', letter]);
    }
}

/// The number by which an editing or a function key is told to the terminal.
pub open spec fn numbered(n: Named, code: nat) -> bool {
    ||| n == Named::Insert && code == 2
    ||| n == Named::Delete && code == 3
    ||| n == Named::PageUp && code == 5
    ||| n == Named::PageDown && code == 6
    ||| n == Named::F5 && code == 15
    ||| n == Named::F6 && code == 17
    ||| n == Named::F7 && code == 18
    ||| n == Named::F8 && code == 19
    ||| n == Named::F9 && code == 20
    ||| n == Named::F10 && code == 21
    ||| n == Named::F11 && code == 23
    ||| n == Named::F12 && code == 24
}

/// The editing keys and the function keys from the fifth on send `ESC [ number ~`,
/// whatever modifiers are held.
pub proof fn law_a_numbered_key_sends_its_number(n: Named, m: Modifiers, code: nat)
    requires
        numbered(n, code),
    ensures
        sent(Key::Named(n), m, None) == Some(seq!['\u{1b}', '['] + number::decimal(code) + seq!['~']),
{
    reveal_strlit("\x1b[2~");
    reveal_strlit("\x1b[3~");
    reveal_strlit("\x1b[5~");
    reveal_strlit("\x1b[6~");
    reveal_strlit("\x1b[15~");
    reveal_strlit("\x1b[17~");
    reveal_strlit("\x1b[18~");
    reveal_strlit("\x1b[19~");
    reveal_strlit("\x1b[20~");
    reveal_strlit("\x1b[21~");
    reveal_strlit("\x1b[23~");
    reveal_strlit("\x1b[24~");
    reveal_with_fuel(number::digits, 3);
    assert(sent(Key::Named(n), m, None)->0 =~= seq!['\u{1b}', '['] + number::decimal(code) + seq!['~']);
}

/// The first four function keys send `ESC O` and the letters from P on.
pub proof fn law_the_first_function_keys(n: Named, m: Modifiers, i: nat)
    requires
        n == Named::F1 && i == 0 || n == Named::F2 && i == 1 || n == Named::F3 && i == 2 || n == Named::F4 && i == 3,
    ensures
        sent(Key::Named(n), m, None) == Some(seq!['\u{1b}', 'O', (('P' as int) + i) as char]),
{
    reveal_strlit("\x1bOP");
    reveal_strlit("\x1bOQ");
    reveal_strlit("\x1bOR");
    reveal_strlit("\x1bOS");
    assert(sent(Key::Named(n), m, None)->0 =~= seq!['\u{1b}', 'O', (('P' as int) + i) as char]);
}

/// Enter, Backspace, Tab, Escape and Space send one character each; Shift turns Tab
/// round, and Control makes the null character of Space.
pub proof fn law_keys_of_one_character(m: Modifiers)
    ensures
        sent(Key::Named(Named::Enter), m, None) == Some(seq![13u8 as char]),
        sent(Key::Named(Named::Backspace), m, None) == Some(seq![127u8 as char]),
        sent(Key::Named(Named::Escape), m, None) == Some(seq![27u8 as char]),
        sent(Key::Named(Named::Tab), m, None) == Some(
            if m.shift {
                seq![27u8 as char, '[', 'Z']
            } else {
                seq![9u8 as char]
            },
        ),
        sent(Key::Named(Named::Space), m, None) == Some(
            seq![
                if m.control {
                    0u8 as char
                } else {
                    ' '
                },
            ],
        ),
{
    reveal_strlit("\r");
    reveal_strlit("\x7f");
    reveal_strlit("\x1b");
    reveal_strlit("\t");
    reveal_strlit("\x1b[Z");
    reveal_strlit(" ");
    assert(sent(Key::Named(Named::Enter), m, None)->0 =~= seq![13u8 as char]);
    assert(sent(Key::Named(Named::Backspace), m, None)->0 =~= seq![127u8 as char]);
    assert(sent(Key::Named(Named::Escape), m, None)->0 =~= seq![27u8 as char]);
    if m.shift {
        assert(sent(Key::Named(Named::Tab), m, None)->0 =~= seq![27u8 as char, '[', 'Z']);
    } else {
        assert(sent(Key::Named(Named::Tab), m, None)->0 =~= seq![9u8 as char]);
    }
    if m.control {
        assert(sent(Key::Named(Named::Space), m, None)->0 =~= seq![0u8 as char]);
    } else {
        assert(sent(Key::Named(Named::Space), m, None)->0 =~= seq![' ']);
    }
}

/// Control takes 64 off a sign between `[` and `^`; the digits from 3 to 7 count up
/// from the escape character, and 2 and 8 send what stands at either end.
pub proof fn law_control_signs(ch: char)
    ensures
        ch == '@' || '[' <= ch <= '^' ==> (control_code(ch) matches Some(code) && (code as int) == (ch as int) - 64),
        '3' <= ch <= '7' ==> (control_code(ch) matches Some(code) && (code as int) == 27 + ((ch as int) - ('3' as int))),
        ch == '2' || ch == '`' ==> control_code(ch) == control_code('@'),
        ch == '~' ==> control_code(ch) == control_code('^'),
        ch == '?' ==> (control_code(ch) matches Some(code) && (code as int) == 31),
        ch == '8' ==> (control_code(ch) matches Some(code) && (code as int) == 127),
        control_code(ch) matches Some(code) ==> (code as int) < 32 || (code as int) == 127,
        control_code(ch) is Some <==> 'a' <= ch <= 'z' || '@' <= ch <= '^' || '2' <= ch <= '8' || ch == '`' || ch
            == '~' || ch == '?',
{
}

/// A character typed with Control alone sends its control code, where it has one,
/// whatever text came with it.
pub proof fn law_control_sends_its_code(c: String, m: Modifiers, t: Option<Seq<char>>)
    requires
        m.control,
        c@.len() > 0,
        control_code(c@[0]) is Some,
    ensures
        sent(Key::Character(c), m, t) == Some(seq![control_code(c@[0])->0]),
{
}

/// Alt puts an escape before what the key sends without it.
pub proof fn law_alt_puts_an_escape_first(c: String, m: Modifiers, t: Option<Seq<char>>)
    requires
        m.alt,
        !m.control,
    ensures
        sent(Key::Character(c), m, t) == Some(
            seq!['\u{1b}'] + sent(Key::Character(c), (Modifiers { alt: false, ..m }), t)->0,
        ),
        sent(Key::Character(c), (Modifiers { alt: false, ..m }), t) is Some,
{
}

/// Two keys with names never send the same, with no modifier held.
pub proof fn law_named_keys_differ(a: Named, b: Named)
    requires
        a != Named::Other,
        b != Named::Other,
        sent(Key::Named(a), Modifiers::none(), None) == sent(Key::Named(b), Modifiers::none(), None),
    ensures
        a == b,
{
    reveal_strlit("\r");
    reveal_strlit("\x7f");
    reveal_strlit("\t");
    reveal_strlit("\x1b");
    reveal_strlit(" ");
    reveal_strlit("\x1b[A");
    reveal_strlit("\x1b[B");
    reveal_strlit("\x1b[C");
    reveal_strlit("\x1b[D");
    reveal_strlit("\x1b[H");
    reveal_strlit("\x1b[F");
    reveal_strlit("\x1b[2~");
    reveal_strlit("\x1b[3~");
    reveal_strlit("\x1b[5~");
    reveal_strlit("\x1b[6~");
    reveal_strlit("\x1bOP");
    reveal_strlit("\x1bOQ");
    reveal_strlit("\x1bOR");
    reveal_strlit("\x1bOS");
    reveal_strlit("\x1b[15~");
    reveal_strlit("\x1b[17~");
    reveal_strlit("\x1b[18~");
    reveal_strlit("\x1b[19~");
    reveal_strlit("\x1b[20~");
    reveal_strlit("\x1b[21~");
    reveal_strlit("\x1b[23~");
    reveal_strlit("\x1b[24~");
    let x = plain_sequence(a)->0;
    let y = plain_sequence(b)->0;
    assert(x.len() == y.len() && x[0] == y[0]);
    assert(x.len() > 2 ==> x[1] == y[1] && x[2] == y[2]);
    assert(x.len() > 3 ==> x[3] == y[3]);
}

} // verus!
