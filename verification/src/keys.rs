//! Key bindings: reading keys such as `ctrl-a`, `<esc><enter>` or `f5` from the
//! configuration, and naming a key again.

use vstd::prelude::*;
use crate::parser::{chars_of, eq_chars, slice};
use crate::text::{decimal, push_char, push_decimal, push_str};

verus! {

/// A key of the keyboard.
#[derive(Debug, Clone, Copy, PartialEq, Eq, Structural, Hash)]
pub enum KeyCode {
    Backspace,
    Enter,
    Left,
    Right,
    Up,
    Down,
    Home,
    End,
    PageUp,
    PageDown,
    Tab,
    BackTab,
    Delete,
    Insert,
    F(u8),
    Char(char),
    Null,
    Esc,
    CapsLock,
    ScrollLock,
    NumLock,
    PrintScreen,
    Pause,
    Menu,
    KeypadBegin,
    Media,
    Modifier,
}

/// The modifier keys held with a key.
#[derive(Debug, Clone, Copy, PartialEq, Eq, Structural, Hash)]
pub struct KeyModifiers {
    pub shift: bool,
    pub control: bool,
    pub alt: bool,
    pub super_key: bool,
    pub hyper: bool,
    pub meta: bool,
}

impl KeyModifiers {
    pub open spec fn none() -> KeyModifiers {
        KeyModifiers {
            shift: false,
            control: false,
            alt: false,
            super_key: false,
            hyper: false,
            meta: false,
        }
    }

    /// No modifier.
    pub fn empty() -> (r: KeyModifiers)
        ensures
            r == KeyModifiers::none(),
    {
        KeyModifiers {
            shift: false,
            control: false,
            alt: false,
            super_key: false,
            hyper: false,
            meta: false,
        }
    }

    /// Only the shift key.
    pub fn shift() -> (r: KeyModifiers)
        ensures
            r == (KeyModifiers { shift: true, ..KeyModifiers::none() }),
    {
        KeyModifiers { shift: true, ..KeyModifiers::empty() }
    }

    /// Only the control key.
    pub fn control() -> (r: KeyModifiers)
        ensures
            r == (KeyModifiers { control: true, ..KeyModifiers::none() }),
    {
        KeyModifiers { control: true, ..KeyModifiers::empty() }
    }

    /// Only the alt key.
    pub fn alt() -> (r: KeyModifiers)
        ensures
            r == (KeyModifiers { alt: true, ..KeyModifiers::none() }),
    {
        KeyModifiers { alt: true, ..KeyModifiers::empty() }
    }

    /// The modifiers held in either.
    pub fn union(self, other: KeyModifiers) -> (r: KeyModifiers)
        ensures
            r == (KeyModifiers {
                shift: self.shift || other.shift,
                control: self.control || other.control,
                alt: self.alt || other.alt,
                super_key: self.super_key || other.super_key,
                hyper: self.hyper || other.hyper,
                meta: self.meta || other.meta,
            }),
    {
        KeyModifiers {
            shift: self.shift || other.shift,
            control: self.control || other.control,
            alt: self.alt || other.alt,
            super_key: self.super_key || other.super_key,
            hyper: self.hyper || other.hyper,
            meta: self.meta || other.meta,
        }
    }
}

/// A key together with the modifiers held with it.
#[derive(Debug, Clone, Copy, PartialEq, Eq, Structural, Hash)]
pub struct KeyEvent {
    pub code: KeyCode,
    pub modifiers: KeyModifiers,
}

impl KeyEvent {
    pub fn new(code: KeyCode, modifiers: KeyModifiers) -> (r: KeyEvent)
        ensures
            r == (KeyEvent { code, modifiers }),
    {
        KeyEvent { code, modifiers }
    }
}

pub open spec fn ascii_lower(c: char) -> char {
    if 'A' <= c && c <= 'Z' {
        ((c as u8 + 32) as u8) as char
    } else {
        c
    }
}

pub open spec fn ascii_upper(c: char) -> char {
    if 'a' <= c && c <= 'z' {
        ((c as u8 - 32) as u8) as char
    } else {
        c
    }
}

/// ASCII letters made lower case; everything else kept.
pub open spec fn lower_ascii(s: Seq<char>) -> Seq<char> {
    s.map_values(|c: char| ascii_lower(c))
}

pub open spec fn has_prefix(s: Seq<char>, p: Seq<char>) -> bool {
    p.len() <= s.len() && s.take(p.len() as int) == p
}

/// Removes the leading `ctrl-`, `alt-` and `shift-` prefixes, in any order and number,
/// adding the modifier of each to `m`.
pub open spec fn extracted_modifiers(s: Seq<char>, m: KeyModifiers) -> (Seq<char>, KeyModifiers)
    decreases s.len(),
{
    if has_prefix(s, seq!['c', 't', 'r', 'l', '-']) {
        extracted_modifiers(s.skip(5), KeyModifiers { control: true, ..m })
    } else if has_prefix(s, seq!['a', 'l', 't', '-']) {
        extracted_modifiers(s.skip(4), KeyModifiers { alt: true, ..m })
    } else if has_prefix(s, seq!['s', 'h', 'i', 'f', 't', '-']) {
        extracted_modifiers(s.skip(6), KeyModifiers { shift: true, ..m })
    } else {
        (s, m)
    }
}

/// The message for a key name that is not known.
pub open spec fn unknown_key_message(s: Seq<char>) -> Seq<char> {
    "unknown key identifier '"@ + s
        + "' in keybinding\n\texpected a named key like 'enter', 'f1', 'left', or a single character"@
}

/// The key that a name stands for.
pub open spec fn named_key(s: Seq<char>) -> Option<KeyCode> {
    if s == seq!['e', 's', 'c'] {
        Some(KeyCode::Esc)
    }
    else if s == seq!['e', 'n', 't', 'e', 'r'] {
        Some(KeyCode::Enter)
    }
    else if s == seq!['l', 'e', 'f', 't'] {
        Some(KeyCode::Left)
    }
    else if s == seq!['r', 'i', 'g', 'h', 't'] {
        Some(KeyCode::Right)
    }
    else if s == seq!['u', 'p'] {
        Some(KeyCode::Up)
    }
    else if s == seq!['d', 'o', 'w', 'n'] {
        Some(KeyCode::Down)
    }
    else if s == seq!['h', 'o', 'm', 'e'] {
        Some(KeyCode::Home)
    }
    else if s == seq!['e', 'n', 'd'] {
        Some(KeyCode::End)
    }
    else if s == seq!['p', 'a', 'g', 'e', 'u', 'p'] {
        Some(KeyCode::PageUp)
    }
    else if s == seq!['p', 'a', 'g', 'e', 'd', 'o', 'w', 'n'] {
        Some(KeyCode::PageDown)
    }
    else if s == seq!['b', 'a', 'c', 'k', 't', 'a', 'b'] {
        Some(KeyCode::BackTab)
    }
    else if s == seq!['b', 'a', 'c', 'k', 's', 'p', 'a', 'c', 'e'] {
        Some(KeyCode::Backspace)
    }
    else if s == seq!['d', 'e', 'l', 'e', 't', 'e'] {
        Some(KeyCode::Delete)
    }
    else if s == seq!['i', 'n', 's', 'e', 'r', 't'] {
        Some(KeyCode::Insert)
    }
    else if s == seq!['f', '1'] {
        Some(KeyCode::F(1))
    }
    else if s == seq!['f', '2'] {
        Some(KeyCode::F(2))
    }
    else if s == seq!['f', '3'] {
        Some(KeyCode::F(3))
    }
    else if s == seq!['f', '4'] {
        Some(KeyCode::F(4))
    }
    else if s == seq!['f', '5'] {
        Some(KeyCode::F(5))
    }
    else if s == seq!['f', '6'] {
        Some(KeyCode::F(6))
    }
    else if s == seq!['f', '7'] {
        Some(KeyCode::F(7))
    }
    else if s == seq!['f', '8'] {
        Some(KeyCode::F(8))
    }
    else if s == seq!['f', '9'] {
        Some(KeyCode::F(9))
    }
    else if s == seq!['f', '1', '0'] {
        Some(KeyCode::F(10))
    }
    else if s == seq!['f', '1', '1'] {
        Some(KeyCode::F(11))
    }
    else if s == seq!['f', '1', '2'] {
        Some(KeyCode::F(12))
    }
    else if s == seq!['s', 'p', 'a', 'c', 'e'] {
        Some(KeyCode::Char(' '))
    }
    else if s == seq!['h', 'y', 'p', 'h', 'e', 'n'] {
        Some(KeyCode::Char('-'))
    }
    else if s == seq!['m', 'i', 'n', 'u', 's'] {
        Some(KeyCode::Char('-'))
    }
    else if s == seq!['t', 'a', 'b'] {
        Some(KeyCode::Tab)
    }
    else {
        None
    }
}

fn named_key_exec(v: &Vec<char>) -> (r: Option<KeyCode>)
    ensures
        r == named_key(v@),
{
    if eq_chars(v, &['e', 's', 'c']) {
        return Some(KeyCode::Esc);
    }
    if eq_chars(v, &['e', 'n', 't', 'e', 'r']) {
        return Some(KeyCode::Enter);
    }
    if eq_chars(v, &['l', 'e', 'f', 't']) {
        return Some(KeyCode::Left);
    }
    if eq_chars(v, &['r', 'i', 'g', 'h', 't']) {
        return Some(KeyCode::Right);
    }
    if eq_chars(v, &['u', 'p']) {
        return Some(KeyCode::Up);
    }
    if eq_chars(v, &['d', 'o', 'w', 'n']) {
        return Some(KeyCode::Down);
    }
    if eq_chars(v, &['h', 'o', 'm', 'e']) {
        return Some(KeyCode::Home);
    }
    if eq_chars(v, &['e', 'n', 'd']) {
        return Some(KeyCode::End);
    }
    if eq_chars(v, &['p', 'a', 'g', 'e', 'u', 'p']) {
        return Some(KeyCode::PageUp);
    }
    if eq_chars(v, &['p', 'a', 'g', 'e', 'd', 'o', 'w', 'n']) {
        return Some(KeyCode::PageDown);
    }
    if eq_chars(v, &['b', 'a', 'c', 'k', 't', 'a', 'b']) {
        return Some(KeyCode::BackTab);
    }
    if eq_chars(v, &['b', 'a', 'c', 'k', 's', 'p', 'a', 'c', 'e']) {
        return Some(KeyCode::Backspace);
    }
    if eq_chars(v, &['d', 'e', 'l', 'e', 't', 'e']) {
        return Some(KeyCode::Delete);
    }
    if eq_chars(v, &['i', 'n', 's', 'e', 'r', 't']) {
        return Some(KeyCode::Insert);
    }
    if eq_chars(v, &['f', '1']) {
        return Some(KeyCode::F(1));
    }
    if eq_chars(v, &['f', '2']) {
        return Some(KeyCode::F(2));
    }
    if eq_chars(v, &['f', '3']) {
        return Some(KeyCode::F(3));
    }
    if eq_chars(v, &['f', '4']) {
        return Some(KeyCode::F(4));
    }
    if eq_chars(v, &['f', '5']) {
        return Some(KeyCode::F(5));
    }
    if eq_chars(v, &['f', '6']) {
        return Some(KeyCode::F(6));
    }
    if eq_chars(v, &['f', '7']) {
        return Some(KeyCode::F(7));
    }
    if eq_chars(v, &['f', '8']) {
        return Some(KeyCode::F(8));
    }
    if eq_chars(v, &['f', '9']) {
        return Some(KeyCode::F(9));
    }
    if eq_chars(v, &['f', '1', '0']) {
        return Some(KeyCode::F(10));
    }
    if eq_chars(v, &['f', '1', '1']) {
        return Some(KeyCode::F(11));
    }
    if eq_chars(v, &['f', '1', '2']) {
        return Some(KeyCode::F(12));
    }
    if eq_chars(v, &['s', 'p', 'a', 'c', 'e']) {
        return Some(KeyCode::Char(' '));
    }
    if eq_chars(v, &['h', 'y', 'p', 'h', 'e', 'n']) {
        return Some(KeyCode::Char('-'));
    }
    if eq_chars(v, &['m', 'i', 'n', 'u', 's']) {
        return Some(KeyCode::Char('-'));
    }
    if eq_chars(v, &['t', 'a', 'b']) {
        return Some(KeyCode::Tab);
    }
    None
}

/// The key event that a (lower-case) key name stands for, with modifiers `m`: a named
/// key (`backtab` also holds shift), or one ASCII character (upper case when shift
/// is held); anything else is unknown.
pub open spec fn key_of_name(s: Seq<char>, m: KeyModifiers) -> Result<KeyEvent, Seq<char>> {
    match named_key(s) {
        Some(code) => Ok(
            KeyEvent {
                code,
                modifiers: if code == KeyCode::BackTab {
                    KeyModifiers { shift: true, ..m }
                } else {
                    m
                },
            },
        ),
        None => if s.len() == 1 && (s[0] as u32) < 128 {
            Ok(
                KeyEvent {
                    code: KeyCode::Char(
                        if m.shift {
                            ascii_upper(s[0])
                        } else {
                            s[0]
                        },
                    ),
                    modifiers: m,
                },
            )
        } else {
            Err(unknown_key_message(s))
        },
    }
}

/// The key event that a key description such as `Ctrl-Alt-a` stands for (letters of
/// any case).
pub open spec fn key_event_of(raw: Seq<char>) -> Result<KeyEvent, Seq<char>> {
    let (rest, m) = extracted_modifiers(lower_ascii(raw), KeyModifiers::none());
    key_of_name(rest, m)
}

fn lower_ascii_exec(v: &Vec<char>) -> (r: Vec<char>)
    ensures
        r@ == lower_ascii(v@),
{
    let mut r: Vec<char> = Vec::new();
    let mut i: usize = 0;
    while i < v.len()
        invariant
            i <= v.len(),
            r@ == lower_ascii(v@.take(i as int)),
        decreases v.len() - i,
    {
        let c = v[i];
        let l = if 'A' <= c && c <= 'Z' {
            (c as u8 + 32) as char
        } else {
            c
        };
        r.push(l);
        assert(lower_ascii(v@.take(i + 1)) =~= lower_ascii(v@.take(i as int)).push(ascii_lower(c)));
        i += 1;
    }
    assert(v@.take(v.len() as int) =~= v@);
    r
}

fn has_prefix_exec(v: &Vec<char>, from: usize, p: &[char]) -> (r: bool)
    requires
        from <= v.len(),
    ensures
        r == has_prefix(v@.skip(from as int), p@),
{
    if v.len() - from < p.len() {
        return false;
    }
    let head = slice(v, from, from + p.len());
    assert(head@ =~= v@.skip(from as int).take(p@.len() as int));
    eq_chars(&head, p)
}

fn extract_modifiers(v: &Vec<char>) -> (r: (Vec<char>, KeyModifiers))
    ensures
        (r.0@, r.1) == extracted_modifiers(v@, KeyModifiers::none()),
{
    let mut m = KeyModifiers::empty();
    let mut i: usize = 0;
    let ctrl: [char; 5] = ['c', 't', 'r', 'l', '-'];
    let alt: [char; 4] = ['a', 'l', 't', '-'];
    let shift: [char; 6] = ['s', 'h', 'i', 'f', 't', '-'];
    assert(ctrl@ =~= seq!['c', 't', 'r', 'l', '-']);
    assert(alt@ =~= seq!['a', 'l', 't', '-']);
    assert(shift@ =~= seq!['s', 'h', 'i', 'f', 't', '-']);
    assert(v@.skip(0) =~= v@);
    loop
        invariant
            i <= v.len(),
            ctrl@ == seq!['c', 't', 'r', 'l', '-'],
            alt@ == seq!['a', 'l', 't', '-'],
            shift@ == seq!['s', 'h', 'i', 'f', 't', '-'],
            extracted_modifiers(v@.skip(i as int), m) == extracted_modifiers(v@, KeyModifiers::none()),
        decreases v.len() - i,
    {
        let ghost rest = v@.skip(i as int);
        if has_prefix_exec(v, i, &ctrl) {
            m = KeyModifiers { control: true, ..m };
            assert(rest.skip(5) =~= v@.skip(i + 5));
            i = i + 5;
        } else if has_prefix_exec(v, i, &alt) {
            m = KeyModifiers { alt: true, ..m };
            assert(rest.skip(4) =~= v@.skip(i + 4));
            i = i + 4;
        } else if has_prefix_exec(v, i, &shift) {
            m = KeyModifiers { shift: true, ..m };
            assert(rest.skip(6) =~= v@.skip(i + 6));
            i = i + 6;
        } else {
            let r = slice(v, i, v.len());
            assert(r@ =~= v@.skip(i as int));
            return (r, m);
        }
    }
}

fn unknown_key_message_exec(v: &Vec<char>) -> (r: String)
    ensures
        r@ == unknown_key_message(v@),
{
    let mut msg = String::new();
    push_str(&mut msg, "unknown key identifier '");
    let ghost start = msg@;
    let mut i: usize = 0;
    while i < v.len()
        invariant
            i <= v.len(),
            msg@ == start + v@.take(i as int),
        decreases v.len() - i,
    {
        push_char(&mut msg, v[i]);
        i += 1;
        assert(msg@ =~= start + v@.take(i as int));
    }
    assert(v@.take(v.len() as int) =~= v@);
    push_str(
        &mut msg,
        "' in keybinding\n\texpected a named key like 'enter', 'f1', 'left', or a single character",
    );
    msg
}

fn key_of_name_exec(v: &Vec<char>, m: KeyModifiers) -> (r: Result<KeyEvent, String>)
    ensures
        match r {
            Ok(k) => key_of_name(v@, m) == Ok::<KeyEvent, Seq<char>>(k),
            Err(e) => key_of_name(v@, m) == Err::<KeyEvent, Seq<char>>(e@),
        },
{
    match named_key_exec(v) {
        Some(code) => {
            let modifiers = match code {
                KeyCode::BackTab => KeyModifiers { shift: true, ..m },
                _ => m,
            };
            Ok(KeyEvent { code, modifiers })
        },
        None => {
            if v.len() == 1 && (v[0] as u32) < 128 {
                let c = v[0];
                let c2 = if m.shift && 'a' <= c && c <= 'z' {
                    (c as u8 - 32) as char
                } else {
                    c
                };
                Ok(KeyEvent { code: KeyCode::Char(c2), modifiers: m })
            } else {
                Err(unknown_key_message_exec(v))
            }
        },
    }
}

/// The key event that a key description such as `ctrl-a`, `alt-enter` or `F5`
/// stands for, or the message why it stands for none.
pub fn parse_key_event(raw: &str) -> (r: Result<KeyEvent, String>)
    ensures
        match r {
            Ok(k) => key_event_of(raw@) == Ok::<KeyEvent, Seq<char>>(k),
            Err(e) => key_event_of(raw@) == Err::<KeyEvent, Seq<char>>(e@),
        },
{
    let v = chars_of(raw);
    let low = lower_ascii_exec(&v);
    let (rest, m) = extract_modifiers(&low);
    key_of_name_exec(&rest, m)
}

/// The name of a key as written in key bindings (`F(n)` as `f(n)`); empty for keys
/// that bindings do not name.
pub open spec fn key_code_name(code: KeyCode) -> Seq<char> {
    match code {
        KeyCode::Backspace => "backspace"@,
        KeyCode::Enter => "enter"@,
        KeyCode::Left => "left"@,
        KeyCode::Right => "right"@,
        KeyCode::Up => "up"@,
        KeyCode::Down => "down"@,
        KeyCode::Home => "home"@,
        KeyCode::End => "end"@,
        KeyCode::PageUp => "pageup"@,
        KeyCode::PageDown => "pagedown"@,
        KeyCode::Tab => "tab"@,
        KeyCode::BackTab => "backtab"@,
        KeyCode::Delete => "delete"@,
        KeyCode::Insert => "insert"@,
        KeyCode::F(c) => "f("@ + decimal(c as nat) + ")"@,
        KeyCode::Char(c) => if c == ' ' {
            "space"@
        } else {
            seq![c]
        },
        KeyCode::Esc => "esc"@,
        _ => Seq::empty(),
    }
}

/// The name of a key event: the held modifiers (`ctrl-`, `shift-`, `alt-`, in this
/// order), then the name of the key.
pub open spec fn key_event_name(k: KeyEvent) -> Seq<char> {
    (if k.modifiers.control { "ctrl-"@ } else { Seq::empty() }) + (if k.modifiers.shift {
        "shift-"@
    } else {
        Seq::empty()
    }) + (if k.modifiers.alt { "alt-"@ } else { Seq::empty() }) + key_code_name(k.code)
}

fn push_key_code_name(s: &mut String, code: &KeyCode)
    ensures
        final(s)@ == old(s)@ + key_code_name(*code),
{
    match code {
        KeyCode::Backspace => push_str(s, "backspace"),
        KeyCode::Enter => push_str(s, "enter"),
        KeyCode::Left => push_str(s, "left"),
        KeyCode::Right => push_str(s, "right"),
        KeyCode::Up => push_str(s, "up"),
        KeyCode::Down => push_str(s, "down"),
        KeyCode::Home => push_str(s, "home"),
        KeyCode::End => push_str(s, "end"),
        KeyCode::PageUp => push_str(s, "pageup"),
        KeyCode::PageDown => push_str(s, "pagedown"),
        KeyCode::Tab => push_str(s, "tab"),
        KeyCode::BackTab => push_str(s, "backtab"),
        KeyCode::Delete => push_str(s, "delete"),
        KeyCode::Insert => push_str(s, "insert"),
        KeyCode::F(c) => {
            push_str(s, "f(");
            push_decimal(s, *c as u64);
            push_str(s, ")");
            assert(final(s)@ =~= old(s)@ + key_code_name(*code));
        },
        KeyCode::Char(c) => {
            if *c == ' ' {
                push_str(s, "space");
            } else {
                push_char(s, *c);
                assert(final(s)@ =~= old(s)@ + key_code_name(*code));
            }
        },
        KeyCode::Esc => push_str(s, "esc"),
        _ => {
            assert(old(s)@ + key_code_name(*code) =~= old(s)@);
        },
    }
}

/// The name of a key event, as key bindings write it.
pub fn key_event_to_string(key_event: &KeyEvent) -> (r: String)
    ensures
        r@ == key_event_name(*key_event),
{
    let mut key = String::new();
    if key_event.modifiers.control {
        push_str(&mut key, "ctrl-");
    }
    let ghost a = key@;
    if key_event.modifiers.shift {
        push_str(&mut key, "shift-");
    }
    let ghost b = key@;
    if key_event.modifiers.alt {
        push_str(&mut key, "alt-");
    }
    let ghost c = key@;
    push_key_code_name(&mut key, &key_event.code);
    assert(key@ =~= key_event_name(*key_event));
    key
}

/// The longest sequence of keys that one binding can hold.
pub const MAX_SEQUENCE_LENGTH: usize = 3;

/// How often `c` occurs in `s`.
pub open spec fn count_char(s: Seq<char>, c: char) -> int
    decreases s.len(),
{
    if s.len() == 0 {
        0
    } else {
        count_char(s.drop_last(), c) + (if s.last() == c { 1int } else { 0int })
    }
}

/// `s` holds `><`.
pub open spec fn has_separator(s: Seq<char>) -> bool {
    exists|i: int| 0 <= i && i + 1 < s.len() && s[i] == '>' && #[trigger] s[i + 1] == '<'
}

/// `s` without one leading `c`.
pub open spec fn strip_first(s: Seq<char>, c: char) -> Seq<char> {
    if s.len() > 0 && s[0] == c {
        s.skip(1)
    } else {
        s
    }
}

/// The pieces of `cur + s` between the separators `><`, from left to right.
pub open spec fn split_pieces(s: Seq<char>, cur: Seq<char>) -> Seq<Seq<char>>
    decreases s.len(),
{
    if s.len() == 0 {
        seq![cur]
    } else if s.len() >= 2 && s[0] == '>' && s[1] == '<' {
        seq![cur] + split_pieces(s.skip(2), Seq::empty())
    } else {
        split_pieces(s.skip(1), cur.push(s[0]))
    }
}

/// A piece without its leading `<`, or else without its trailing `>`.
pub open spec fn clean_piece(p: Seq<char>) -> Seq<char> {
    if p.len() > 0 && p[0] == '<' {
        p.skip(1)
    } else if p.len() > 0 && p.last() == '>' {
        p.drop_last()
    } else {
        p
    }
}

/// The key events of the pieces, or the message of the first piece that is no key.
pub open spec fn key_events_of(ps: Seq<Seq<char>>) -> Result<Seq<KeyEvent>, Seq<char>>
    decreases ps.len(),
{
    if ps.len() == 0 {
        Ok(Seq::empty())
    } else {
        match key_events_of(ps.drop_last()) {
            Err(e) => Err(e),
            Ok(ks) => match key_event_of(ps.last()) {
                Ok(k) => Ok(ks.push(k)),
                Err(e) => Err(e),
            },
        }
    }
}

pub open spec fn bracket_message(raw: Seq<char>) -> Seq<char> {
    "syntax error in key sequence `"@ + raw
        + "`: unmatched angle brackets, make sure every '<' has a corresponding '>'"@
}

pub open spec fn length_message(raw: Seq<char>, n: nat) -> Seq<char> {
    "the maximum supported sequence lenght is "@ + decimal(MAX_SEQUENCE_LENGTH as nat) + " and `"@
        + raw + "`(len="@ + decimal(n) + ") is exceeding this value"@
}

/// The keys of a binding such as `<ctrl-a><enter>` or `g`: the brackets must pair up,
/// the keys are separated by `><`, and a binding holds at most three keys.
pub open spec fn key_sequence_of(raw: Seq<char>) -> Result<Seq<KeyEvent>, Seq<char>> {
    if count_char(raw, '>') != count_char(raw, '<') {
        Err(bracket_message(raw))
    } else {
        let r = if !has_separator(raw) {
            strip_first(strip_first(raw, '<'), '>')
        } else {
            raw
        };
        let ps = split_pieces(r, Seq::empty()).map_values(|p: Seq<char>| clean_piece(p));
        if ps.len() <= MAX_SEQUENCE_LENGTH {
            key_events_of(ps)
        } else {
            Err(length_message(r, ps.len()))
        }
    }
}

fn count_char_exec(v: &Vec<char>, c: char) -> (r: usize)
    ensures
        r == count_char(v@, c),
{
    let mut n: usize = 0;
    let mut i: usize = 0;
    while i < v.len()
        invariant
            i <= v.len(),
            n == count_char(v@.take(i as int), c),
            n <= i,
        decreases v.len() - i,
    {
        assert(v@.take(i + 1).drop_last() =~= v@.take(i as int));
        if v[i] == c {
            n += 1;
        }
        i += 1;
    }
    assert(v@.take(v.len() as int) =~= v@);
    n
}

fn has_separator_exec(v: &Vec<char>) -> (r: bool)
    ensures
        r == has_separator(v@),
{
    let mut i: usize = 0;
    while v.len() > 1 && i < v.len() - 1
        invariant
            i <= v.len(),
            forall|j: int|
                0 <= j < i && j + 1 < v@.len() ==> !(v@[j] == '>' && #[trigger] v@[j + 1] == '<'),
        decreases v.len() - i,
    {
        if v[i] == '>' && v[i + 1] == '<' {
            return true;
        }
        i += 1;
    }
    false
}

fn strip_first_exec(v: &Vec<char>, c: char) -> (r: Vec<char>)
    ensures
        r@ == strip_first(v@, c),
{
    if v.len() > 0 && v[0] == c {
        let r = slice(v, 1, v.len());
        assert(r@ =~= v@.skip(1));
        r
    } else {
        slice(v, 0, v.len())
    }
}

fn split_pieces_exec(v: &Vec<char>) -> (r: Vec<Vec<char>>)
    ensures
        r@.map_values(|p: Vec<char>| p@) == split_pieces(v@, Seq::empty()),
{
    let mut pieces: Vec<Vec<char>> = Vec::new();
    let mut cur: Vec<char> = Vec::new();
    let mut i: usize = 0;
    assert(v@.skip(0) =~= v@);
    while i < v.len()
        invariant
            i <= v.len(),
            pieces@.map_values(|p: Vec<char>| p@) + split_pieces(v@.skip(i as int), cur@)
                == split_pieces(v@, Seq::empty()),
        decreases v.len() - i,
    {
        let ghost rest = v@.skip(i as int);
        let ghost before = pieces@.map_values(|p: Vec<char>| p@);
        if i + 1 < v.len() && v[i] == '>' && v[i + 1] == '<' {
            let ghost c = cur@;
            let done = cur;
            cur = Vec::new();
            pieces.push(done);
            assert(rest.skip(2) =~= v@.skip(i + 2));
            assert(pieces@.map_values(|p: Vec<char>| p@) =~= before.push(c));
            assert(before + split_pieces(rest, c) =~= before.push(c) + split_pieces(
                v@.skip(i + 2),
                Seq::empty(),
            ));
            assert(cur@ =~= Seq::<char>::empty());
            i += 2;
        } else {
            let ghost c = cur@;
            cur.push(v[i]);
            assert(rest.skip(1) =~= v@.skip(i + 1));
            i += 1;
        }
    }
    let ghost before = pieces@.map_values(|p: Vec<char>| p@);
    let ghost c = cur@;
    assert(v@.skip(i as int) =~= Seq::<char>::empty());
    pieces.push(cur);
    assert(pieces@.map_values(|p: Vec<char>| p@) =~= before.push(c));
    assert(before + seq![c] =~= before.push(c));
    pieces
}

fn clean_piece_exec(p: &Vec<char>) -> (r: Vec<char>)
    ensures
        r@ == clean_piece(p@),
{
    if p.len() > 0 && p[0] == '<' {
        let r = slice(p, 1, p.len());
        assert(r@ =~= p@.skip(1));
        r
    } else if p.len() > 0 && p[p.len() - 1] == '>' {
        let r = slice(p, 0, p.len() - 1);
        assert(r@ =~= p@.drop_last());
        r
    } else {
        slice(p, 0, p.len())
    }
}

fn push_chars(s: &mut String, v: &Vec<char>)
    ensures
        final(s)@ == old(s)@ + v@,
{
    let mut i: usize = 0;
    while i < v.len()
        invariant
            i <= v.len(),
            s@ == old(s)@ + v@.take(i as int),
        decreases v.len() - i,
    {
        push_char(s, v[i]);
        i += 1;
        assert(s@ =~= old(s)@ + v@.take(i as int));
    }
    assert(v@.take(v.len() as int) =~= v@);
}

/// The keys of a binding such as `<ctrl-a><enter>`, `<esc>` or `g`, or the message
/// why the binding is not well formed.
pub fn parse_key_sequence(raw: &str) -> (r: Result<Vec<KeyEvent>, String>)
    ensures
        match r {
            Ok(ks) => key_sequence_of(raw@) == Ok::<Seq<KeyEvent>, Seq<char>>(ks@),
            Err(e) => key_sequence_of(raw@) == Err::<Seq<KeyEvent>, Seq<char>>(e@),
        },
{
    let v = chars_of(raw);
    if count_char_exec(&v, '>') != count_char_exec(&v, '<') {
        let mut msg = String::new();
        push_str(&mut msg, "syntax error in key sequence `");
        push_chars(&mut msg, &v);
        push_str(
            &mut msg,
            "`: unmatched angle brackets, make sure every '<' has a corresponding '>'",
        );
        return Err(msg);
    }
    let r = if !has_separator_exec(&v) {
        let a = strip_first_exec(&v, '<');
        strip_first_exec(&a, '>')
    } else {
        let s = slice(&v, 0, v.len());
        assert(s@ =~= v@);
        s
    };
    assert(r@ == (if !has_separator(raw@) {
        strip_first(strip_first(raw@, '<'), '>')
    } else {
        raw@
    }));
    let pieces = split_pieces_exec(&r);
    let ghost ps = split_pieces(r@, Seq::empty()).map_values(|p: Seq<char>| clean_piece(p));
    assert(ps.len() == pieces@.len());
    if pieces.len() > MAX_SEQUENCE_LENGTH {
        let mut msg = String::new();
        push_str(&mut msg, "the maximum supported sequence lenght is ");
        push_decimal(&mut msg, MAX_SEQUENCE_LENGTH as u64);
        push_str(&mut msg, " and `");
        push_chars(&mut msg, &r);
        push_str(&mut msg, "`(len=");
        push_decimal(&mut msg, pieces.len() as u64);
        push_str(&mut msg, ") is exceeding this value");
        return Err(msg);
    }
    let mut keys: Vec<KeyEvent> = Vec::new();
    let mut i: usize = 0;
    assert(ps.take(0) =~= Seq::<Seq<char>>::empty());
    assert(key_sequence_of(raw@) == key_events_of(ps));
    while i < pieces.len()
        invariant
            key_sequence_of(raw@) == key_events_of(ps),
            i <= pieces@.len(),
            ps.len() == pieces@.len(),
            forall|j: int| 0 <= j < pieces@.len() ==> #[trigger] ps[j] == clean_piece(pieces@[j]@),
            key_events_of(ps.take(i as int)) == Ok::<Seq<KeyEvent>, Seq<char>>(keys@),
        decreases pieces@.len() - i,
    {
        let piece = clean_piece_exec(&pieces[i]);
        let text = piece_string(&piece);
        assert(ps.take(i + 1).drop_last() =~= ps.take(i as int));
        assert(ps.take(i + 1).last() == ps[i as int]);
        match parse_key_event(text.as_str()) {
            Ok(k) => {
                keys.push(k);
            },
            Err(e) => {
                assert(key_events_of(ps.take(i + 1)) == Err::<Seq<KeyEvent>, Seq<char>>(e@));
                proof {
                    lemma_key_events_err_prefix(ps, (i + 1) as int);
                }
                return Err(e);
            },
        }
        i += 1;
    }
    assert(ps.take(pieces.len() as int) =~= ps);
    Ok(keys)
}

/// Once a prefix holds a key that is no key, the whole does.
proof fn lemma_key_events_err_prefix(ps: Seq<Seq<char>>, i: int)
    requires
        0 <= i <= ps.len(),
        key_events_of(ps.take(i)) is Err,
    ensures
        key_events_of(ps) == key_events_of(ps.take(i)),
    decreases ps.len() - i,
{
    if i < ps.len() {
        assert(ps.take(i + 1).drop_last() =~= ps.take(i));
        lemma_key_events_err_prefix(ps, i + 1);
    } else {
        assert(ps.take(i) =~= ps);
    }
}

fn piece_string(v: &Vec<char>) -> (r: String)
    ensures
        r@ == v@,
{
    let mut s = String::new();
    push_chars(&mut s, v);
    assert(s@ =~= v@);
    s
}

// ------------------------------------------------------------------
// Reading a key's name back
// ------------------------------------------------------------------

/// A key event whose name reads back as the same event: no super, hyper or meta key, and
/// a named key (not a function key), the back tab with shift, or an ASCII character whose
/// case the name keeps (upper case letters only with shift, lower case ones only without).
pub open spec fn names_back(k: KeyEvent) -> bool {
    &&& !k.modifiers.super_key && !k.modifiers.hyper && !k.modifiers.meta
    &&& match k.code {
        KeyCode::Backspace | KeyCode::Enter | KeyCode::Left | KeyCode::Right | KeyCode::Up
        | KeyCode::Down | KeyCode::Home | KeyCode::End | KeyCode::PageUp | KeyCode::PageDown
        | KeyCode::Tab | KeyCode::Delete | KeyCode::Insert | KeyCode::Esc => true,
        KeyCode::BackTab => k.modifiers.shift,
        KeyCode::Char(c) => (c as u32) < 128 && if k.modifiers.shift {
            !('a' <= c && c <= 'z')
        } else {
            !('A' <= c && c <= 'Z')
        },
        _ => false,
    }
}

/// `s` starts with none of the modifier prefixes.
pub open spec fn no_modifier_prefix(s: Seq<char>) -> bool {
    &&& !has_prefix(s, seq!['c', 't', 'r', 'l', '-'])
    &&& !has_prefix(s, seq!['a', 'l', 't', '-'])
    &&& !has_prefix(s, seq!['s', 'h', 'i', 'f', 't', '-'])
}

proof fn lemma_lower_concat(a: Seq<char>, b: Seq<char>)
    ensures
        lower_ascii(a + b) == lower_ascii(a) + lower_ascii(b),
{
    assert(lower_ascii(a + b) =~= lower_ascii(a) + lower_ascii(b));
}

proof fn lemma_extract_ctrl(rest: Seq<char>, m: KeyModifiers)
    ensures
        extracted_modifiers(seq!['c', 't', 'r', 'l', '-'] + rest, m) == extracted_modifiers(
            rest,
            KeyModifiers { control: true, ..m },
        ),
{
    let s = seq!['c', 't', 'r', 'l', '-'] + rest;
    assert(s.take(5) =~= seq!['c', 't', 'r', 'l', '-']);
    assert(s.skip(5) =~= rest);
}

proof fn lemma_extract_shift(rest: Seq<char>, m: KeyModifiers)
    ensures
        extracted_modifiers(seq!['s', 'h', 'i', 'f', 't', '-'] + rest, m) == extracted_modifiers(
            rest,
            KeyModifiers { shift: true, ..m },
        ),
{
    let s = seq!['s', 'h', 'i', 'f', 't', '-'] + rest;
    assert(s[0] == 's');
    assert(!has_prefix(s, seq!['c', 't', 'r', 'l', '-'])) by {
        if has_prefix(s, seq!['c', 't', 'r', 'l', '-']) {
            assert(s.take(5)[0] == s[0]);
        }
    }
    assert(!has_prefix(s, seq!['a', 'l', 't', '-'])) by {
        if has_prefix(s, seq!['a', 'l', 't', '-']) {
            assert(s.take(4)[0] == s[0]);
        }
    }
    assert(s.take(6) =~= seq!['s', 'h', 'i', 'f', 't', '-']);
    assert(s.skip(6) =~= rest);
}

proof fn lemma_extract_alt(rest: Seq<char>, m: KeyModifiers)
    ensures
        extracted_modifiers(seq!['a', 'l', 't', '-'] + rest, m) == extracted_modifiers(
            rest,
            KeyModifiers { alt: true, ..m },
        ),
{
    let s = seq!['a', 'l', 't', '-'] + rest;
    assert(s[0] == 'a');
    assert(!has_prefix(s, seq!['c', 't', 'r', 'l', '-'])) by {
        if has_prefix(s, seq!['c', 't', 'r', 'l', '-']) {
            assert(s.take(5)[0] == s[0]);
        }
    }
    assert(s.take(4) =~= seq!['a', 'l', 't', '-']);
    assert(s.skip(4) =~= rest);
}

/// The lower-case form of a key's name, which starts with no modifier prefix and names the
/// key with the given modifiers.
proof fn lemma_code_name(k: KeyEvent) -> (l: Seq<char>)
    requires
        names_back(k),
    ensures
        lower_ascii(key_code_name(k.code)) == l,
        no_modifier_prefix(l),
        key_of_name(l, k.modifiers) == Ok::<KeyEvent, Seq<char>>(k),
{
    let m = k.modifiers;
    match k.code {
        KeyCode::Char(c) => {
            if c == ' ' {
                reveal_strlit("space");
                let l = seq!['s', 'p', 'a', 'c', 'e'];
                assert(lower_ascii(key_code_name(k.code)) =~= l);
                assert(!has_prefix(l, seq!['s', 'h', 'i', 'f', 't', '-'])) by {
                    if has_prefix(l, seq!['s', 'h', 'i', 'f', 't', '-']) {
                        assert(l.take(6)[1] == l[1]);
                    }
                }
                assert(named_key(l) == Some(KeyCode::Char(' ')));
                l
            } else {
                let l = seq![ascii_lower(c)];
                assert(lower_ascii(key_code_name(k.code)) =~= l);
                assert(named_key(l) is None);
                if m.shift && 'A' <= c && c <= 'Z' {
                    let x = ascii_lower(c);
                    assert(x as int == c as int + 32);
                    assert(ascii_upper(x) as int == c as int);
                }
                l
            }
        },
        KeyCode::Enter => {
            reveal_strlit("enter");
            let l = seq!['e', 'n', 't', 'e', 'r'];
            assert(lower_ascii(key_code_name(k.code)) =~= l);
            assert(named_key(l) == Some(KeyCode::Enter));
            l
        },
        KeyCode::Esc => {
            reveal_strlit("esc");
            let l = seq!['e', 's', 'c'];
            assert(lower_ascii(key_code_name(k.code)) =~= l);
            assert(named_key(l) == Some(KeyCode::Esc));
            l
        },
        KeyCode::Left => {
            reveal_strlit("left");
            let l = seq!['l', 'e', 'f', 't'];
            assert(lower_ascii(key_code_name(k.code)) =~= l);
            assert(named_key(l) == Some(KeyCode::Left));
            l
        },
        KeyCode::Right => {
            reveal_strlit("right");
            let l = seq!['r', 'i', 'g', 'h', 't'];
            assert(lower_ascii(key_code_name(k.code)) =~= l);
            assert(named_key(l) == Some(KeyCode::Right));
            l
        },
        KeyCode::Up => {
            reveal_strlit("up");
            let l = seq!['u', 'p'];
            assert(lower_ascii(key_code_name(k.code)) =~= l);
            assert(named_key(l) == Some(KeyCode::Up));
            l
        },
        KeyCode::Down => {
            reveal_strlit("down");
            let l = seq!['d', 'o', 'w', 'n'];
            assert(lower_ascii(key_code_name(k.code)) =~= l);
            assert(named_key(l) == Some(KeyCode::Down));
            l
        },
        KeyCode::Home => {
            reveal_strlit("home");
            let l = seq!['h', 'o', 'm', 'e'];
            assert(lower_ascii(key_code_name(k.code)) =~= l);
            assert(named_key(l) == Some(KeyCode::Home));
            l
        },
        KeyCode::End => {
            reveal_strlit("end");
            let l = seq!['e', 'n', 'd'];
            assert(lower_ascii(key_code_name(k.code)) =~= l);
            assert(named_key(l) == Some(KeyCode::End));
            l
        },
        KeyCode::PageUp => {
            reveal_strlit("pageup");
            let l = seq!['p', 'a', 'g', 'e', 'u', 'p'];
            assert(lower_ascii(key_code_name(k.code)) =~= l);
            assert(named_key(l) == Some(KeyCode::PageUp));
            l
        },
        KeyCode::PageDown => {
            reveal_strlit("pagedown");
            let l = seq!['p', 'a', 'g', 'e', 'd', 'o', 'w', 'n'];
            assert(lower_ascii(key_code_name(k.code)) =~= l);
            assert(named_key(l) == Some(KeyCode::PageDown));
            l
        },
        KeyCode::Tab => {
            reveal_strlit("tab");
            let l = seq!['t', 'a', 'b'];
            assert(lower_ascii(key_code_name(k.code)) =~= l);
            assert(named_key(l) == Some(KeyCode::Tab));
            l
        },
        KeyCode::BackTab => {
            reveal_strlit("backtab");
            let l = seq!['b', 'a', 'c', 'k', 't', 'a', 'b'];
            assert(lower_ascii(key_code_name(k.code)) =~= l);
            assert(named_key(l) == Some(KeyCode::BackTab));
            l
        },
        KeyCode::Backspace => {
            reveal_strlit("backspace");
            let l = seq!['b', 'a', 'c', 'k', 's', 'p', 'a', 'c', 'e'];
            assert(lower_ascii(key_code_name(k.code)) =~= l);
            assert(named_key(l) == Some(KeyCode::Backspace));
            l
        },
        KeyCode::Delete => {
            reveal_strlit("delete");
            let l = seq!['d', 'e', 'l', 'e', 't', 'e'];
            assert(lower_ascii(key_code_name(k.code)) =~= l);
            assert(named_key(l) == Some(KeyCode::Delete));
            l
        },
        KeyCode::Insert => {
            reveal_strlit("insert");
            let l = seq!['i', 'n', 's', 'e', 'r', 't'];
            assert(lower_ascii(key_code_name(k.code)) =~= l);
            assert(named_key(l) == Some(KeyCode::Insert));
            l
        },
        _ => {
            assert(false);
            Seq::empty()
        },
    }
}

/// Naming a key event and reading the name back gives the same event, for every event
/// whose name can say it (see `names_back`).
pub proof fn lemma_key_name_reads_back(k: KeyEvent)
    requires
        names_back(k),
    ensures
        key_event_of(key_event_name(k)) == Ok::<KeyEvent, Seq<char>>(k),
{
    reveal_strlit("ctrl-");
    reveal_strlit("shift-");
    reveal_strlit("alt-");
    let m = k.modifiers;
    let cp: Seq<char> = if m.control { seq!['c', 't', 'r', 'l', '-'] } else { Seq::empty() };
    let sp: Seq<char> = if m.shift { seq!['s', 'h', 'i', 'f', 't', '-'] } else { Seq::empty() };
    let ap: Seq<char> = if m.alt { seq!['a', 'l', 't', '-'] } else { Seq::empty() };
    let n = key_code_name(k.code);
    assert(key_event_name(k) =~= cp + (sp + (ap + n)));
    let l = lemma_code_name(k);
    lemma_lower_concat(ap, n);
    lemma_lower_concat(sp, ap + n);
    lemma_lower_concat(cp, sp + (ap + n));
    assert(lower_ascii(cp) =~= cp);
    assert(lower_ascii(sp) =~= sp);
    assert(lower_ascii(ap) =~= ap);
    let none = KeyModifiers::none();
    let m1 = if m.control { KeyModifiers { control: true, ..none } } else { none };
    let m2 = if m.shift { KeyModifiers { shift: true, ..m1 } } else { m1 };
    let m3 = if m.alt { KeyModifiers { alt: true, ..m2 } } else { m2 };
    if m.control {
        lemma_extract_ctrl(sp + (ap + l), none);
    } else {
        assert(cp + (sp + (ap + l)) =~= sp + (ap + l));
    }
    if m.shift {
        lemma_extract_shift(ap + l, m1);
    } else {
        assert(sp + (ap + l) =~= ap + l);
    }
    if m.alt {
        lemma_extract_alt(l, m2);
    } else {
        assert(ap + l =~= l);
    }
    assert(extracted_modifiers(l, m3) == (l, m3));
    assert(m3 == m);
}

} // verus!
