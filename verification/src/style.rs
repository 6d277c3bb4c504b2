//! Styles of the interface written as text, such as `underline red on blue`.
//!
//! A style line names a foreground and, after `on `, a background. Each part may carry the
//! words `bold`, `underline` and `inverse`; a colour is a name (`red`, `bold red`), an index
//! (`color12`), a shade of gray (`gray7`) or a point of the colour cube (`rgb123`).

use vstd::prelude::*;
use crate::parser::{chars_of, slice, is_digit, all_digits, digits_value, digit_value, is_digit_exec, all_digits_exec};
use crate::parser::parse_num_exec;
use crate::text::{
    trim_start, trim_end, trim_start_matches, find_from, contains, replace_all, trim_exec, find_exec, contains_exec, trim_start_matches_exec, replace_all_exec, eq_text, lemma_find_from_bound,
};

verus! {

/// A terminal colour.
#[derive(Clone, Copy, Debug, PartialEq, Eq, Structural)]
pub enum Color {
    Reset,
    Black,
    Red,
    Green,
    Yellow,
    Blue,
    Magenta,
    Cyan,
    Gray,
    DarkGray,
    LightRed,
    LightGreen,
    LightYellow,
    LightBlue,
    LightMagenta,
    LightCyan,
    White,
    Rgb(u8, u8, u8),
    Indexed(u8),
}

/// A set of text modifiers, one flag each.
#[derive(Clone, Copy, Debug, PartialEq, Eq, Structural)]
pub struct Modifier {
    pub bold: bool,
    pub dim: bool,
    pub italic: bool,
    pub underlined: bool,
    pub slow_blink: bool,
    pub rapid_blink: bool,
    pub reversed: bool,
    pub hidden: bool,
    pub crossed_out: bool,
}

/// The set with no modifier.
pub open spec fn no_modifier() -> Modifier {
    Modifier {
        bold: false,
        dim: false,
        italic: false,
        underlined: false,
        slow_blink: false,
        rapid_blink: false,
        reversed: false,
        hidden: false,
        crossed_out: false,
    }
}

impl Modifier {
    /// The modifiers in `self` or in `other`.
    pub open spec fn join(self, other: Modifier) -> Modifier {
        Modifier {
            bold: self.bold || other.bold,
            dim: self.dim || other.dim,
            italic: self.italic || other.italic,
            underlined: self.underlined || other.underlined,
            slow_blink: self.slow_blink || other.slow_blink,
            rapid_blink: self.rapid_blink || other.rapid_blink,
            reversed: self.reversed || other.reversed,
            hidden: self.hidden || other.hidden,
            crossed_out: self.crossed_out || other.crossed_out,
        }
    }

    /// The modifiers in `self` and not in `other`.
    pub open spec fn without(self, other: Modifier) -> Modifier {
        Modifier {
            bold: self.bold && !other.bold,
            dim: self.dim && !other.dim,
            italic: self.italic && !other.italic,
            underlined: self.underlined && !other.underlined,
            slow_blink: self.slow_blink && !other.slow_blink,
            rapid_blink: self.rapid_blink && !other.rapid_blink,
            reversed: self.reversed && !other.reversed,
            hidden: self.hidden && !other.hidden,
            crossed_out: self.crossed_out && !other.crossed_out,
        }
    }

    /// Every modifier of `other` is in `self`.
    pub open spec fn holds(self, other: Modifier) -> bool {
        &&& other.bold ==> self.bold
        &&& other.dim ==> self.dim
        &&& other.italic ==> self.italic
        &&& other.underlined ==> self.underlined
        &&& other.slow_blink ==> self.slow_blink
        &&& other.rapid_blink ==> self.rapid_blink
        &&& other.reversed ==> self.reversed
        &&& other.hidden ==> self.hidden
        &&& other.crossed_out ==> self.crossed_out
    }

    pub fn empty() -> (m: Modifier)
        ensures
            m == no_modifier(),
    {
        Modifier {
            bold: false,
            dim: false,
            italic: false,
            underlined: false,
            slow_blink: false,
            rapid_blink: false,
            reversed: false,
            hidden: false,
            crossed_out: false,
        }
    }

    pub fn bold() -> (m: Modifier)
        ensures
            m == (Modifier { bold: true, ..no_modifier() }),
    {
        Modifier { bold: true, ..Modifier::empty() }
    }

    pub fn underlined() -> (m: Modifier)
        ensures
            m == (Modifier { underlined: true, ..no_modifier() }),
    {
        Modifier { underlined: true, ..Modifier::empty() }
    }

    pub fn reversed() -> (m: Modifier)
        ensures
            m == (Modifier { reversed: true, ..no_modifier() }),
    {
        Modifier { reversed: true, ..Modifier::empty() }
    }

    /// The modifiers in either set.
    pub fn union(self, other: Modifier) -> (m: Modifier)
        ensures
            m == self.join(other),
    {
        Modifier {
            bold: self.bold || other.bold,
            dim: self.dim || other.dim,
            italic: self.italic || other.italic,
            underlined: self.underlined || other.underlined,
            slow_blink: self.slow_blink || other.slow_blink,
            rapid_blink: self.rapid_blink || other.rapid_blink,
            reversed: self.reversed || other.reversed,
            hidden: self.hidden || other.hidden,
            crossed_out: self.crossed_out || other.crossed_out,
        }
    }

    /// The modifiers of `self` that are not in `other`.
    pub fn difference(self, other: Modifier) -> (m: Modifier)
        ensures
            m == self.without(other),
    {
        Modifier {
            bold: self.bold && !other.bold,
            dim: self.dim && !other.dim,
            italic: self.italic && !other.italic,
            underlined: self.underlined && !other.underlined,
            slow_blink: self.slow_blink && !other.slow_blink,
            rapid_blink: self.rapid_blink && !other.rapid_blink,
            reversed: self.reversed && !other.reversed,
            hidden: self.hidden && !other.hidden,
            crossed_out: self.crossed_out && !other.crossed_out,
        }
    }

    /// Every modifier of `other` is set in `self`.
    pub fn contains(self, other: Modifier) -> (r: bool)
        ensures
            r == self.holds(other),
    {
        (!other.bold || self.bold) && (!other.dim || self.dim) && (!other.italic || self.italic)
            && (!other.underlined || self.underlined) && (!other.slow_blink || self.slow_blink)
            && (!other.rapid_blink || self.rapid_blink) && (!other.reversed || self.reversed)
            && (!other.hidden || self.hidden) && (!other.crossed_out || self.crossed_out)
    }
}

/// How text is drawn: colours, and the modifiers added and taken away.
#[derive(Clone, Copy, Debug, PartialEq, Eq, Structural)]
pub struct Style {
    pub fg: Option<Color>,
    pub bg: Option<Color>,
    pub add_modifier: Modifier,
    pub sub_modifier: Modifier,
}

/// The style that changes nothing.
pub open spec fn plain_style() -> Style {
    Style { fg: None, bg: None, add_modifier: no_modifier(), sub_modifier: no_modifier() }
}

impl Default for Style {
    fn default() -> (s: Style)
        ensures
            s == plain_style(),
    {
        Style { fg: None, bg: None, add_modifier: Modifier::empty(), sub_modifier: Modifier::empty() }
    }
}

impl Style {
    /// The style with foreground `c`.
    pub fn fg(self, c: Color) -> (s: Style)
        ensures
            s == (Style { fg: Some(c), ..self }),
    {
        Style { fg: Some(c), ..self }
    }

    /// The style with background `c`.
    pub fn bg(self, c: Color) -> (s: Style)
        ensures
            s == (Style { bg: Some(c), ..self }),
    {
        Style { bg: Some(c), ..self }
    }

    /// The style that adds the modifiers `m`, which it no longer takes away.
    pub fn add_modifier(self, m: Modifier) -> (s: Style)
        ensures
            s == (Style {
                add_modifier: self.add_modifier.join(m),
                sub_modifier: self.sub_modifier.without(m),
                ..self
            }),
    {
        Style {
            add_modifier: self.add_modifier.union(m),
            sub_modifier: self.sub_modifier.difference(m),
            ..self
        }
    }
}

// ------------------------------------------------------------------
// Text
// ------------------------------------------------------------------

/// The number of bytes of `c` in UTF-8.
pub open spec fn width(c: char) -> int {
    if (c as u32) < 0x80 {
        1
    } else if (c as u32) < 0x800 {
        2
    } else if (c as u32) < 0x10000 {
        3
    } else {
        4
    }
}

/// The number of bytes of `s` in UTF-8.
pub open spec fn width_sum(s: Seq<char>) -> int
    decreases s.len(),
{
    if s.len() == 0 {
        0
    } else {
        width_sum(s.drop_last()) + width(s.last())
    }
}

/// The first `j`, from `j0` on, at which the byte offset `b` of `s` begins a character
/// (`s.len()` where `b` is the end of `s`).
pub open spec fn char_at_byte(s: Seq<char>, b: int, j0: int) -> Option<int>
    decreases s.len() + 1 - j0,
{
    if j0 < 0 || j0 > s.len() {
        None
    } else if width_sum(s.take(j0)) == b {
        Some(j0)
    } else {
        char_at_byte(s, b, j0 + 1)
    }
}

/// The value of the decimal digit whose byte stands at offset `k` of `s`, or 0 where that byte
/// is no digit.
pub open spec fn digit_at_byte(s: Seq<char>, k: int) -> int {
    match char_at_byte(s, k, 0) {
        Some(j) => if j < s.len() && is_digit(s[j]) {
            digit_value(s[j])
        } else {
            0
        },
        None => 0,
    }
}

/// A number from 0 to 255 read from `s` (an optional `+`, then digits), or 0 where `s` is
/// no such number.
pub open spec fn u8_or_zero(s: Seq<char>) -> int {
    let d = if s.len() > 0 && s[0] == '+' {
        s.skip(1)
    } else {
        s
    };
    if d.len() > 0 && all_digits(d) && digits_value(d) <= 255 {
        digits_value(d)
    } else {
        0
    }
}

// ------------------------------------------------------------------
// Colours
// ------------------------------------------------------------------

/// The colour text `s` without the white space around it.
pub open spec fn color_text(s: Seq<char>) -> Seq<char> {
    trim_end(trim_start(s))
}

/// The index of an `rgb` colour: 16, then 36 per step of red, 6 per step of green, 1 per
/// step of blue; the steps are the digits at bytes 3, 4 and 5.
pub open spec fn rgb_index(t: Seq<char>) -> int {
    16 + 36 * digit_at_byte(t, 3) + 6 * digit_at_byte(t, 4) + digit_at_byte(t, 5)
}

/// The colour named by `s`.
pub open spec fn color_of(s: Seq<char>) -> Option<Color> {
    let t = color_text(s);
    if contains(t, "bright color"@) {
        Some(
            Color::Indexed(
                u8_or_zero(trim_start_matches(trim_start_matches(t, "bright "@), "color"@)) as u8,
            ),
        )
    } else if contains(t, "color"@) {
        Some(Color::Indexed(u8_or_zero(trim_start_matches(t, "color"@)) as u8))
    } else if contains(t, "gray"@) {
        Some(Color::Indexed((232 + u8_or_zero(trim_start_matches(t, "gray"@))) as u8))
    } else if contains(t, "rgb"@) {
        Some(Color::Indexed(rgb_index(t) as u8))
    } else if t == "bold black"@ {
        Some(Color::Indexed(8))
    } else if t == "bold red"@ {
        Some(Color::Indexed(9))
    } else if t == "bold green"@ {
        Some(Color::Indexed(10))
    } else if t == "bold yellow"@ {
        Some(Color::Indexed(11))
    } else if t == "bold blue"@ {
        Some(Color::Indexed(12))
    } else if t == "bold magenta"@ {
        Some(Color::Indexed(13))
    } else if t == "bold cyan"@ {
        Some(Color::Indexed(14))
    } else if t == "bold white"@ {
        Some(Color::Indexed(15))
    } else if t == "black"@ {
        Some(Color::Indexed(0))
    } else if t == "red"@ {
        Some(Color::Indexed(1))
    } else if t == "green"@ {
        Some(Color::Indexed(2))
    } else if t == "yellow"@ {
        Some(Color::Indexed(3))
    } else if t == "blue"@ {
        Some(Color::Indexed(4))
    } else if t == "magenta"@ {
        Some(Color::Indexed(5))
    } else if t == "cyan"@ {
        Some(Color::Indexed(6))
    } else if t == "white"@ {
        Some(Color::Indexed(7))
    } else {
        None
    }
}

/// Reading the colour `s` stays within a byte: a gray shade is at most 23, and an `rgb`
/// colour has its three digits and an index of at most 255.
pub open spec fn color_defined(s: Seq<char>) -> bool {
    let t = color_text(s);
    if contains(t, "bright color"@) || contains(t, "color"@) {
        true
    } else if contains(t, "gray"@) {
        232 + u8_or_zero(trim_start_matches(t, "gray"@)) <= 255
    } else if contains(t, "rgb"@) {
        width_sum(t) >= 6 && rgb_index(t) <= 255
    } else {
        true
    }
}

// ------------------------------------------------------------------
// Styles
// ------------------------------------------------------------------

/// A colour text with its modifier words taken out, and the modifiers it names.
pub open spec fn color_words(s: Seq<char>) -> (Seq<char>, Modifier) {
    let color = replace_all(
        replace_all(
            replace_all(
                replace_all(replace_all(s, "grey"@, "gray"@), "bright "@, ""@),
                "bold "@,
                ""@,
            ),
            "underline "@,
            ""@,
        ),
        "inverse "@,
        ""@,
    );
    let m = Modifier {
        underlined: contains(s, "underline"@),
        bold: contains(s, "bold"@),
        reversed: contains(s, "inverse"@),
        ..no_modifier()
    };
    (color, m)
}

/// The byte offset at which a style line divides into foreground and background: where
/// `on ` first occurs in its lower-case form, or else its end.
pub open spec fn split_byte(line: Seq<char>, lowered: Seq<char>) -> int {
    match find_from(lowered, "on "@, 0) {
        Some(k) => width_sum(lowered.take(k)),
        None => width_sum(line),
    }
}

/// The character at which the line divides, where that byte offset begins one.
pub open spec fn style_split(line: Seq<char>, lowered: Seq<char>) -> Option<int> {
    char_at_byte(line, split_byte(line, lowered), 0)
}

/// The foreground and background texts of a line divided at `j`.
pub open spec fn style_parts(line: Seq<char>, j: int) -> (Seq<char>, Seq<char>) {
    (line.take(j), replace_all(line.skip(j), "on "@, ""@))
}

/// A style line, with its lower-case form, can be read: it divides at a character and
/// both colours can be read.
pub open spec fn style_defined(line: Seq<char>, lowered: Seq<char>) -> bool {
    match style_split(line, lowered) {
        Some(j) => {
            &&& color_defined(color_words(style_parts(line, j).0).0)
            &&& color_defined(color_words(style_parts(line, j).1).0)
        },
        None => false,
    }
}

/// The style that a line describes, given its lower-case form.
pub open spec fn style_of(line: Seq<char>, lowered: Seq<char>) -> Style {
    let j = style_split(line, lowered)->0;
    let fore = color_words(style_parts(line, j).0);
    let back = color_words(style_parts(line, j).1);
    Style {
        fg: color_of(fore.0),
        bg: color_of(back.0),
        add_modifier: fore.1.join(back.1),
        sub_modifier: no_modifier(),
    }
}

/// What Unicode gives as the lower-case form of a text.
pub uninterp spec fn lowercase(s: Seq<char>) -> Seq<char>;

/// `str::to_lowercase`: the result is `lowercase` of the text, a function of the text alone.
#[verifier::external_body]
fn to_lowercase(s: &str) -> (r: String)
    ensures
        r@ == lowercase(s@),
{
    s.to_lowercase()
}

// ------------------------------------------------------------------
// Executable text operations
// ------------------------------------------------------------------

fn width_exec(c: char) -> (r: u128)
    ensures
        r == width(c),
{
    let u = c as u32;
    if u < 0x80 {
        1
    } else if u < 0x800 {
        2
    } else if u < 0x10000 {
        3
    } else {
        4
    }
}

fn width_sum_exec(v: &Vec<char>) -> (r: u128)
    ensures
        r == width_sum(v@),
        r <= 4 * v@.len(),
{
    let mut acc: u128 = 0;
    let mut i: usize = 0;
    assert(v@.take(0) =~= Seq::<char>::empty());
    while i < v.len()
        invariant
            i <= v.len(),
            acc == width_sum(v@.take(i as int)),
            acc <= 4 * i,
        decreases v.len() - i,
    {
        assert(v@.take(i + 1).drop_last() =~= v@.take(i as int));
        acc += width_exec(v[i]);
        i += 1;
    }
    assert(v@.take(v.len() as int) =~= v@);
    acc
}

fn char_at_byte_exec(v: &Vec<char>, b: u128) -> (r: Option<usize>)
    ensures
        match r {
            Some(j) => char_at_byte(v@, b as int, 0) == Some(j as int),
            None => char_at_byte(v@, b as int, 0) is None,
        },
{
    let mut acc: u128 = 0;
    let mut j: usize = 0;
    assert(v@.take(0) =~= Seq::<char>::empty());
    loop
        invariant
            j <= v.len(),
            acc == width_sum(v@.take(j as int)),
            acc <= 4 * j,
            char_at_byte(v@, b as int, 0) == char_at_byte(v@, b as int, j as int),
        decreases v.len() - j,
    {
        if acc == b {
            return Some(j);
        }
        if j == v.len() {
            assert(char_at_byte(v@, b as int, j + 1) is None);
            return None;
        }
        assert(v@.take(j + 1).drop_last() =~= v@.take(j as int));
        acc += width_exec(v[j]);
        j += 1;
    }
}

fn digit_at_byte_exec(v: &Vec<char>, k: u128) -> (r: u8)
    ensures
        r == digit_at_byte(v@, k as int),
{
    match char_at_byte_exec(v, k) {
        Some(j) => {
            if j < v.len() && is_digit_exec(v[j]) {
                (v[j] as u32 - '0' as u32) as u8
            } else {
                0
            }
        },
        None => 0,
    }
}

fn u8_or_zero_exec(v: &Vec<char>) -> (r: u8)
    ensures
        r == u8_or_zero(v@),
{
    let d = if v.len() > 0 && v[0] == '+' {
        let d = slice(v, 1, v.len());
        assert(d@ =~= v@.skip(1));
        d
    } else {
        let d = slice(v, 0, v.len());
        assert(d@ =~= v@);
        d
    };
    if d.len() > 0 && all_digits_exec(&d) {
        match parse_num_exec(&d, 255) {
            Some(x) => x as u8,
            None => 0,
        }
    } else {
        0
    }
}

// ------------------------------------------------------------------
// Colours and styles, executable
// ------------------------------------------------------------------

fn color_defined_exec(v: &Vec<char>) -> (r: bool)
    ensures
        r == color_defined(v@),
{
    let t = trim_exec(v);
    if contains_exec(&t, &chars_of("bright color")) || contains_exec(&t, &chars_of("color")) {
        true
    } else if contains_exec(&t, &chars_of("gray")) {
        let n = u8_or_zero_exec(&trim_start_matches_exec(&t, &chars_of("gray")));
        n <= 23
    } else if contains_exec(&t, &chars_of("rgb")) {
        if width_sum_exec(&t) < 6 {
            false
        } else {
            let red = digit_at_byte_exec(&t, 3) as u32;
            let green = digit_at_byte_exec(&t, 4) as u32;
            let blue = digit_at_byte_exec(&t, 5) as u32;
            16 + 36 * red + 6 * green + blue <= 255
        }
    } else {
        true
    }
}

fn color_of_exec(v: &Vec<char>) -> (r: Option<Color>)
    requires
        color_defined(v@),
    ensures
        r == color_of(v@),
{
    let t = trim_exec(v);
    if contains_exec(&t, &chars_of("bright color")) {
        let a = trim_start_matches_exec(&t, &chars_of("bright "));
        let b = trim_start_matches_exec(&a, &chars_of("color"));
        Some(Color::Indexed(u8_or_zero_exec(&b)))
    } else if contains_exec(&t, &chars_of("color")) {
        let b = trim_start_matches_exec(&t, &chars_of("color"));
        Some(Color::Indexed(u8_or_zero_exec(&b)))
    } else if contains_exec(&t, &chars_of("gray")) {
        let b = trim_start_matches_exec(&t, &chars_of("gray"));
        Some(Color::Indexed(232 + u8_or_zero_exec(&b)))
    } else if contains_exec(&t, &chars_of("rgb")) {
        let red = digit_at_byte_exec(&t, 3);
        let green = digit_at_byte_exec(&t, 4);
        let blue = digit_at_byte_exec(&t, 5);
        Some(Color::Indexed(16 + red * 36 + green * 6 + blue))
    } else if eq_text(&t, "bold black") {
        Some(Color::Indexed(8))
    } else if eq_text(&t, "bold red") {
        Some(Color::Indexed(9))
    } else if eq_text(&t, "bold green") {
        Some(Color::Indexed(10))
    } else if eq_text(&t, "bold yellow") {
        Some(Color::Indexed(11))
    } else if eq_text(&t, "bold blue") {
        Some(Color::Indexed(12))
    } else if eq_text(&t, "bold magenta") {
        Some(Color::Indexed(13))
    } else if eq_text(&t, "bold cyan") {
        Some(Color::Indexed(14))
    } else if eq_text(&t, "bold white") {
        Some(Color::Indexed(15))
    } else if eq_text(&t, "black") {
        Some(Color::Indexed(0))
    } else if eq_text(&t, "red") {
        Some(Color::Indexed(1))
    } else if eq_text(&t, "green") {
        Some(Color::Indexed(2))
    } else if eq_text(&t, "yellow") {
        Some(Color::Indexed(3))
    } else if eq_text(&t, "blue") {
        Some(Color::Indexed(4))
    } else if eq_text(&t, "magenta") {
        Some(Color::Indexed(5))
    } else if eq_text(&t, "cyan") {
        Some(Color::Indexed(6))
    } else if eq_text(&t, "white") {
        Some(Color::Indexed(7))
    } else {
        None
    }
}

/// The colour that `s` names: `color<n>` and `bright color<n>` give index `n` (0 where `n`
/// is no number up to 255), `gray<n>` gives 232 + `n`, `rgb<r><g><b>` gives
/// 16 + 36 r + 6 g + b, and the eight colour names, alone or after `bold `, give 0 to 15.
pub fn parse_color(s: &str) -> (r: Option<Color>)
    requires
        color_defined(s@),
    ensures
        r == color_of(s@),
{
    color_of_exec(&chars_of(s))
}

fn color_words_exec(v: &Vec<char>) -> (r: (Vec<char>, Modifier))
    ensures
        r.0@ == color_words(v@).0,
        r.1 == color_words(v@).1,
{
    let empty: Vec<char> = Vec::new();
    let a = replace_all_exec(v, &chars_of("grey"), &chars_of("gray"));
    let b = replace_all_exec(&a, &chars_of("bright "), &empty);
    let c = replace_all_exec(&b, &chars_of("bold "), &empty);
    let d = replace_all_exec(&c, &chars_of("underline "), &empty);
    let e = replace_all_exec(&d, &chars_of("inverse "), &empty);
    proof {
        assert(empty@ == ""@) by {
            reveal_strlit("");
        }
    }
    let mut m = Modifier::empty();
    if contains_exec(v, &chars_of("underline")) {
        m = m.union(Modifier::underlined());
    }
    if contains_exec(v, &chars_of("bold")) {
        m = m.union(Modifier::bold());
    }
    if contains_exec(v, &chars_of("inverse")) {
        m = m.union(Modifier::reversed());
    }
    (e, m)
}

/// A colour text with the words `grey` spelt `gray`, the words `bright`, `bold`, `underline`
/// and `inverse` (each with its following space) taken out, and the modifiers that the
/// text names: underlined for `underline`, bold for `bold`, reversed for `inverse`.
pub fn process_color_string(color_str: &str) -> (r: (String, Modifier))
    ensures
        r.0@ == color_words(color_str@).0,
        r.1 == color_words(color_str@).1,
{
    let (v, m) = color_words_exec(&chars_of(color_str));
    let mut s = String::new();
    let mut i: usize = 0;
    while i < v.len()
        invariant
            i <= v.len(),
            s@ == v@.take(i as int),
        decreases v.len() - i,
    {
        crate::text::push_char(&mut s, v[i]);
        i += 1;
        assert(s@ =~= v@.take(i as int));
    }
    assert(v@.take(v.len() as int) =~= v@);
    (s, m)
}

fn style_split_exec(line: &Vec<char>, lowered: &Vec<char>) -> (r: Option<usize>)
    ensures
        match r {
            Some(j) => style_split(line@, lowered@) == Some(j as int),
            None => style_split(line@, lowered@) is None,
        },
{
    let on = chars_of("on ");
    proof {
        lemma_find_from_bound(lowered@, on@, 0);
    }
    let b = match find_exec(lowered, &on) {
        Some(k) => {
            let pre = slice(lowered, 0, k);
            assert(pre@ =~= lowered@.take(k as int));
            width_sum_exec(&pre)
        },
        None => width_sum_exec(line),
    };
    char_at_byte_exec(line, b)
}

fn style_parts_exec(line: &Vec<char>, j: usize) -> (r: (Vec<char>, Vec<char>))
    requires
        j <= line.len(),
    ensures
        r.0@ == style_parts(line@, j as int).0,
        r.1@ == style_parts(line@, j as int).1,
{
    let fore = slice(line, 0, j);
    let rest = slice(line, j, line.len());
    assert(fore@ =~= line@.take(j as int));
    assert(rest@ =~= line@.skip(j as int));
    let empty: Vec<char> = Vec::new();
    proof {
        assert(empty@ == ""@) by {
            reveal_strlit("");
        }
    }
    let back = replace_all_exec(&rest, &chars_of("on "), &empty);
    (fore, back)
}

/// The style of a line whose lower-case form is `lowered`.
pub fn parse_style_lowered(line: &str, lowered: &str) -> (s: Style)
    requires
        style_defined(line@, lowered@),
    ensures
        s == style_of(line@, lowered@),
{
    let lv = chars_of(line);
    let low = chars_of(lowered);
    let j = match style_split_exec(&lv, &low) {
        Some(j) => j,
        None => {
            proof {
                assert(false);
            }
            0
        },
    };
    proof {
        lemma_char_at_byte_bound(lv@, split_byte(lv@, low@), 0);
    }
    let (fore_text, back_text) = style_parts_exec(&lv, j);
    let (fore, fm) = color_words_exec(&fore_text);
    let (back, bm) = color_words_exec(&back_text);
    let mut style = Style::default();
    if let Some(fg) = color_of_exec(&fore) {
        style = style.fg(fg);
    }
    if let Some(bg) = color_of_exec(&back) {
        style = style.bg(bg);
    }
    style = style.add_modifier(fm.union(bm));
    style
}

/// The style that a line such as `underline red on blue` describes: the text before the first
/// `on ` (found without regard to case) gives the foreground, the text after it the background.
pub fn parse_style(line: &str) -> (s: Style)
    requires
        style_defined(line@, lowercase(line@)),
    ensures
        s == style_of(line@, lowercase(line@)),
{
    let lowered = to_lowercase(line);
    parse_style_lowered(line, lowered.as_str())
}

/// The style that a line describes, or `None` where reading it would not succeed: the
/// foreground and background do not divide at a character, a gray shade is above 23, or an
/// `rgb` colour is too short or gives an index above 255.
pub fn checked_parse_style(line: &str) -> (r: Option<Style>)
    ensures
        r == (if style_defined(line@, lowercase(line@)) {
            Some(style_of(line@, lowercase(line@)))
        } else {
            None::<Style>
        }),
{
    let lowered = to_lowercase(line);
    let lv = chars_of(line);
    let low = chars_of(lowered.as_str());
    match style_split_exec(&lv, &low) {
        Some(j) => {
            proof {
                lemma_char_at_byte_bound(lv@, split_byte(lv@, low@), 0);
            }
            let (fore_text, back_text) = style_parts_exec(&lv, j);
            let (fore, _) = color_words_exec(&fore_text);
            let (back, _) = color_words_exec(&back_text);
            if color_defined_exec(&fore) && color_defined_exec(&back) {
                Some(parse_style(line))
            } else {
                None
            }
        },
        None => None,
    }
}

/// A character found at a byte offset lies within the text.
proof fn lemma_char_at_byte_bound(s: Seq<char>, b: int, j0: int)
    ensures
        char_at_byte(s, b, j0) matches Some(j) ==> j0 <= j <= s.len(),
    decreases s.len() + 1 - j0,
{
    if 0 <= j0 <= s.len() && width_sum(s.take(j0)) != b {
        lemma_char_at_byte_bound(s, b, j0 + 1);
    }
}

} // verus!
