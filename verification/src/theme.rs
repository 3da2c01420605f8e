//! Colours and the colour theme of the interface.
use vstd::prelude::*;
use crate::pathname::subrange_chars;
use crate::text::{
    byte_len, bytes_exceed, chars_of, chars_within, chars_within_exec, is_boundary, push_char, radix_digits,
    digit_char, radix_padded, repeat_char, unsigned_body, utf8_width, zero_pad,
};

verus! {

/// A terminal colour: one of the sixteen named ones, or a 24-bit one.
#[derive(Debug, Clone, Copy, PartialEq, Eq, Structural)]
pub enum Color {
    Black,
    Red,
    Green,
    Yellow,
    Blue,
    Magenta,
    Cyan,
    Gray,
    DarkGray,
    LightRed,
    LightGreen,
    LightYellow,
    LightBlue,
    LightMagenta,
    LightCyan,
    White,
    Rgb(u8, u8, u8),
}

/// The colours of the interface.
#[derive(Debug, Clone)]
pub struct Theme {
    pub name: String,
    pub bg: Color,
    pub panel_bg: Color,
    pub magenta: Color,
    pub cyan: Color,
    pub pink: Color,
    pub yellow: Color,
    pub orange: Color,
    pub white: Color,
    pub gray: Color,
    pub green: Color,
    pub red: Color,
    pub border: Color,
    pub highlight: Color,
    pub git_added: Color,
    pub git_modified: Color,
    pub git_untracked: Color,
}

/// The colours of a theme, in field order.
pub open spec fn theme_colors(t: Theme) -> Seq<Color> {
    seq![
        t.bg,
        t.panel_bg,
        t.magenta,
        t.cyan,
        t.pink,
        t.yellow,
        t.orange,
        t.white,
        t.gray,
        t.green,
        t.red,
        t.border,
        t.highlight,
        t.git_added,
        t.git_modified,
        t.git_untracked,
    ]
}

/// The synthwave theme's colours, in field order.
pub open spec fn synthwave_colors() -> Seq<Color> {
    seq![
        Color::Rgb(10, 2, 26),
        Color::Rgb(18, 4, 42),
        Color::Rgb(255, 0, 255),
        Color::Rgb(0, 255, 255),
        Color::Rgb(255, 20, 147),
        Color::Rgb(255, 215, 0),
        Color::Rgb(255, 140, 0),
        Color::Rgb(240, 240, 255),
        Color::Rgb(120, 120, 140),
        Color::Rgb(57, 255, 20),
        Color::Rgb(255, 50, 80),
        Color::Rgb(180, 0, 180),
        Color::Rgb(40, 0, 80),
        Color::Rgb(57, 255, 20),
        Color::Rgb(255, 215, 0),
        Color::Rgb(255, 50, 80),
    ]
}

impl Theme {
    /// The synthwave theme.
    pub fn synthwave() -> (t: Self)
        ensures
            t.name@ == "synthwave"@,
            theme_colors(t) == synthwave_colors(),
    {
        Theme {
            name: String::from_str("synthwave"),
            bg: Color::Rgb(10, 2, 26),
            panel_bg: Color::Rgb(18, 4, 42),
            magenta: Color::Rgb(255, 0, 255),
            cyan: Color::Rgb(0, 255, 255),
            pink: Color::Rgb(255, 20, 147),
            yellow: Color::Rgb(255, 215, 0),
            orange: Color::Rgb(255, 140, 0),
            white: Color::Rgb(240, 240, 255),
            gray: Color::Rgb(120, 120, 140),
            green: Color::Rgb(57, 255, 20),
            red: Color::Rgb(255, 50, 80),
            border: Color::Rgb(180, 0, 180),
            highlight: Color::Rgb(40, 0, 80),
            git_added: Color::Rgb(57, 255, 20),
            git_modified: Color::Rgb(255, 215, 0),
            git_untracked: Color::Rgb(255, 50, 80),
        }
    }

    /// The theme of a name; every name gives the synthwave theme, the only one
    /// there is.
    pub fn load(name: &str) -> (t: Self)
        ensures
            t.name@ == "synthwave"@,
            theme_colors(t) == synthwave_colors(),
    {
        Self::synthwave()
    }
}

impl Default for Theme {
    fn default() -> (t: Self)
        ensures
            t.name@ == "synthwave"@,
            theme_colors(t) == synthwave_colors(),
    {
        Self::synthwave()
    }
}

/// Two lower-case hex digits of a byte.
pub open spec fn hex2(b: u8) -> Seq<char> {
    zero_pad(radix_digits(b as nat, 16), 2)
}

/// How a theme file writes a colour: `#rrggbb` for a 24-bit one, `#000000` for
/// any other.
pub open spec fn hex_text(c: Color) -> Seq<char> {
    match c {
        Color::Rgb(r, g, b) => seq!['#'] + hex2(r) + hex2(g) + hex2(b),
        _ => "#000000"@,
    }
}

/// A colour as a theme file writes it.
pub fn color_to_hex(c: Color) -> (s: String)
    ensures
        s@ == hex_text(c),
{
    match c {
        Color::Rgb(r, g, b) => {
            let mut s = String::new();
            push_char(&mut s, '#');
            let hr = radix_padded(r as u128, 16, 2);
            let hg = radix_padded(g as u128, 16, 2);
            let hb = radix_padded(b as u128, 16, 2);
            s.append(hr.as_str());
            s.append(hg.as_str());
            s.append(hb.as_str());
            s
        },
        _ => String::from_str("#000000"),
    }
}

} // verus!

verus! {

/// A character is a hexadecimal digit (either case).
pub open spec fn is_hex_digit(c: char) -> bool {
    ('0' <= c && c <= '9') || ('a' <= c && c <= 'f') || ('A' <= c && c <= 'F')
}

/// The value of a hexadecimal digit.
pub open spec fn hex_value(c: char) -> nat {
    if '0' <= c && c <= '9' {
        ((c as u32) - 48) as nat
    } else if 'a' <= c && c <= 'f' {
        ((c as u32) - 87) as nat
    } else {
        ((c as u32) - 55) as nat
    }
}

/// The value of a sequence of hexadecimal digits.
pub open spec fn hex_digits_value(s: Seq<char>) -> nat
    decreases s.len(),
{
    if s.len() == 0 {
        0
    } else {
        hex_digits_value(s.drop_last()) * 16 + hex_value(s.last())
    }
}

/// What `u8::from_str_radix(_, 16)` gives: an optional `+` followed by one or
/// more hexadecimal digits whose value is at most 255; `None` for anything else.
pub open spec fn parse_hex_u8_of(s: Seq<char>) -> Option<u8> {
    let body = unsigned_body(s);
    if body.len() > 0 && (forall|i: int| 0 <= i < body.len() ==> is_hex_digit(#[trigger] body[i]))
        && hex_digits_value(body) <= 255 {
        Some(hex_digits_value(body) as u8)
    } else {
        None
    }
}

proof fn lemma_hex_value_monotone(s: Seq<char>, k: int)
    requires
        0 <= k <= s.len(),
        forall|i: int| 0 <= i < s.len() ==> is_hex_digit(#[trigger] s[i]),
    ensures
        hex_digits_value(s.subrange(0, k)) <= hex_digits_value(s),
    decreases s.len() - k,
{
    if k < s.len() {
        lemma_hex_value_monotone(s, k + 1);
        assert(s.subrange(0, k + 1).drop_last() =~= s.subrange(0, k));
    } else {
        assert(s.subrange(0, k) =~= s);
    }
}

/// `u8::from_str_radix(_, 16)`, with the error as `None`.
pub fn parse_hex_u8(s: &Vec<char>) -> (r: Option<u8>)
    ensures
        r == parse_hex_u8_of(s@),
{
    let start: usize = if s.len() > 0 && s[0] == '+' {
        1
    } else {
        0
    };
    let ghost body = unsigned_body(s@);
    assert(body =~= s@.subrange(start as int, s@.len() as int));
    if start >= s.len() {
        return None;
    }
    let mut value: u32 = 0;
    let mut i: usize = start;
    while i < s.len()
        invariant
            start <= i <= s.len(),
            start < s.len(),
            body == unsigned_body(s@),
            body == s@.subrange(start as int, s@.len() as int),
            forall|j: int| 0 <= j < i - start ==> is_hex_digit(#[trigger] body[j]),
            value as nat == hex_digits_value(body.subrange(0, i - start)),
            value <= 255,
        decreases s.len() - i,
    {
        let c = s[i];
        assert(body[i - start] == c);
        let d: u32 = if '0' <= c && c <= '9' {
            (c as u32) - 48
        } else if 'a' <= c && c <= 'f' {
            (c as u32) - 87
        } else if 'A' <= c && c <= 'F' {
            (c as u32) - 55
        } else {
            assert(!is_hex_digit(body[i - start]));
            return None;
        };
        assert(body.subrange(0, i - start + 1).drop_last() =~= body.subrange(0, i - start));
        assert(body.subrange(0, i - start + 1).last() == c);
        value = value * 16 + d;
        i = i + 1;
        if value > 255 {
            proof {
                let all_hex = forall|j: int| 0 <= j < body.len() ==> is_hex_digit(#[trigger] body[j]);
                if all_hex {
                    lemma_hex_value_monotone(body, i - start);
                }
            }
            return None;
        }
    }
    assert(body.subrange(0, body.len() as int) =~= body);
    Some(value as u8)
}

/// The colour a theme file's `#rrggbb` text stands for: a 7-byte text starting
/// with `#` gives the three components read from its byte pairs (0 for a pair
/// that is not a hexadecimal number); any other text gives black.
pub open spec fn color_of_hex_text(s: Seq<char>) -> Color {
    if s.len() > 0 && s[0] == '#' && byte_len(s) == 7 {
        let i1 = chars_within(s, 1);
        let i3 = chars_within(s, 3);
        let i5 = chars_within(s, 5);
        let i7 = chars_within(s, 7);
        Color::Rgb(
            match parse_hex_u8_of(s.subrange(i1 as int, i3 as int)) {
                Some(v) => v,
                None => 0,
            },
            match parse_hex_u8_of(s.subrange(i3 as int, i5 as int)) {
                Some(v) => v,
                None => 0,
            },
            match parse_hex_u8_of(s.subrange(i5 as int, i7 as int)) {
                Some(v) => v,
                None => 0,
            },
        )
    } else {
        Color::Black
    }
}

proof fn lemma_chars_within_monotone(s: Seq<char>, a: nat, b: nat)
    requires
        a <= b,
    ensures
        chars_within(s, a) <= chars_within(s, b),
    decreases s.len(),
{
    if s.len() > 0 && utf8_width(s[0]) <= a {
        lemma_chars_within_monotone(s.drop_first(), (a - utf8_width(s[0])) as nat, (b - utf8_width(s[0])) as nat);
    }
}

/// The colour a theme file's colour text stands for. Byte offsets 3 and 5 of
/// a 7-byte text starting with `#` must fall between characters (slicing there
/// is what reads the components).
pub fn color_from_hex(s: &str) -> (c: Color)
    requires
        s@.len() > 0 && s@[0] == '#' && byte_len(s@) == 7 ==> is_boundary(s@, 3) && is_boundary(s@, 5),
    ensures
        c == color_of_hex_text(s@),
{
    let cs = chars_of(s);
    if cs.len() > 0 && cs[0] == '#' && bytes_exceed(s, 6) && !bytes_exceed(s, 7) {
        let i1 = chars_within_exec(&cs, 1);
        let i3 = chars_within_exec(&cs, 3);
        let i5 = chars_within_exec(&cs, 5);
        let i7 = chars_within_exec(&cs, 7);
        proof {
            lemma_chars_within_monotone(s@, 1, 3);
            lemma_chars_within_monotone(s@, 3, 5);
            lemma_chars_within_monotone(s@, 5, 7);
        }
        let r = match parse_hex_u8(&subrange_chars(&cs, i1, i3)) {
            Some(v) => v,
            None => 0,
        };
        let g = match parse_hex_u8(&subrange_chars(&cs, i3, i5)) {
            Some(v) => v,
            None => 0,
        };
        let b = match parse_hex_u8(&subrange_chars(&cs, i5, i7)) {
            Some(v) => v,
            None => 0,
        };
        Color::Rgb(r, g, b)
    } else {
        Color::Black
    }
}

proof fn lemma_digit_char(d: nat)
    requires
        d < 16,
    ensures
        is_hex_digit(digit_char(d)),
        hex_value(digit_char(d)) == d,
        (digit_char(d) as u32) < 128,
        digit_char(d) != '+',
{
}

/// The two characters of `hex2(b)` are ASCII hexadecimal digits worth `b`.
proof fn lemma_hex2(b: u8)
    ensures
        hex2(b).len() == 2,
        forall|i: int| 0 <= i < 2 ==> is_hex_digit(#[trigger] hex2(b)[i]) && (hex2(b)[i] as u32) < 128,
        hex2(b)[0] != '+',
        hex_digits_value(hex2(b)) == b,
{
    let h = hex2(b);
    if b < 16 {
        assert(radix_digits(b as nat, 16) == seq![digit_char(b as nat)]);
        assert(repeat_char('0', 1) =~= seq!['0']);
        assert(h =~= seq!['0', digit_char(b as nat)]);
        lemma_digit_char(b as nat);
        assert(h.drop_last() =~= seq!['0']);
        let x = h.drop_last();
        assert(x.drop_last() =~= Seq::<char>::empty());
        assert(hex_digits_value(x.drop_last()) == 0);
        assert(x.last() == '0');
        assert(hex_value('0') == 0);
        assert(hex_digits_value(x) == 0);
    } else {
        let hi = (b / 16) as nat;
        let lo = (b % 16) as nat;
        assert(radix_digits(hi, 16) == seq![digit_char(hi)]);
        assert(radix_digits(b as nat, 16) == radix_digits(hi, 16).push(digit_char(lo)));
        assert(h =~= seq![digit_char(hi), digit_char(lo)]);
        lemma_digit_char(hi);
        lemma_digit_char(lo);
        assert(h.drop_last() =~= seq![digit_char(hi)]);
        let x = h.drop_last();
        assert(x.drop_last() =~= Seq::<char>::empty());
        assert(hex_digits_value(x.drop_last()) == 0);
        assert(x.last() == digit_char(hi));
        assert(hex_digits_value(x) == hi);
    }
}

proof fn lemma_ascii_byte_len(s: Seq<char>)
    requires
        forall|i: int| 0 <= i < s.len() ==> (#[trigger] s[i] as u32) < 128,
    ensures
        byte_len(s) == s.len(),
        forall|k: nat| k <= s.len() ==> #[trigger] chars_within(s, k) == k,
    decreases s.len(),
{
    if s.len() > 0 {
        let rest = s.drop_first();
        assert forall|i: int| 0 <= i < rest.len() implies (#[trigger] rest[i] as u32) < 128 by {
            assert(rest[i] == s[i + 1]);
        }
        lemma_ascii_byte_len(rest);
        assert(utf8_width(s[0]) == 1);
        assert forall|k: nat| k <= s.len() implies #[trigger] chars_within(s, k) == k by {
            if k > 0 {
                assert(chars_within(rest, (k - 1) as nat) == k - 1);
            }
        }
    }
}

/// A colour written as a theme file writes it reads back as the same colour.
pub proof fn law_hex_round_trip(r: u8, g: u8, b: u8)
    ensures
        color_of_hex_text(hex_text(Color::Rgb(r, g, b))) == Color::Rgb(r, g, b),
{
    let s = hex_text(Color::Rgb(r, g, b));
    lemma_hex2(r);
    lemma_hex2(g);
    lemma_hex2(b);
    assert(s.len() == 7);
    assert(s.subrange(1, 3) =~= hex2(r));
    assert(s.subrange(3, 5) =~= hex2(g));
    assert(s.subrange(5, 7) =~= hex2(b));
    assert forall|i: int| 0 <= i < s.len() implies (#[trigger] s[i] as u32) < 128 by {
        if 1 <= i < 3 {
            assert(s[i] == hex2(r)[i - 1]);
        } else if 3 <= i < 5 {
            assert(s[i] == hex2(g)[i - 3]);
        } else if 5 <= i < 7 {
            assert(s[i] == hex2(b)[i - 5]);
        }
    }
    lemma_ascii_byte_len(s);
    assert(chars_within(s, 1) == 1);
    assert(chars_within(s, 3) == 3);
    assert(chars_within(s, 5) == 5);
    assert(chars_within(s, 7) == 7);
    assert(unsigned_body(hex2(r)) == hex2(r));
    assert(unsigned_body(hex2(g)) == hex2(g));
    assert(unsigned_body(hex2(b)) == hex2(b));
}

} // verus!
