//! Unix permission modes: parsing `755`-style and `rwxr-xr-x`-style text, and the
//! state of the chmod dialog.
use vstd::prelude::*;
use vstd::utf8::encode_utf8;
use crate::text::{chars_of, lemma_utf8_len_ge, utf8_len_upto, clear_string, pop_char, push_char, radix_digits, radix_padded, zero_pad};

verus! {

/// A character is an octal digit.
pub open spec fn is_octal_digit(c: char) -> bool {
    '0' <= c && c <= '7'
}

/// The value of an octal digit.
pub open spec fn octal_value(c: char) -> u32 {
    ((c as u32) - 48) as u32
}

/// The mode written by a three-digit octal string, if it is one.
pub open spec fn numeric_mode_of(s: Seq<char>) -> Option<u32> {
    if s.len() == 3 && is_octal_digit(s[0]) && is_octal_digit(s[1]) && is_octal_digit(s[2]) {
        Some((octal_value(s[0]) * 64 + octal_value(s[1]) * 8 + octal_value(s[2])) as u32)
    } else {
        None
    }
}

/// Parses a chmod-style numeric mode of exactly three octal digits (`755`, `644`).
pub fn parse_numeric_mode(mode_str: &str) -> (r: Option<u32>)
    ensures
        r == numeric_mode_of(mode_str@),
{
    let cs = chars_of(mode_str);
    if cs.len() != 3 {
        return None;
    }
    let mut mode: u32 = 0;
    let mut i: usize = 0;
    while i < 3
        invariant
            i <= 3,
            cs@ == mode_str@,
            cs@.len() == 3,
            forall|j: int| 0 <= j < i ==> is_octal_digit(cs@[j]),
            i == 0 ==> mode == 0,
            i == 1 ==> mode == octal_value(cs@[0]),
            i == 2 ==> mode == octal_value(cs@[0]) * 8 + octal_value(cs@[1]),
            i == 3 ==> mode == octal_value(cs@[0]) * 64 + octal_value(cs@[1]) * 8 + octal_value(cs@[2]),
        decreases 3 - i,
    {
        let c = cs[i];
        if !('0' <= c && c <= '7') {
            return None;
        }
        let d: u32 = (c as u32) - 48;
        mode = mode * 8 + d;
        i = i + 1;
    }
    Some(mode)
}

/// One permission character: the letter when the bit is set, `-` otherwise.
pub open spec fn perm_char(set: bool, letter: char) -> char {
    if set {
        letter
    } else {
        '-'
    }
}

/// The `rwxr-xr-x`-style text of the low nine bits of a mode.
pub open spec fn mode_text(mode: u32) -> Seq<char> {
    seq![
        perm_char(mode & 0o400 != 0, 'r'),
        perm_char(mode & 0o200 != 0, 'w'),
        perm_char(mode & 0o100 != 0, 'x'),
        perm_char(mode & 0o040 != 0, 'r'),
        perm_char(mode & 0o020 != 0, 'w'),
        perm_char(mode & 0o010 != 0, 'x'),
        perm_char(mode & 0o004 != 0, 'r'),
        perm_char(mode & 0o002 != 0, 'w'),
        perm_char(mode & 0o001 != 0, 'x'),
    ]
}

fn push_perm(s: &mut String, set: bool, letter: char)
    ensures
        final(s)@ == old(s)@.push(perm_char(set, letter)),
{
    if set {
        push_char(s, letter);
    } else {
        push_char(s, '-');
    }
}

/// Converts a numeric mode to a human-readable string like `rwxr-xr-x`.
pub fn mode_to_string(mode: u32) -> (r: String)
    ensures
        r@ == mode_text(mode),
{
    let mut s = String::new();
    push_perm(&mut s, mode & 0o400 != 0, 'r');
    push_perm(&mut s, mode & 0o200 != 0, 'w');
    push_perm(&mut s, mode & 0o100 != 0, 'x');
    push_perm(&mut s, mode & 0o040 != 0, 'r');
    push_perm(&mut s, mode & 0o020 != 0, 'w');
    push_perm(&mut s, mode & 0o010 != 0, 'x');
    push_perm(&mut s, mode & 0o004 != 0, 'r');
    push_perm(&mut s, mode & 0o002 != 0, 'w');
    push_perm(&mut s, mode & 0o001 != 0, 'x');
    assert(s@ =~= mode_text(mode));
    s
}

/// The bit a permission position stands for (position 0 is the owner's `r`).
pub open spec fn position_mask(i: int) -> u32 {
    if i == 0 {
        0o400
    } else if i == 1 {
        0o200
    } else if i == 2 {
        0o100
    } else if i == 3 {
        0o040
    } else if i == 4 {
        0o020
    } else if i == 5 {
        0o010
    } else if i == 6 {
        0o004
    } else if i == 7 {
        0o002
    } else {
        0o001
    }
}

/// The mode a nine-character permission string stands for, from its first `n`
/// positions: every position that is not `-` sets its bit.
pub open spec fn mode_from_positions(s: Seq<char>, n: int) -> u32
    decreases n,
{
    if n <= 0 {
        0
    } else if s[n - 1] != '-' {
        mode_from_positions(s, n - 1) | position_mask(n - 1)
    } else {
        mode_from_positions(s, n - 1)
    }
}

/// Converts a permission string like `rwxr-xr-x` to a numeric mode: a string of
/// nine bytes gives the mode its non-`-` positions set, any other gives `None`.
/// A nine-byte string of fewer than nine characters is not accepted
/// (the indexing would fail).
pub fn string_to_mode(perm_str: &str) -> (r: Option<u32>)
    requires
        encode_utf8(perm_str@).len() == 9 ==> perm_str@.len() >= 9,
    ensures
        r == if encode_utf8(perm_str@).len() == 9 {
            Some(mode_from_positions(perm_str@, 9))
        } else {
            None
        },
{
    if utf8_len_upto(perm_str, 9) != 9 {
        return None;
    }
    let chars = chars_of(perm_str);
    let mut mode: u32 = 0;
    let mut i: usize = 0;
    while i < 9
        invariant
            i <= 9,
            chars@ == perm_str@,
            chars@.len() >= 9,
            mode == mode_from_positions(chars@, i as int),
        decreases 9 - i,
    {
        let mask: u32 = if i == 0 {
            0o400
        } else if i == 1 {
            0o200
        } else if i == 2 {
            0o100
        } else if i == 3 {
            0o040
        } else if i == 4 {
            0o020
        } else if i == 5 {
            0o010
        } else if i == 6 {
            0o004
        } else if i == 7 {
            0o002
        } else {
            0o001
        };
        if chars[i] != '-' {
            mode = mode | mask;
        }
        i = i + 1;
    }
    Some(mode)
}

/// Whether a character may be typed into the numeric mode field (`0` to `7`).
pub fn is_valid_mode_char(c: char) -> (r: bool)
    ensures
        r == is_octal_digit(c),
{
    '0' <= c && c <= '7'
}

/// The text of the error for a mode that does not parse.
pub open spec fn invalid_mode_text(mode_str: Seq<char>) -> Seq<char> {
    "Invalid mode: "@ + mode_str
}

/// Parses a numeric mode for `chmod`, or gives the error text `Invalid mode: <text>`.
pub fn parse_mode_for_chmod(mode_str: &str) -> (r: Result<u32, String>)
    ensures
        match r {
            Ok(m) => numeric_mode_of(mode_str@) == Some(m),
            Err(e) => numeric_mode_of(mode_str@) is None && e@ == invalid_mode_text(mode_str@),
        },
{
    match parse_numeric_mode(mode_str) {
        Some(m) => Ok(m),
        None => {
            let mut e = "Invalid mode: ".to_owned();
            e.append(mode_str);
            Err(e)
        },
    }
}

/// A dialog state for editing permissions.
#[derive(Debug, Clone)]
pub struct ChmodDialog {
    pub visible: bool,
    pub path: Option<String>,
    pub input: String,
    pub current_mode: Option<u32>,
}

/// The three-digit octal text of a mode (`{:03o}`).
pub open spec fn octal3(mode: u32) -> Seq<char> {
    zero_pad(radix_digits(mode as nat, 8), 3)
}

impl ChmodDialog {
    pub fn new() -> (d: Self)
        ensures
            !d.visible,
            d.path is None,
            d.input@.len() == 0,
            d.current_mode is None,
    {
        ChmodDialog { visible: false, path: None, input: String::new(), current_mode: None }
    }

    /// Opens the dialog on `path`, whose current mode (as read from the file
    /// system, `None` when it could not be read) fills the input.
    pub fn open(&mut self, path: &str, current_mode: Option<u32>)
        ensures
            final(self).visible,
            opt_view(final(self).path) == Some(path@),
            final(self).current_mode == current_mode,
            final(self).input@ == match current_mode {
                Some(m) => octal3(m),
                None => Seq::<char>::empty(),
            },
    {
        self.visible = true;
        self.path = Some(path.to_owned());
        self.current_mode = current_mode;
        self.input = match current_mode {
            Some(m) => radix_padded(m as u128, 8, 3),
            None => String::new(),
        };
    }

    pub fn close(&mut self)
        ensures
            !final(self).visible,
            final(self).path is None,
            final(self).input@.len() == 0,
            final(self).current_mode is None,
    {
        self.visible = false;
        self.path = None;
        clear_string(&mut self.input);
        self.current_mode = None;
    }

    /// Types a character: accepted while the input is shorter than three bytes
    /// and the character is an octal digit, ignored otherwise.
    pub fn push_char(&mut self, c: char)
        ensures
            final(self).visible == old(self).visible,
            final(self).path == old(self).path,
            final(self).current_mode == old(self).current_mode,
            final(self).input@ == if encode_utf8(old(self).input@).len() < 3 && is_octal_digit(c) {
                old(self).input@.push(c)
            } else {
                old(self).input@
            },
    {
        if utf8_len_upto(self.input.as_str(), 3) < 3 && is_valid_mode_char(c) {
            proof {
                lemma_utf8_len_ge(self.input@);
            }
            push_char(&mut self.input, c);
        } else {
            proof {
                lemma_utf8_len_ge(self.input@);
            }
        }
    }

    /// Deletes the last typed character, if any.
    pub fn pop_char(&mut self)
        ensures
            final(self).visible == old(self).visible,
            final(self).path == old(self).path,
            final(self).current_mode == old(self).current_mode,
            final(self).input@ == if old(self).input@.len() > 0 {
                old(self).input@.drop_last()
            } else {
                old(self).input@
            },
    {
        pop_char(&mut self.input);
    }

    /// What applying the dialog asks of the file system: the path and the mode to
    /// set; an error when no file is selected or the input is not a mode.
    pub fn apply(&self) -> (r: Result<(String, u32), String>)
        ensures
            match r {
                Ok((p, m)) => opt_view(self.path) == Some(p@) && numeric_mode_of(self.input@) == Some(m),
                Err(e) => match self.path {
                    None => e@ == "No file selected"@,
                    Some(_) => numeric_mode_of(self.input@) is None && e@ == invalid_mode_text(self.input@),
                },
            },
    {
        match &self.path {
            Some(p) => match parse_mode_for_chmod(self.input.as_str()) {
                Ok(m) => Ok((p.clone(), m)),
                Err(e) => Err(e),
            },
            None => Err("No file selected".to_owned()),
        }
    }

    /// The current mode as `755 (rwxr-xr-x)`, or `???` when it is unknown.
    pub fn formatted_mode(&self) -> (r: String)
        ensures
            r@ == match self.current_mode {
                Some(m) => octal3(m) + seq![' ', '('] + mode_text(m) + seq![')'],
                None => seq!['?', '?', '?'],
            },
    {
        match self.current_mode {
            Some(m) => {
                let mut s = radix_padded(m as u128, 8, 3);
                push_char(&mut s, ' ');
                push_char(&mut s, '(');
                let t = mode_to_string(m);
                s.append(t.as_str());
                push_char(&mut s, ')');
                s
            },
            None => {
                let mut s = String::new();
                push_char(&mut s, '?');
                push_char(&mut s, '?');
                push_char(&mut s, '?');
                s
            },
        }
    }
}

/// The characters of an optional string.
pub open spec fn opt_view(o: Option<String>) -> Option<Seq<char>> {
    match o {
        Some(s) => Some(s@),
        None => None,
    }
}

} // verus!

verus! {

/// The text of a mode reads back as the mode's permission bits, and takes nine
/// bytes: `string_to_mode(&mode_to_string(m))` is `Some(m & 0o777)`.
pub proof fn law_mode_text_round_trip(mode: u32)
    ensures
        encode_utf8(mode_text(mode)).len() == 9,
        mode_text(mode).len() == 9,
        mode_from_positions(mode_text(mode), 9) == mode & 0o777,
{
    let t = mode_text(mode);
    assert(vstd::utf8::is_ascii_chars(t));
    vstd::utf8::is_ascii_chars_encode_utf8(t);
    reveal_with_fuel(mode_from_positions, 10);
    let b0 = mode & 0o400 != 0;
    let b1 = mode & 0o200 != 0;
    let b2 = mode & 0o100 != 0;
    let b3 = mode & 0o040 != 0;
    let b4 = mode & 0o020 != 0;
    let b5 = mode & 0o010 != 0;
    let b6 = mode & 0o004 != 0;
    let b7 = mode & 0o002 != 0;
    let b8 = mode & 0o001 != 0;
    assert((t[0] != '-') == b0);
    assert((t[1] != '-') == b1);
    assert((t[2] != '-') == b2);
    assert((t[3] != '-') == b3);
    assert((t[4] != '-') == b4);
    assert((t[5] != '-') == b5);
    assert((t[6] != '-') == b6);
    assert((t[7] != '-') == b7);
    assert((t[8] != '-') == b8);
    let m0: u32 = if b0 { 0o400 } else { 0 };
    let m1: u32 = if b1 { m0 | 0o200 } else { m0 };
    let m2: u32 = if b2 { m1 | 0o100 } else { m1 };
    let m3: u32 = if b3 { m2 | 0o040 } else { m2 };
    let m4: u32 = if b4 { m3 | 0o020 } else { m3 };
    let m5: u32 = if b5 { m4 | 0o010 } else { m4 };
    let m6: u32 = if b6 { m5 | 0o004 } else { m5 };
    let m7: u32 = if b7 { m6 | 0o002 } else { m6 };
    let m8: u32 = if b8 { m7 | 0o001 } else { m7 };
    assert(0u32 | 0o400u32 == 0o400u32) by (bit_vector);
    assert(mode_from_positions(t, 9) == m8);
    assert(m8 == mode & 0o777) by (bit_vector)
        requires
            b0 == (mode & 0o400 != 0),
            b1 == (mode & 0o200 != 0),
            b2 == (mode & 0o100 != 0),
            b3 == (mode & 0o040 != 0),
            b4 == (mode & 0o020 != 0),
            b5 == (mode & 0o010 != 0),
            b6 == (mode & 0o004 != 0),
            b7 == (mode & 0o002 != 0),
            b8 == (mode & 0o001 != 0),
            m0 == (if b0 { 0o400u32 } else { 0u32 }),
            m1 == (if b1 { m0 | 0o200u32 } else { m0 }),
            m2 == (if b2 { m1 | 0o100u32 } else { m1 }),
            m3 == (if b3 { m2 | 0o040u32 } else { m2 }),
            m4 == (if b4 { m3 | 0o020u32 } else { m3 }),
            m5 == (if b5 { m4 | 0o010u32 } else { m4 }),
            m6 == (if b6 { m5 | 0o004u32 } else { m5 }),
            m7 == (if b7 { m6 | 0o002u32 } else { m6 }),
            m8 == (if b8 { m7 | 0o001u32 } else { m7 }),
    ;
}

/// The three octal digits of a mode below `0o1000` read back as the mode:
/// `parse_numeric_mode` of what the chmod dialog shows for a mode is the mode.
pub proof fn law_octal_round_trip(mode: u32)
    requires
        mode < 0o1000,
    ensures
        numeric_mode_of(octal3(mode)) == Some(mode),
{
    let d0 = mode / 64;
    let d1 = (mode / 8) % 8;
    let d2 = mode % 8;
    assert(mode == d0 * 64 + d1 * 8 + d2);
    reveal_with_fuel(radix_digits, 4);
    let s = octal3(mode);
    if mode < 8 {
        assert(radix_digits(mode as nat, 8) == seq![crate::text::digit_char(mode as nat)]);
        assert(s =~= seq!['0', '0', crate::text::digit_char(mode as nat)]);
    } else if mode < 64 {
        assert(radix_digits((mode / 8) as nat, 8) == seq![crate::text::digit_char((mode / 8) as nat)]);
        assert(s =~= seq!['0', crate::text::digit_char(d1 as nat), crate::text::digit_char(d2 as nat)]);
    } else {
        assert(radix_digits((mode / 64) as nat, 8) == seq![crate::text::digit_char((mode / 64) as nat)]);
        assert(((mode / 8) / 8) == mode / 64);
        assert(s =~= seq![
            crate::text::digit_char(d0 as nat),
            crate::text::digit_char(d1 as nat),
            crate::text::digit_char(d2 as nat),
        ]);
    }
}

proof fn lemma_octal_digits(m: u32, v0: u32, v1: u32, v2: u32)
    requires
        v0 < 8,
        v1 < 8,
        v2 < 8,
        m == v0 * 64 + v1 * 8 + v2,
    ensures
        m / 64 == v0,
        m / 8 == v0 * 8 + v1,
        (m / 8) % 8 == v1,
        (m / 8) / 8 == v0,
        m % 8 == v2,
        m < 512,
{
    assert(m / 64 == v0 && m / 8 == v0 * 8 + v1 && m % 8 == v2 && m < 512) by (nonlinear_arith)
        requires
            v0 < 8,
            v1 < 8,
            v2 < 8,
            m == v0 * 64 + v1 * 8 + v2,
    ;
    assert((v0 * 8 + v1) % 8 == v1 && (v0 * 8 + v1) / 8 == v0) by (nonlinear_arith)
        requires
            v0 < 8,
            v1 < 8,
    ;
}

proof fn lemma_digit_char_of_octal(c: char)
    requires
        is_octal_digit(c),
    ensures
        crate::text::digit_char(octal_value(c) as nat) == c,
        octal_value(c) < 8,
{
}

/// A valid numeric mode text is the three octal digits of the mode it gives.
pub proof fn law_numeric_text_round_trip(s: Seq<char>)
    requires
        numeric_mode_of(s) is Some,
    ensures
        octal3(numeric_mode_of(s)->0) == s,
{
    let m = numeric_mode_of(s)->0;
    let v0 = octal_value(s[0]);
    let v1 = octal_value(s[1]);
    let v2 = octal_value(s[2]);
    lemma_digit_char_of_octal(s[0]);
    lemma_digit_char_of_octal(s[1]);
    lemma_digit_char_of_octal(s[2]);
    lemma_octal_digits(m, v0, v1, v2);
    let dc0 = crate::text::digit_char(v0 as nat);
    let dc1 = crate::text::digit_char(v1 as nat);
    let dc2 = crate::text::digit_char(v2 as nat);
    if m < 8 {
        assert(v0 == 0 && v1 == 0);
        assert(radix_digits(m as nat, 8) == seq![dc2]);
        assert(octal3(m) =~= s);
    } else if m < 64 {
        assert(v0 == 0);
        assert(radix_digits((m / 8) as nat, 8) == seq![dc1]);
        assert(radix_digits(m as nat, 8) == seq![dc1].push(dc2));
        assert(octal3(m) =~= s);
    } else {
        assert(radix_digits((m / 64) as nat, 8) == seq![dc0]);
        assert(radix_digits((m / 8) as nat, 8) == seq![dc0].push(dc1));
        assert(radix_digits(m as nat, 8) == seq![dc0].push(dc1).push(dc2));
        assert(octal3(m) =~= s);
    }
}

} // verus!
