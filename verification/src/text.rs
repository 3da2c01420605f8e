//! Character-level helpers shared by the rest of the library.
use vstd::prelude::*;

verus! {

/// Appends one character to a string (`String::push`).
#[verifier::external_body]
pub(crate) fn push_char(s: &mut String, c: char)
    ensures
        final(s)@ == old(s)@.push(c),
{
    s.push(c);
}

/// Removes and returns the last character of a string (`String::pop`).
#[verifier::external_body]
pub(crate) fn pop_char(s: &mut String) -> (r: Option<char>)
    ensures
        old(s)@.len() == 0 ==> r is None && final(s)@ == old(s)@,
        old(s)@.len() > 0 ==> r == Some(old(s)@.last()) && final(s)@ == old(s)@.drop_last(),
{
    s.pop()
}

/// Empties a string (`String::clear`).
#[verifier::external_body]
pub(crate) fn clear_string(s: &mut String)
    ensures
        final(s)@ == Seq::<char>::empty(),
{
    s.clear();
}

/// The characters of a string, in order.
pub fn chars_of(s: &str) -> (v: Vec<char>)
    ensures
        v@ == s@,
{
    let mut v: Vec<char> = Vec::new();
    broadcast use vstd::string::group_string_axioms;
    for c in it: s.chars()
        invariant
            it.seq() == s@,
            v@ == it.seq().take(it.index() as int),
    {
        v.push(c);
    }
    v
}

/// Builds a string from characters.
pub fn string_of(v: &Vec<char>) -> (s: String)
    ensures
        s@ == v@,
{
    let mut s = String::new();
    let mut i: usize = 0;
    while i < v.len()
        invariant
            i <= v.len(),
            s@ == v@.subrange(0, i as int),
        decreases v.len() - i,
    {
        push_char(&mut s, v[i]);
        assert(v@.subrange(0, i as int + 1) =~= v@.subrange(0, i as int).push(v@[i as int]));
        i = i + 1;
    }
    assert(v@.subrange(0, v@.len() as int) =~= v@);
    s
}

} // verus!

verus! {

/// The characters of a sequence of strings.
pub open spec fn views(v: Seq<Vec<char>>) -> Seq<Seq<char>> {
    v.map_values(|x: Vec<char>| x@)
}

/// `Some` of the characters of the string, or `None`.
pub open spec fn opt_chars(o: Option<String>) -> Option<Seq<char>> {
    match o {
        Some(s) => Some(s@),
        None => None,
    }
}

/// Whether two character vectors hold the same characters.
pub fn eq_chars(a: &Vec<char>, b: &Vec<char>) -> (r: bool)
    ensures
        r == (a@ == b@),
{
    if a.len() != b.len() {
        return false;
    }
    let mut i: usize = 0;
    while i < a.len()
        invariant
            a.len() == b.len(),
            i <= a.len(),
            forall|j: int| 0 <= j < i ==> a@[j] == b@[j],
        decreases a.len() - i,
    {
        if a[i] != b[i] {
            return false;
        }
        i = i + 1;
    }
    assert(a@ =~= b@);
    true
}

/// Whether two strings hold the same characters.
pub fn eq_str(a: &str, b: &str) -> (r: bool)
    ensures
        r == (a@ == b@),
{
    let x = a.to_owned();
    let y = b.to_owned();
    x == y
}

/// ASCII lower-casing of one character; other characters are unchanged.
pub open spec fn ascii_lower(c: char) -> char {
    if 'A' <= c && c <= 'Z' {
        ((c as u32) + 32) as char
    } else {
        c
    }
}

/// ASCII lower-casing of every character.
pub open spec fn ascii_lower_seq(s: Seq<char>) -> Seq<char> {
    s.map_values(|c: char| ascii_lower(c))
}

/// `char::to_ascii_lowercase`.
pub fn to_ascii_lower(c: char) -> (r: char)
    ensures
        r == ascii_lower(c),
{
    if 'A' <= c && c <= 'Z' {
        let u: u32 = (c as u32) + 32;
        assert(u < 0xD800);
        char_from_u32(u)
    } else {
        c
    }
}

/// Converts a code point that is a valid scalar value into a `char`.
#[verifier::external_body]
pub(crate) fn char_from_u32(u: u32) -> (c: char)
    requires
        u < 0xD800 || (0xE000 <= u && u <= 0x10FFFF),
    ensures
        c == u as char,
{
    char::from_u32(u).unwrap()
}

/// ASCII lower-casing of a string's characters.
pub fn ascii_lower_chars(s: &str) -> (v: Vec<char>)
    ensures
        v@ == ascii_lower_seq(s@),
{
    let cs = chars_of(s);
    let mut v: Vec<char> = Vec::new();
    let mut i: usize = 0;
    while i < cs.len()
        invariant
            i <= cs.len(),
            cs@ == s@,
            v@ =~= ascii_lower_seq(s@.subrange(0, i as int)),
        decreases cs.len() - i,
    {
        let c = to_ascii_lower(cs[i]);
        v.push(c);
        i = i + 1;
        assert(ascii_lower_seq(s@.subrange(0, i as int)) =~= ascii_lower_seq(
            s@.subrange(0, i - 1),
        ).push(ascii_lower(s@[i - 1])));
    }
    assert(s@.subrange(0, cs.len() as int) =~= s@);
    v
}

/// The index of the last occurrence of `c` in `s`, or -1.
pub open spec fn last_index_of(s: Seq<char>, c: char) -> int
    decreases s.len(),
{
    if s.len() == 0 {
        -1
    } else if s.last() == c {
        s.len() - 1
    } else {
        last_index_of(s.drop_last(), c)
    }
}

pub proof fn lemma_last_index_of_bounds(s: Seq<char>, c: char)
    ensures
        -1 <= last_index_of(s, c) < s.len(),
        last_index_of(s, c) >= 0 ==> s[last_index_of(s, c)] == c,
        forall|j: int| last_index_of(s, c) < j < s.len() ==> s[j] != c,
    decreases s.len(),
{
    if s.len() > 0 && s.last() != c {
        lemma_last_index_of_bounds(s.drop_last(), c);
        assert forall|j: int| last_index_of(s, c) < j < s.len() implies s[j] != c by {
            if j < s.len() - 1 {
                assert(s.drop_last()[j] == s[j]);
            }
        }
    }
}

/// `last_index_of` computed.
pub fn find_last(v: &Vec<char>, c: char) -> (r: Option<usize>)
    ensures
        match r {
            Some(k) => last_index_of(v@, c) == k as int && k < v@.len() && v@[k as int] == c,
            None => last_index_of(v@, c) == -1,
        },
{
    proof {
        lemma_last_index_of_bounds(v@, c);
    }
    let mut j: usize = v.len();
    assert(v@.subrange(0, j as int) =~= v@);
    while j > 0
        invariant
            j <= v.len(),
            last_index_of(v@, c) == last_index_of(v@.subrange(0, j as int), c),
        decreases j,
    {
        assert(v@.subrange(0, j as int).drop_last() =~= v@.subrange(0, j - 1));
        if v[j - 1] == c {
            return Some(j - 1);
        }
        j = j - 1;
    }
    None
}

/// Splitting a character sequence at every occurrence of `sep`
/// (as `str::split` does: empty pieces are kept, there is always at least one piece).
pub open spec fn split_on(s: Seq<char>, sep: char) -> Seq<Seq<char>>
    decreases s.len(),
{
    if s.len() == 0 {
        seq![Seq::<char>::empty()]
    } else {
        let prev = split_on(s.drop_last(), sep);
        if s.last() == sep {
            prev.push(Seq::<char>::empty())
        } else {
            prev.update(prev.len() - 1, prev.last().push(s.last()))
        }
    }
}

pub proof fn lemma_split_on_nonempty(s: Seq<char>, sep: char)
    ensures
        split_on(s, sep).len() >= 1,
    decreases s.len(),
{
    if s.len() > 0 {
        lemma_split_on_nonempty(s.drop_last(), sep);
    }
}

/// A sequence without the separator splits into itself alone.
pub proof fn lemma_split_on_no_sep(a: Seq<char>, sep: char)
    requires
        !a.contains(sep),
    ensures
        split_on(a, sep) == seq![a],
    decreases a.len(),
{
    if a.len() > 0 {
        let a0 = a.drop_last();
        assert(!a0.contains(sep)) by {
            if a0.contains(sep) {
                let k = choose|k: int| 0 <= k < a0.len() && a0[k] == sep;
                assert(a[k] == sep);
            }
        }
        lemma_split_on_no_sep(a0, sep);
        assert(a.last() != sep) by {
            assert(a[a.len() - 1] == a.last());
        }
        assert(a0.push(a.last()) =~= a);
        assert(seq![a0].update(0, a0.push(a.last())) =~= seq![a]);
    } else {
        assert(a =~= Seq::<char>::empty());
    }
}

/// Splitting `x`, a separator and a piece without separator gives the pieces of
/// `x` and then that piece.
pub proof fn lemma_split_on_sep_then(x: Seq<char>, y: Seq<char>, sep: char)
    requires
        !y.contains(sep),
    ensures
        split_on(x + seq![sep] + y, sep) == split_on(x, sep).push(y),
    decreases y.len(),
{
    let s = x + seq![sep] + y;
    if y.len() == 0 {
        assert(s.drop_last() =~= x);
        assert(s.last() == sep);
        assert(y =~= Seq::<char>::empty());
    } else {
        let y0 = y.drop_last();
        assert(!y0.contains(sep)) by {
            if y0.contains(sep) {
                let k = choose|k: int| 0 <= k < y0.len() && y0[k] == sep;
                assert(y[k] == sep);
            }
        }
        lemma_split_on_sep_then(x, y0, sep);
        assert(s.drop_last() =~= x + seq![sep] + y0);
        assert(s.last() == y.last());
        assert(y.last() != sep) by {
            assert(y[y.len() - 1] == y.last());
        }
        let prev = split_on(x, sep).push(y0);
        assert(y0.push(y.last()) =~= y);
        assert(prev.last() == y0);
        assert(prev.update(prev.len() - 1, prev.last().push(y.last())) =~= split_on(x, sep).push(y));
    }
}

/// `split_on` computed.
pub fn split_chars(s: &Vec<char>, sep: char) -> (parts: Vec<Vec<char>>)
    ensures
        views(parts@) == split_on(s@, sep),
{
    let mut parts: Vec<Vec<char>> = Vec::new();
    let mut cur: Vec<char> = Vec::new();
    let mut i: usize = 0;
    assert(s@.subrange(0, 0) =~= Seq::<char>::empty());
    assert(views(parts@).push(cur@) =~= split_on(Seq::<char>::empty(), sep));
    while i < s.len()
        invariant
            i <= s.len(),
            views(parts@).push(cur@) =~= split_on(s@.subrange(0, i as int), sep),
        decreases s.len() - i,
    {
        let c = s[i];
        proof {
            assert(s@.subrange(0, i + 1).drop_last() =~= s@.subrange(0, i as int));
            lemma_split_on_nonempty(s@.subrange(0, i as int), sep);
        }
        let ghost old_parts = views(parts@);
        if c == sep {
            parts.push(cur);
            cur = Vec::new();
            assert(views(parts@) =~= old_parts.push(views(parts@).last()));
        } else {
            cur.push(c);
            assert(views(parts@) =~= old_parts);
        }
        i = i + 1;
    }
    assert(s@.subrange(0, s.len() as int) =~= s@);
    let ghost before = views(parts@);
    parts.push(cur);
    assert(views(parts@) =~= before.push(cur@));
    parts
}

} // verus!

verus! {

/// The character for a digit value below 16 (lower-case hex letters).
pub open spec fn digit_char(d: nat) -> char {
    if d < 10 {
        ((48 + d) as u32) as char
    } else {
        ((87 + d) as u32) as char
    }
}

/// The digits of `n` in base `b`, most significant first, without leading zeros
/// (`0` is written `"0"`).
pub open spec fn radix_digits(n: nat, b: nat) -> Seq<char>
    recommends
        2 <= b <= 16,
    decreases n,
{
    if b < 2 || n < b {
        seq![digit_char(n)]
    } else {
        proof {
            vstd::arithmetic::div_mod::lemma_div_is_strictly_smaller(n as int, b as int);
        }
        radix_digits(n / b, b).push(digit_char(n % b))
    }
}

/// Decimal digits of `n`, as `{}` prints an unsigned integer.
pub open spec fn decimal(n: nat) -> Seq<char> {
    radix_digits(n, 10)
}

/// `count` copies of `c`.
pub open spec fn repeat_char(c: char, count: nat) -> Seq<char> {
    Seq::new(count, |i: int| c)
}

/// `s` left-padded with zeros to at least `width` characters, as `{:0width$}` does
/// for an unsigned number.
pub open spec fn zero_pad(s: Seq<char>, width: nat) -> Seq<char> {
    if s.len() >= width {
        s
    } else {
        repeat_char('0', (width - s.len()) as nat) + s
    }
}

pub proof fn lemma_radix_digits_nonempty(n: nat, b: nat)
    requires
        2 <= b <= 16,
    ensures
        radix_digits(n, b).len() >= 1,
    decreases n,
{
    if b >= 2 && n >= b {
        vstd::arithmetic::div_mod::lemma_div_is_strictly_smaller(n as int, b as int);
        lemma_radix_digits_nonempty(n / b, b);
    }
}

fn digit_char_exec(d: u128) -> (c: char)
    requires
        d < 16,
    ensures
        c == digit_char(d as nat),
{
    if d < 10 {
        char_from_u32((48 + d) as u32)
    } else {
        char_from_u32((87 + d) as u32)
    }
}

/// Appends the digits of `n` in base `b`.
pub fn push_radix(s: &mut String, n: u128, b: u128)
    requires
        2 <= b <= 16,
    ensures
        final(s)@ == old(s)@ + radix_digits(n as nat, b as nat),
    decreases n,
{
    if n >= b {
        proof {
            vstd::arithmetic::div_mod::lemma_div_is_strictly_smaller(n as int, b as int);
        }
        push_radix(s, n / b, b);
        push_char(s, digit_char_exec(n % b));
    } else {
        push_char(s, digit_char_exec(n));
    }
}

/// Appends `count` copies of `c`.
pub fn push_repeated(s: &mut String, c: char, count: usize)
    ensures
        final(s)@ == old(s)@ + repeat_char(c, count as nat),
{
    let ghost start = s@;
    let mut i: usize = 0;
    while i < count
        invariant
            i <= count,
            s@ =~= start + repeat_char(c, i as nat),
        decreases count - i,
    {
        push_char(s, c);
        i = i + 1;
    }
}

/// The digits of `n` in base `b`, zero-padded to `width`.
pub fn radix_padded(n: u128, b: u128, width: usize) -> (r: String)
    requires
        2 <= b <= 16,
    ensures
        r@ == zero_pad(radix_digits(n as nat, b as nat), width as nat),
{
    let mut digits = String::new();
    push_radix(&mut digits, n, b);
    assert(digits@ =~= radix_digits(n as nat, b as nat));
    let len = digits.as_str().unicode_len();
    if len >= width {
        digits
    } else {
        let mut r = String::new();
        push_repeated(&mut r, '0', width - len);
        r.append(digits.as_str());
        r
    }
}

/// Decimal digits of `n`.
pub fn decimal_string(n: u128) -> (r: String)
    ensures
        r@ == decimal(n as nat),
{
    let mut s = String::new();
    push_radix(&mut s, n, 10);
    assert(s@ =~= decimal(n as nat));
    s
}

} // verus!

verus! {

/// ASCII lower-casing of a character vector.
pub fn ascii_lower_vec(v: &Vec<char>) -> (r: Vec<char>)
    ensures
        r@ == ascii_lower_seq(v@),
{
    let mut r: Vec<char> = Vec::new();
    let mut i: usize = 0;
    while i < v.len()
        invariant
            i <= v.len(),
            r@ =~= ascii_lower_seq(v@.subrange(0, i as int)),
        decreases v.len() - i,
    {
        r.push(to_ascii_lower(v[i]));
        i = i + 1;
        assert(ascii_lower_seq(v@.subrange(0, i as int)) =~= ascii_lower_seq(
            v@.subrange(0, i - 1),
        ).push(ascii_lower(v@[i - 1])));
    }
    assert(v@.subrange(0, v.len() as int) =~= v@);
    r
}

/// The code points of a character sequence.
pub open spec fn code_points(s: Seq<char>) -> Seq<u64> {
    s.map_values(|c: char| (c as u32) as u64)
}

/// The code points of a character vector.
pub fn code_points_of(v: &Vec<char>) -> (r: Vec<u64>)
    ensures
        r@ == code_points(v@),
{
    let mut r: Vec<u64> = Vec::new();
    let mut i: usize = 0;
    while i < v.len()
        invariant
            i <= v.len(),
            r@ =~= code_points(v@.subrange(0, i as int)),
        decreases v.len() - i,
    {
        let c = v[i];
        r.push(c as u32 as u64);
        i = i + 1;
        assert(code_points(v@.subrange(0, i as int)) =~= code_points(v@.subrange(0, i - 1)).push(
            (v@[i - 1] as u32) as u64,
        ));
    }
    assert(v@.subrange(0, v.len() as int) =~= v@);
    r
}

/// What `str::to_lowercase` gives for a string (full Unicode lower-casing).
pub uninterp spec fn lowercase_of(s: Seq<char>) -> Seq<char>;

/// `str::to_lowercase`: claimed to give `lowercase_of` of the argument, which
/// depends on the argument alone.
#[verifier::external_body]
pub(crate) fn to_lowercase(s: &str) -> (r: String)
    ensures
        r@ == lowercase_of(s@),
{
    s.to_lowercase()
}

/// The sort key of a name compared lower-cased: the code points of its lower-cased
/// form (code-point order is the order of `str`'s `Ord`).
pub fn lowercase_key(s: &str) -> (r: Vec<u64>)
    ensures
        r@ == code_points(lowercase_of(s@)),
{
    let l = to_lowercase(s);
    let cs = chars_of(l.as_str());
    code_points_of(&cs)
}

/// Copies a character vector.
pub fn copy_chars(v: &Vec<char>) -> (r: Vec<char>)
    ensures
        r@ == v@,
{
    let mut r: Vec<char> = Vec::new();
    let mut i: usize = 0;
    while i < v.len()
        invariant
            i <= v.len(),
            r@ =~= v@.subrange(0, i as int),
        decreases v.len() - i,
    {
        r.push(v[i]);
        i = i + 1;
    }
    assert(v@.subrange(0, v.len() as int) =~= v@);
    r
}

/// Whether `list` holds `x`.
pub fn contains_chars(list: &Vec<Vec<char>>, x: &Vec<char>) -> (r: bool)
    ensures
        r == views(list@).contains(x@),
{
    let mut i: usize = 0;
    while i < list.len()
        invariant
            i <= list.len(),
            forall|j: int| 0 <= j < i ==> views(list@)[j] != x@,
        decreases list.len() - i,
    {
        if eq_chars(&list[i], x) {
            assert(views(list@)[i as int] == x@);
            return true;
        }
        i = i + 1;
    }
    false
}

} // verus!

verus! {

pub proof fn lemma_push_contains<A>(s: Seq<A>, x: A, t: A)
    ensures
        s.push(x).contains(t) <==> (s.contains(t) || t == x),
{
    if s.contains(t) {
        let i = choose|i: int| 0 <= i < s.len() && s[i] == t;
        assert(s.push(x)[i] == t);
    }
    if t == x {
        assert(s.push(x)[s.len() as int] == x);
    }
    if s.push(x).contains(t) {
        let j = choose|j: int| 0 <= j < s.push(x).len() && s.push(x)[j] == t;
        if j < s.len() {
            assert(s[j] == t);
        }
    }
}

} // verus!

verus! {

/// A string takes at least one byte per character.
pub proof fn lemma_utf8_len_ge(s: Seq<char>)
    ensures
        vstd::utf8::encode_utf8(s).len() >= s.len(),
    decreases s.len(),
{
    if s.len() > 0 {
        lemma_utf8_len_ge(s.drop_first());
        assert(vstd::utf8::encode_scalar(s[0] as u32).len() >= 1);
    }
}

} // verus!

verus! {

/// The number of bytes of a character in UTF-8.
pub open spec fn utf8_width(c: char) -> nat {
    vstd::utf8::encode_scalar(c as u32).len()
}

pub proof fn lemma_utf8_concat_len(a: Seq<char>, b: Seq<char>)
    ensures
        vstd::utf8::encode_utf8(a + b).len() == vstd::utf8::encode_utf8(a).len()
            + vstd::utf8::encode_utf8(b).len(),
    decreases a.len(),
{
    if a.len() > 0 {
        assert((a + b).drop_first() =~= a.drop_first() + b);
        assert((a + b)[0] == a[0]);
        lemma_utf8_concat_len(a.drop_first(), b);
    }
}

/// A single character takes its width in bytes.
pub proof fn lemma_utf8_single(c: char)
    ensures
        vstd::utf8::encode_utf8(seq![c]).len() == utf8_width(c),
{
    let one = seq![c];
    assert(one.drop_first() =~= Seq::<char>::empty());
    assert(vstd::utf8::encode_utf8(one) == vstd::utf8::encode_scalar(one[0] as u32)
        + vstd::utf8::encode_utf8(one.drop_first()));
}

pub fn utf8_width_exec(c: char) -> (w: usize)
    ensures
        w == utf8_width(c),
        1 <= w <= 4,
{
    proof {
        vstd::utf8::char_is_scalar(c);
    }
    let u = c as u32;
    if u <= 0x7F {
        1
    } else if u <= 0x7FF {
        2
    } else if u <= 0xFFFF {
        3
    } else {
        4
    }
}

/// The UTF-8 length of a string (what `str::len` gives) when it is at most
/// `cap`; some number above `cap` when it is longer.
pub fn utf8_len_upto(s: &str, cap: usize) -> (n: usize)
    requires
        cap < 0x1000_0000,
    ensures
        n <= cap ==> n == vstd::utf8::encode_utf8(s@).len(),
        n > cap ==> vstd::utf8::encode_utf8(s@).len() > cap,
{
    let cs = chars_of(s);
    let mut total: usize = 0;
    let mut i: usize = 0;
    while i < cs.len()
        invariant
            i <= cs.len(),
            cs@ == s@,
            cap < 0x1000_0000,
            total <= cap,
            total == vstd::utf8::encode_utf8(s@.subrange(0, i as int)).len(),
        decreases cs.len() - i,
    {
        let w = utf8_width_exec(cs[i]);
        proof {
            assert(s@.subrange(0, i + 1) =~= s@.subrange(0, i as int) + seq![s@[i as int]]);
            lemma_utf8_concat_len(s@.subrange(0, i as int), seq![s@[i as int]]);
            let one = seq![s@[i as int]];
            assert(one.drop_first() =~= Seq::<char>::empty());
            assert(vstd::utf8::encode_utf8(one.drop_first()).len() == 0);
            assert(vstd::utf8::encode_utf8(one) == vstd::utf8::encode_scalar(one[0] as u32) + vstd::utf8::encode_utf8(one.drop_first()));
            assert(vstd::utf8::encode_utf8(one).len() == w);
        }
        assert(total + w <= cap + 4);
        total = total + w;
        i = i + 1;
        if total > cap {
            proof {
                assert(s@ =~= s@.subrange(0, i as int) + s@.subrange(i as int, s@.len() as int));
                lemma_utf8_concat_len(s@.subrange(0, i as int), s@.subrange(i as int, s@.len() as int));
            }
            return total;
        }
    }
    assert(s@.subrange(0, cs.len() as int) =~= s@);
    total
}

} // verus!

verus! {

/// A character is an ASCII decimal digit.
pub open spec fn is_ascii_digit(c: char) -> bool {
    '0' <= c && c <= '9'
}

/// The value of a sequence of ASCII decimal digits.
pub open spec fn digits_value(s: Seq<char>) -> nat
    decreases s.len(),
{
    if s.len() == 0 {
        0
    } else {
        digits_value(s.drop_last()) * 10 + ((s.last() as u32) - 48) as nat
    }
}

/// All characters are ASCII digits.
pub open spec fn all_ascii_digits(s: Seq<char>) -> bool {
    forall|i: int| 0 <= i < s.len() ==> is_ascii_digit(#[trigger] s[i])
}

/// The digits part of an unsigned number's text: without a leading `+`.
pub open spec fn unsigned_body(s: Seq<char>) -> Seq<char> {
    if s.len() > 0 && s[0] == '+' {
        s.drop_first()
    } else {
        s
    }
}

/// What `str::parse::<usize>` gives: an optional `+` followed by one or more ASCII
/// digits whose value fits in a `usize`; `None` for anything else.
pub open spec fn parse_usize_of(s: Seq<char>) -> Option<usize> {
    let body = unsigned_body(s);
    if body.len() > 0 && all_ascii_digits(body) && digits_value(body) <= usize::MAX {
        Some(digits_value(body) as usize)
    } else {
        None
    }
}

proof fn lemma_digits_value_monotone(s: Seq<char>, k: int)
    requires
        0 <= k <= s.len(),
        forall|i: int| 0 <= i < s.len() ==> is_ascii_digit(#[trigger] s[i]),
    ensures
        digits_value(s.subrange(0, k)) <= digits_value(s),
    decreases s.len() - k,
{
    if k < s.len() {
        lemma_digits_value_monotone(s, k + 1);
        assert(s.subrange(0, k + 1).drop_last() =~= s.subrange(0, k));
    } else {
        assert(s.subrange(0, k) =~= s);
    }
}

/// `str::parse::<usize>`, with the error as `None`.
pub fn parse_usize(s: &Vec<char>) -> (r: Option<usize>)
    ensures
        r == parse_usize_of(s@),
{
    let start: usize = if s.len() > 0 && s[0] == '+' {
        1
    } else {
        0
    };
    let ghost body = unsigned_body(s@);
    assert(body =~= s@.subrange(start as int, s@.len() as int));
    if start >= s.len() {
        return None;
    }
    let mut value: usize = 0;
    let mut i: usize = start;
    while i < s.len()
        invariant
            start <= i <= s.len(),
            body == unsigned_body(s@),
            body == s@.subrange(start as int, s@.len() as int),
            forall|j: int| 0 <= j < i - start ==> is_ascii_digit(#[trigger] body[j]),
            value as nat == digits_value(body.subrange(0, i - start)),
        decreases s.len() - i,
    {
        let c = s[i];
        assert(body[i - start] == c);
        if !('0' <= c && c <= '9') {
            assert(!is_ascii_digit(body[i - start]));
            assert(!all_ascii_digits(body));
            return None;
        }
        let d: usize = ((c as u32) - 48) as usize;
        assert(body.subrange(0, i - start + 1).drop_last() =~= body.subrange(0, i - start));
        assert(body.subrange(0, i - start + 1).last() == c);
        assert(digits_value(body.subrange(0, i - start + 1)) == value * 10 + d);
        if value > (usize::MAX - d) / 10 {
            proof {
                assert(digits_value(body.subrange(0, i - start + 1)) == value * 10 + d);
                assert(value * 10 + d > usize::MAX) by (nonlinear_arith)
                    requires
                        value > (usize::MAX - d) / 10,
                        d <= 9,
                ;
                let all_digits = all_ascii_digits(body);
                if all_digits {
                    lemma_digits_value_monotone(body, i - start + 1);
                    assert(digits_value(body) > usize::MAX);
                }
                assert(!(all_digits && digits_value(body) <= usize::MAX));
            }
            return None;
        }
        assert(value * 10 + d <= usize::MAX) by (nonlinear_arith)
            requires
                value <= (usize::MAX - d) / 10,
                d <= 9,
        ;
        value = value * 10 + d;
        i = i + 1;
    }
    assert(body.subrange(0, body.len() as int) =~= body);
    Some(value)
}

} // verus!

verus! {

/// A line without one trailing carriage return.
pub open spec fn strip_cr(line: Seq<char>) -> Seq<char> {
    if line.len() > 0 && line.last() == '\r' {
        line.drop_last()
    } else {
        line
    }
}

/// What `str::lines` gives: the text split at `\n`, a `\r` before a `\n`
/// removed, and no empty line after a final `\n`.
pub open spec fn lines_of(s: Seq<char>) -> Seq<Seq<char>> {
    let pieces = split_on(s, '\n');
    let terminated = pieces.drop_last().map_values(|p: Seq<char>| strip_cr(p));
    if pieces.last().len() == 0 {
        terminated
    } else {
        terminated.push(pieces.last())
    }
}

/// `str::lines`.
pub fn lines(s: &str) -> (r: Vec<Vec<char>>)
    ensures
        views(r@) == lines_of(s@),
{
    let cs = chars_of(s);
    let pieces = split_chars(&cs, '\n');
    proof {
        lemma_split_on_nonempty(s@, '\n');
    }
    let ghost pv = views(pieces@);
    let mut r: Vec<Vec<char>> = Vec::new();
    let mut i: usize = 0;
    let last = pieces.len() - 1;
    while i < last
        invariant
            i <= last,
            last == pieces@.len() - 1,
            pv == views(pieces@),
            pv == split_on(s@, '\n'),
            views(r@) =~= pv.subrange(0, i as int).map_values(|p: Seq<char>| strip_cr(p)),
        decreases last - i,
    {
        let p = &pieces[i];
        let mut line = copy_chars(p);
        if line.len() > 0 && line[line.len() - 1] == '\r' {
            line.pop();
        }
        assert(line@ == strip_cr(pv[i as int]));
        let ghost before = views(r@);
        r.push(line);
        assert(views(r@) =~= before.push(strip_cr(pv[i as int])));
        assert(pv.subrange(0, i + 1).map_values(|p: Seq<char>| strip_cr(p)) =~= pv.subrange(0, i as int).map_values(|p: Seq<char>| strip_cr(p)).push(strip_cr(pv[i as int])));
        i = i + 1;
    }
    assert(pv.subrange(0, last as int) =~= pv.drop_last());
    if pieces[last].len() > 0 {
        let ghost before = views(r@);
        r.push(copy_chars(&pieces[last]));
        assert(views(r@) =~= before.push(pv.last()));
    }
    r
}

/// `s` right-aligned in a field of `width` characters (`{:width}` for a number).
pub open spec fn space_pad(s: Seq<char>, width: nat) -> Seq<char> {
    if s.len() >= width {
        s
    } else {
        repeat_char(' ', (width - s.len()) as nat) + s
    }
}

/// Decimal digits of `n` right-aligned to `width`.
pub fn decimal_right_aligned(n: u128, width: usize) -> (r: String)
    ensures
        r@ == space_pad(decimal(n as nat), width as nat),
{
    let digits = decimal_string(n);
    let len = digits.as_str().unicode_len();
    if len >= width {
        digits
    } else {
        let mut r = String::new();
        push_repeated(&mut r, ' ', width - len);
        r.append(digits.as_str());
        r
    }
}

} // verus!

verus! {

/// Unicode `White_Space`, the characters `char::is_whitespace` accepts.
pub open spec fn is_white_space(c: char) -> bool {
    let u = c as u32;
    (0x9 <= u && u <= 0xd) || u == 0x20 || u == 0x85 || u == 0xa0 || u == 0x1680 || (0x2000 <= u
        && u <= 0x200a) || u == 0x2028 || u == 0x2029 || u == 0x202f || u == 0x205f || u == 0x3000
}

/// `char::is_whitespace`.
pub fn white_space(c: char) -> (r: bool)
    ensures
        r == is_white_space(c),
{
    let u = c as u32;
    (0x9 <= u && u <= 0xd) || u == 0x20 || u == 0x85 || u == 0xa0 || u == 0x1680 || (0x2000 <= u
        && u <= 0x200a) || u == 0x2028 || u == 0x2029 || u == 0x202f || u == 0x205f || u == 0x3000
}

/// A sequence without its leading white space.
pub open spec fn trim_start_ws(s: Seq<char>) -> Seq<char>
    decreases s.len(),
{
    if s.len() > 0 && is_white_space(s[0]) {
        trim_start_ws(s.drop_first())
    } else {
        s
    }
}

/// A sequence without its trailing white space.
pub open spec fn trim_end_ws(s: Seq<char>) -> Seq<char>
    decreases s.len(),
{
    if s.len() > 0 && is_white_space(s.last()) {
        trim_end_ws(s.drop_last())
    } else {
        s
    }
}

/// What `str::trim` gives: no white space at either end.
pub open spec fn trim_ws(s: Seq<char>) -> Seq<char> {
    trim_end_ws(trim_start_ws(s))
}

/// `str::trim`, on characters.
pub fn trim_chars(v: &Vec<char>) -> (r: Vec<char>)
    ensures
        r@ == trim_ws(v@),
{
    let n = v.len();
    let mut i: usize = 0;
    assert(v@.subrange(0, n as int) =~= v@);
    while i < n && white_space(v[i])
        invariant
            i <= n,
            n == v.len(),
            trim_start_ws(v@) == trim_start_ws(v@.subrange(i as int, n as int)),
        decreases n - i,
    {
        proof {
            let t = v@.subrange(i as int, n as int);
            assert(t.drop_first() =~= v@.subrange(i + 1, n as int));
        }
        i = i + 1;
    }
    let ghost front = v@.subrange(i as int, n as int);
    assert(trim_start_ws(front) == front);
    let mut j: usize = n;
    while j > i && white_space(v[j - 1])
        invariant
            i <= j <= n,
            n == v.len(),
            front == v@.subrange(i as int, n as int),
            trim_end_ws(front) == trim_end_ws(v@.subrange(i as int, j as int)),
        decreases j,
    {
        proof {
            let t = v@.subrange(i as int, j as int);
            assert(t.drop_last() =~= v@.subrange(i as int, j - 1));
        }
        j = j - 1;
    }
    let r = crate::pathname::subrange_chars(v, i, j);
    proof {
        let t = v@.subrange(i as int, j as int);
        if t.len() > 0 {
            assert(t.last() == v@[j - 1]);
        }
        assert(trim_end_ws(t) == t);
    }
    r
}

} // verus!

verus! {

/// The number of bytes of a text in UTF-8.
pub open spec fn byte_len(s: Seq<char>) -> nat {
    vstd::utf8::encode_utf8(s).len()
}

/// How many leading characters of `s` fit in `b` bytes.
pub open spec fn chars_within(s: Seq<char>, b: nat) -> nat
    decreases s.len(),
{
    if s.len() == 0 || utf8_width(s[0]) > b {
        0
    } else {
        1 + chars_within(s.drop_first(), (b - utf8_width(s[0])) as nat)
    }
}

/// Byte offset `b` of `s` falls between two characters.
pub open spec fn is_boundary(s: Seq<char>, b: nat) -> bool {
    byte_len(s.take(chars_within(s, b) as int)) == b
}

pub proof fn lemma_chars_within_bound(s: Seq<char>, b: nat)
    ensures
        chars_within(s, b) <= s.len(),
    decreases s.len(),
{
    if s.len() > 0 && utf8_width(s[0]) <= b {
        lemma_chars_within_bound(s.drop_first(), (b - utf8_width(s[0])) as nat);
    }
}

pub proof fn lemma_chars_within_step(s: Seq<char>, i: int, b: nat, used: nat)
    requires
        0 <= i < s.len(),
        chars_within(s, b) == i + chars_within(s.skip(i), (b - used) as nat),
        used <= b,
    ensures
        utf8_width(s[i]) <= b - used ==> chars_within(s, b) == i + 1 + chars_within(
            s.skip(i + 1),
            (b - used - utf8_width(s[i])) as nat,
        ),
        utf8_width(s[i]) > b - used ==> chars_within(s, b) == i,
{
    let t = s.skip(i);
    assert(t[0] == s[i]);
    assert(t.drop_first() =~= s.skip(i + 1));
}

/// Whether a text takes more than `cap` bytes in UTF-8.
pub fn bytes_exceed(s: &str, cap: usize) -> (r: bool)
    ensures
        r == (byte_len(s@) > cap),
{
    let cs = chars_of(s);
    let mut total: usize = 0;
    let mut i: usize = 0;
    while i < cs.len()
        invariant
            i <= cs.len(),
            cs@ == s@,
            total <= cap,
            total == byte_len(s@.take(i as int)),
        decreases cs.len() - i,
    {
        let w = utf8_width_exec(cs[i]);
        proof {
            assert(s@.take(i + 1) =~= s@.take(i as int) + seq![s@[i as int]]);
            lemma_utf8_concat_len(s@.take(i as int), seq![s@[i as int]]);
            lemma_utf8_single(s@[i as int]);
        }
        if w > cap - total {
            proof {
                assert(s@ =~= s@.take(i + 1) + s@.skip(i + 1));
                lemma_utf8_concat_len(s@.take(i + 1), s@.skip(i + 1));
            }
            return true;
        }
        total = total + w;
        i = i + 1;
    }
    assert(s@.take(cs.len() as int) =~= s@);
    false
}

/// How many leading characters of `s` fit in `b` bytes.
pub fn chars_within_exec(s: &Vec<char>, b: usize) -> (n: usize)
    ensures
        n == chars_within(s@, b as nat),
        n <= s@.len(),
{
    let mut used: usize = 0;
    let mut i: usize = 0;
    assert(s@.skip(0) =~= s@);
    while i < s.len()
        invariant
            i <= s.len(),
            used <= b,
            chars_within(s@, b as nat) == i + chars_within(s@.skip(i as int), (b - used) as nat),
        ensures
            chars_within(s@, b as nat) == i,
            i <= s.len(),
        decreases s.len() - i,
    {
        proof {
            lemma_chars_within_step(s@, i as int, b as nat, used as nat);
        }
        let w = utf8_width_exec(s[i]);
        if w > b - used {
            break;
        }
        used = used + w;
        i = i + 1;
        proof {
            if i == s.len() {
                assert(s@.skip(i as int).len() == 0);
            }
        }
    }
    i
}

} // verus!
