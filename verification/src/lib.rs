//! VHS-86: the logic of a retro terminal file manager — sizes, names and paths,
//! archive listings, selections, dialogs, permissions, searches, themes and keys.
use vstd::prelude::*;

pub mod text;
pub mod pathname;
pub mod sorting;
pub mod archive;
pub mod permissions;
pub mod batch;
pub mod files;
pub mod search;
pub mod remote;
pub mod git;
pub mod keybindings;
pub mod theme;
pub mod config;
pub mod disk_usage;
pub mod profiling;
pub mod browser;
pub mod preview;
pub mod plugins;
pub mod crash_reporter;
pub mod display;

use crate::text::{decimal, is_ascii_digit, push_char, push_radix};

verus! {

/// What a directory entry is.
#[derive(Debug, Clone, Copy, PartialEq, Eq, Structural)]
pub enum EntryKind {
    Dir,
    File,
    Symlink,
    Unknown,
    Archive,
}

/// One entry of a listing. `path` is the full path; `modified` is the
/// modification time in seconds since the Unix epoch, where known.
#[derive(Debug, Clone)]
pub struct DirEntry {
    pub name: String,
    pub path: String,
    pub kind: EntryKind,
    pub size: u64,
    pub modified: Option<i64>,
}

/// A directory entry as values.
pub struct DirEntryView {
    pub name: Seq<char>,
    pub path: Seq<char>,
    pub kind: EntryKind,
    pub size: u64,
    pub modified: Option<i64>,
}

impl View for DirEntry {
    type V = DirEntryView;

    open spec fn view(&self) -> DirEntryView {
        DirEntryView {
            name: self.name@,
            path: self.path@,
            kind: self.kind,
            size: self.size,
            modified: self.modified,
        }
    }
}

/// 1024 to the power `k`.
pub open spec fn pow1024(k: nat) -> nat
    decreases k,
{
    if k == 0 {
        1
    } else {
        1024 * pow1024((k - 1) as nat)
    }
}

/// How many halvings bring `n` below 2^53.
pub open spec fn excess_bits(n: nat) -> nat
    decreases n,
{
    if n < 0x20_0000_0000_0000 {
        0
    } else {
        1 + excess_bits(n / 2)
    }
}

/// 2 to the power `e`.
pub open spec fn pow2(e: nat) -> nat
    decreases e,
{
    if e == 0 {
        1
    } else {
        2 * pow2((e - 1) as nat)
    }
}

/// `x / d` rounded to the nearest integer, ties to the even one.
pub open spec fn round_half_even(x: nat, d: nat) -> nat {
    let q = x / d;
    let r = x % d;
    if 2 * r > d || (2 * r == d && q % 2 == 1) {
        q + 1
    } else {
        q
    }
}

/// The value of `n as f64`: `n` rounded to 53 significant bits, ties to even.
pub open spec fn f64_value(n: nat) -> nat {
    let d = pow2(excess_bits(n));
    round_half_even(n, d) * d
}

/// How many times a value can be divided by 1024 while it is at least 1024,
/// starting from `k` divisions, stopping at 4 (terabytes).
pub open spec fn unit_index_from(f: nat, k: nat) -> nat
    decreases 4 - k,
{
    if k < 4 && f >= pow1024(k + 1) {
        unit_index_from(f, k + 1)
    } else {
        k
    }
}

/// The unit letter for `k` divisions by 1024.
pub open spec fn unit_letter(k: nat) -> char {
    if k == 0 {
        'B'
    } else if k == 1 {
        'K'
    } else if k == 2 {
        'M'
    } else if k == 3 {
        'G'
    } else {
        'T'
    }
}

/// The text `format_size` gives: `-` for zero; whole bytes below 1 K (`512 B`);
/// otherwise the size in the largest unit up to T that keeps it at least 1,
/// with one decimal, rounded as `{:.1}` rounds the `f64` (`1.5 K`).
pub open spec fn size_text(size: u64) -> Seq<char> {
    if size == 0 {
        seq!['-']
    } else {
        let f = f64_value(size as nat);
        let k = unit_index_from(f, 0);
        if k == 0 {
            decimal(f) + seq![' ', unit_letter(0)]
        } else {
            let tenths = round_half_even(10 * f, pow1024(k));
            decimal(tenths / 10) + seq!['.'] + decimal(tenths % 10) + seq![' ', unit_letter(k)]
        }
    }
}

proof fn lemma_div_mul_bound(n: nat, d: nat)
    requires
        d > 0,
    ensures
        (n / d) * d <= n,
        n % d == n - (n / d) * d,
        n % d < d,
{
    vstd::arithmetic::div_mod::lemma_fundamental_div_mod(n as int, d as int);
    vstd::arithmetic::div_mod::lemma_mod_bound(n as int, d as int);
    vstd::arithmetic::mul::lemma_mul_is_commutative(d as int, (n / d) as int);
}

fn round_half_even_exec(x: u128, d: u128) -> (r: u128)
    requires
        d > 0,
        x < 0x1_0000_0000_0000_0000_0000_0000,
    ensures
        r == round_half_even(x as nat, d as nat),
        r <= x / d + 1,
{
    let q = x / d;
    let r = x % d;
    if r > d - r || (r == d - r && q % 2 == 1) {
        q + 1
    } else {
        q
    }
}

/// The value of `size as f64`, exactly.
fn f64_value_exec(size: u64) -> (f: u128)
    ensures
        f == f64_value(size as nat),
        f <= 0x2_0000_0000_0000_0000,
{
    let n = size as u128;
    let mut m: u128 = n;
    let mut d: u128 = 1;
    let ghost mut e: nat = 0;
    while m >= 0x20_0000_0000_0000
        invariant
            d > 0,
            d == 1 || d <= n,
            n < 0x1_0000_0000_0000_0000,
            m == n / d,
            d == pow2(e),
            excess_bits(n as nat) == e + excess_bits(m as nat),
        decreases m,
    {
        proof {
            vstd::arithmetic::div_mod::lemma_div_denominator(n as int, d as int, 2);
            lemma_div_mul_bound(n as nat, d as nat);
            assert(m * d <= n);
            assert(d <= n) by (nonlinear_arith)
                requires
                    m * d <= n,
                    m >= 1,
            ;
        }
        m = m / 2;
        d = d * 2;
        proof {
            e = e + 1;
            lemma_div_mul_bound(n as nat, d as nat);
            assert(d <= n) by (nonlinear_arith)
                requires
                    m * d <= n,
                    m >= 1,
            ;
        }
    }
    proof {
        lemma_div_mul_bound(n as nat, d as nat);
    }
    let q = round_half_even_exec(n, d);
    proof {
        assert(q <= m + 1);
        assert(m * d <= n);
        assert(q * d <= m * d + d) by (nonlinear_arith)
            requires
                q <= m + 1,
        ;
    }
    q * d
}

/// Formats a byte count for display: `-` for zero, `512 B`, `1.5 K`, `1.0 M`, up to `T`.
pub fn format_size(size: u64) -> (r: String)
    ensures
        r@ == size_text(size),
{
    let mut out = String::new();
    if size == 0 {
        push_char(&mut out, '-');
        return out;
    }
    let f = f64_value_exec(size);
    let mut k: usize = 0;
    let mut p: u128 = 1024;
    proof {
        reveal_with_fuel(pow1024, 6);
    }
    while k < 4 && f >= p
        invariant
            k <= 4,
            p == pow1024((k + 1) as nat),
            p >= 1024,
            k == 0 ==> p == 1024,
            k == 1 ==> p == 1024 * 1024,
            k == 2 ==> p == 1024 * 1024 * 1024,
            k == 3 ==> p == 1024 * 1024 * 1024 * 1024,
            k == 4 ==> p == 1024 * 1024 * 1024 * 1024 * 1024,
            unit_index_from(f as nat, 0) == unit_index_from(f as nat, k as nat),
        decreases 4 - k,
    {
        k = k + 1;
        p = p * 1024;
    }
    let letter = if k == 0 {
        'B'
    } else if k == 1 {
        'K'
    } else if k == 2 {
        'M'
    } else if k == 3 {
        'G'
    } else {
        'T'
    };
    if k == 0 {
        push_radix(&mut out, f, 10);
        push_char(&mut out, ' ');
        push_char(&mut out, letter);
    } else {
        let tenths = round_half_even_exec(10 * f, p / 1024);
        push_radix(&mut out, tenths / 10, 10);
        push_char(&mut out, '.');
        push_radix(&mut out, tenths % 10, 10);
        push_char(&mut out, ' ');
        push_char(&mut out, letter);
    }
    assert(out@ =~= size_text(size));
    out
}

/// The seconds since the Unix epoch that `chrono` can represent as a date:
/// `DateTime::from_timestamp` checks that the day number falls inside
/// `NaiveDate::MIN` (the year -262143) to `NaiveDate::MAX` (the year 262142).
pub open spec fn in_chrono_range(secs: i64) -> bool {
    -8334601228800 <= secs <= 8210266876799
}

/// The shape of a `%Y-%m-%d %H:%M` text: at least 16 characters, ending in a
/// space, two digits, `:` and two digits.
pub open spec fn minute_shape(t: Seq<char>) -> bool {
    &&& t.len() >= 16
    &&& t[t.len() - 6] == ' '
    &&& t[t.len() - 3] == ':'
    &&& is_ascii_digit(t[t.len() - 5]) && is_ascii_digit(t[t.len() - 4])
    &&& is_ascii_digit(t[t.len() - 2]) && is_ascii_digit(t[t.len() - 1])
}

/// The `chrono` format of a modification time: date, hours and minutes.
pub const MINUTE_FORMAT: &'static str = "%Y-%m-%d %H:%M";

/// `DateTime::from_timestamp` of `chrono`, then `with_timezone(&Local)` and
/// `format(fmt)`: a time (seconds since the Unix epoch) in the local time zone.
/// Claimed: there is a text exactly when `chrono` can represent the time
/// (`in_chrono_range`); with `MINUTE_FORMAT` the text has `minute_shape`
/// (`%Y` has at least four characters, `%H` and `%M` two digits each). Which
/// date and time it shows is not stated: it depends on the machine's time zone.
#[verifier::external_body]
fn local_time_text(secs: i64, fmt: &str) -> (r: Option<String>)
    ensures
        (r is Some) == in_chrono_range(secs),
        fmt@ == MINUTE_FORMAT@ ==> (r matches Some(t) ==> minute_shape(t@)),
{
    match chrono::DateTime::from_timestamp(secs, 0) {
        Some(d) => Some(d.with_timezone(&chrono::Local).format(fmt).to_string()),
        None => None,
    }
}

/// Formats a modification time for display: `-` when there is none or when
/// `chrono` cannot represent it, else its local `%Y-%m-%d %H:%M` text.
pub fn format_time(dt: Option<i64>) -> (r: String)
    ensures
        dt is None ==> r@ == seq!['-'],
        dt matches Some(s) ==> (in_chrono_range(s) ==> minute_shape(r@)),
        dt matches Some(s) ==> (!in_chrono_range(s) ==> r@ == seq!['-']),
{
    let dash = {
        let mut s = String::new();
        push_char(&mut s, '-');
        s
    };
    match dt {
        Some(secs) => match local_time_text(secs, MINUTE_FORMAT) {
            Some(t) => t,
            None => dash,
        },
        None => dash,
    }
}

} // verus!
