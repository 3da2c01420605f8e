//! Unix path names held as strings: the file name, stem and extension of a path,
//! and joining two paths, as `std::path::Path` defines them for Unix.
use vstd::prelude::*;
use crate::text::{chars_of, find_last, last_index_of, opt_chars, push_char, split_chars, split_on, string_of, views};

verus! {

/// A piece of a path between separators that names something
/// (neither empty nor the current directory `.`).
pub open spec fn is_named_piece(p: Seq<char>) -> bool {
    p.len() > 0 && p != seq!['.']
}

/// The last piece of `pieces` that names something.
pub open spec fn last_named(pieces: Seq<Seq<char>>) -> Option<Seq<char>>
    decreases pieces.len(),
{
    if pieces.len() == 0 {
        None
    } else if is_named_piece(pieces.last()) {
        Some(pieces.last())
    } else {
        last_named(pieces.drop_last())
    }
}

/// `Path::file_name`: the last component of the path, unless it is `..`.
pub open spec fn file_name_of(path: Seq<char>) -> Option<Seq<char>> {
    match last_named(split_on(path, '/')) {
        Some(c) => if c == seq!['.', '.'] {
            None
        } else {
            Some(c)
        },
        None => None,
    }
}

/// `Path::extension`: what follows the last `.` of the file name,
/// when that `.` is not its first character.
pub open spec fn extension_of(path: Seq<char>) -> Option<Seq<char>> {
    match file_name_of(path) {
        Some(n) => {
            let k = last_index_of(n, '.');
            if k <= 0 {
                None
            } else {
                Some(n.subrange(k + 1, n.len() as int))
            }
        },
        None => None,
    }
}

/// `Path::file_stem`: the file name without its extension.
pub open spec fn file_stem_of(path: Seq<char>) -> Option<Seq<char>> {
    match file_name_of(path) {
        Some(n) => {
            let k = last_index_of(n, '.');
            if k <= 0 {
                Some(n)
            } else {
                Some(n.subrange(0, k))
            }
        },
        None => None,
    }
}

/// `Path::join` on Unix: an absolute `rel` replaces `base`; otherwise a
/// separator is put between them when `base` is non-empty and does not end in one.
pub open spec fn join_paths(base: Seq<char>, rel: Seq<char>) -> Seq<char> {
    if rel.len() > 0 && rel[0] == '/' {
        rel
    } else if base.len() > 0 && base.last() != '/' {
        base + seq!['/'] + rel
    } else {
        base + rel
    }
}

fn is_named_piece_exec(p: &Vec<char>) -> (r: bool)
    ensures
        r == is_named_piece(p@),
{
    if p.len() == 0 {
        return false;
    }
    if p.len() == 1 && p[0] == '.' {
        assert(p@ =~= seq!['.']);
        return false;
    }
    assert(p@ != seq!['.']) by {
        if p@ == seq!['.'] {
            assert(p@.len() == 1);
        }
    }
    true
}

/// The file name of a path, as characters.
fn file_name_chars(path: &str) -> (r: Option<Vec<char>>)
    ensures
        match r {
            Some(n) => file_name_of(path@) == Some(n@),
            None => file_name_of(path@) is None,
        },
{
    let cs = chars_of(path);
    let pieces = split_chars(&cs, '/');
    let ghost all = views(pieces@);
    let mut j: usize = pieces.len();
    assert(all.subrange(0, j as int) =~= all);
    while j > 0
        invariant
            j <= pieces.len(),
            all == views(pieces@),
            all == split_on(path@, '/'),
            last_named(all) == last_named(all.subrange(0, j as int)),
        decreases j,
    {
        assert(all.subrange(0, j as int).drop_last() =~= all.subrange(0, j - 1));
        if is_named_piece_exec(&pieces[j - 1]) {
            let p = &pieces[j - 1];
            if p.len() == 2 && p[0] == '.' && p[1] == '.' {
                assert(p@ =~= seq!['.', '.']);
                return None;
            }
            assert(p@ != seq!['.', '.']) by {
                if p@ == seq!['.', '.'] {
                    assert(p@.len() == 2);
                    assert(p@[0] == '.' && p@[1] == '.');
                }
            }
            let mut out: Vec<char> = Vec::new();
            let mut i: usize = 0;
            while i < p.len()
                invariant
                    i <= p.len(),
                    out@ =~= p@.subrange(0, i as int),
                decreases p.len() - i,
            {
                out.push(p[i]);
                i = i + 1;
            }
            assert(out@ =~= p@);
            return Some(out);
        }
        j = j - 1;
    }
    None
}

/// `Path::file_name`.
pub fn file_name(path: &str) -> (r: Option<String>)
    ensures
        opt_chars(r) == file_name_of(path@),
{
    match file_name_chars(path) {
        Some(n) => Some(string_of(&n)),
        None => None,
    }
}

pub fn subrange_chars(v: &Vec<char>, from: usize, to: usize) -> (r: Vec<char>)
    requires
        from <= to <= v.len(),
    ensures
        r@ == v@.subrange(from as int, to as int),
{
    let mut out: Vec<char> = Vec::new();
    let mut i: usize = from;
    while i < to
        invariant
            from <= i <= to,
            to <= v.len(),
            out@ =~= v@.subrange(from as int, i as int),
        decreases to - i,
    {
        out.push(v[i]);
        i = i + 1;
    }
    out
}

/// `Path::extension`, as characters.
pub fn extension_chars(path: &str) -> (r: Option<Vec<char>>)
    ensures
        match r {
            Some(e) => extension_of(path@) == Some(e@),
            None => extension_of(path@) is None,
        },
{
    match file_name_chars(path) {
        Some(n) => {
            match find_last(&n, '.') {
                Some(k) => {
                    if k == 0 {
                        None
                    } else {
                        Some(subrange_chars(&n, k + 1, n.len()))
                    }
                },
                None => None,
            }
        },
        None => None,
    }
}

/// `Path::extension`.
pub fn extension(path: &str) -> (r: Option<String>)
    ensures
        opt_chars(r) == extension_of(path@),
{
    match extension_chars(path) {
        Some(e) => Some(string_of(&e)),
        None => None,
    }
}

/// `Path::file_stem`, as characters.
pub fn file_stem_chars(path: &str) -> (r: Option<Vec<char>>)
    ensures
        match r {
            Some(e) => file_stem_of(path@) == Some(e@),
            None => file_stem_of(path@) is None,
        },
{
    match file_name_chars(path) {
        Some(n) => {
            match find_last(&n, '.') {
                Some(k) => {
                    if k == 0 {
                        Some(n)
                    } else {
                        Some(subrange_chars(&n, 0, k))
                    }
                },
                None => Some(n),
            }
        },
        None => None,
    }
}

/// `Path::file_stem`.
pub fn file_stem(path: &str) -> (r: Option<String>)
    ensures
        opt_chars(r) == file_stem_of(path@),
{
    match file_stem_chars(path) {
        Some(e) => Some(string_of(&e)),
        None => None,
    }
}

/// `Path::join`.
pub fn join(base: &str, rel: &str) -> (r: String)
    ensures
        r@ == join_paths(base@, rel@),
{
    let b = chars_of(base);
    let p = chars_of(rel);
    if p.len() > 0 && p[0] == '/' {
        return rel.to_owned();
    }
    let mut out = base.to_owned();
    if b.len() > 0 && b[b.len() - 1] != '/' {
        push_char(&mut out, '/');
    }
    out.append(rel);
    out
}

} // verus!

verus! {

/// The extension of a path, lower-cased in ASCII.
pub open spec fn lower_extension_of(path: Seq<char>) -> Option<Seq<char>> {
    match extension_of(path) {
        Some(e) => Some(crate::text::ascii_lower_seq(e)),
        None => None,
    }
}

/// The extension of a path, lower-cased in ASCII.
pub fn lower_extension(path: &str) -> (r: Option<Vec<char>>)
    ensures
        match r {
            Some(e) => lower_extension_of(path@) == Some(e@),
            None => lower_extension_of(path@) is None,
        },
{
    match extension_chars(path) {
        Some(e) => Some(crate::text::ascii_lower_vec(&e)),
        None => None,
    }
}

} // verus!

verus! {

/// The path starts at the root.
pub open spec fn has_root(s: Seq<char>) -> bool {
    s.len() > 0 && s[0] == '/'
}

/// A relative path that starts with the current directory `.`.
pub open spec fn starts_with_cur_dir(s: Seq<char>) -> bool {
    !has_root(s) && s.len() > 0 && s[0] == '.' && (s.len() == 1 || s[1] == '/')
}

/// Where the components after the root (or the leading `.`) begin.
pub open spec fn body_start(s: Seq<char>) -> int {
    if has_root(s) || starts_with_cur_dir(s) {
        1
    } else {
        0
    }
}

/// The last separator in `s[lo..l]`, or -1.
pub open spec fn sep_before(s: Seq<char>, lo: int, l: int) -> int
    decreases l - lo,
{
    if l <= lo {
        -1
    } else if s[l - 1] == '/' {
        l - 1
    } else {
        sep_before(s, lo, l - 1)
    }
}

/// Where the last piece of `s[..l]` (after the body start) begins.
pub open spec fn piece_start(s: Seq<char>, lo: int, l: int) -> int {
    let j = sep_before(s, lo, l);
    if j >= 0 {
        j + 1
    } else {
        lo
    }
}

/// `s[..l]` with the last piece and its separator removed.
pub open spec fn piece_cut(s: Seq<char>, lo: int, l: int) -> int {
    let j = sep_before(s, lo, l);
    if j >= 0 {
        j
    } else {
        lo
    }
}

/// Drops trailing pieces of `s[..l]` that are empty or `.`.
pub open spec fn trim_back(s: Seq<char>, lo: int, l: int) -> int
    decreases l - lo,
{
    if l <= lo {
        l
    } else {
        let piece = s.subrange(piece_start(s, lo, l), l);
        if piece.len() == 0 || piece == seq!['.'] {
            if lo <= piece_cut(s, lo, l) < l {
                trim_back(s, lo, piece_cut(s, lo, l))
            } else {
                l
            }
        } else {
            l
        }
    }
}

/// `Path::parent` on Unix: the path without its last component (trailing `/`
/// and `.` pieces ignored); `None` for the root and the empty path.
pub open spec fn parent_of(s: Seq<char>) -> Option<Seq<char>> {
    let lo = body_start(s);
    let l1 = trim_back(s, lo, s.len() as int);
    if l1 > lo {
        Some(s.subrange(0, trim_back(s, lo, piece_cut(s, lo, l1))))
    } else if has_root(s) {
        None
    } else if starts_with_cur_dir(s) {
        Some(Seq::empty())
    } else {
        None
    }
}

proof fn lemma_sep_before_bounds(s: Seq<char>, lo: int, l: int)
    requires
        0 <= lo,
        l <= s.len(),
    ensures
        sep_before(s, lo, l) == -1 || (lo <= sep_before(s, lo, l) < l && s[sep_before(s, lo, l)] == '/'),
    decreases l - lo,
{
    if l > lo && s[l - 1] != '/' {
        lemma_sep_before_bounds(s, lo, l - 1);
    }
}

proof fn lemma_trim_back_bounds(s: Seq<char>, lo: int, l: int)
    requires
        0 <= lo,
        l <= s.len(),
    ensures
        trim_back(s, lo, l) <= l,
        l >= lo ==> trim_back(s, lo, l) >= lo,
        l < lo ==> trim_back(s, lo, l) == l,
    decreases l - lo,
{
    lemma_sep_before_bounds(s, lo, l);
    if l > lo {
        let piece = s.subrange(piece_start(s, lo, l), l);
        if (piece.len() == 0 || piece == seq!['.']) && lo <= piece_cut(s, lo, l) < l {
            lemma_trim_back_bounds(s, lo, piece_cut(s, lo, l));
        }
    }
}

fn sep_before_exec(s: &Vec<char>, lo: usize, l: usize) -> (j: Option<usize>)
    requires
        l <= s@.len(),
    ensures
        match j {
            Some(j) => sep_before(s@, lo as int, l as int) == j as int,
            None => sep_before(s@, lo as int, l as int) == -1,
        },
{
    let mut k: usize = l;
    while k > lo
        invariant
            k <= l,
            l <= s@.len(),
            sep_before(s@, lo as int, l as int) == sep_before(s@, lo as int, k as int),
        decreases k,
    {
        if s[k - 1] == '/' {
            return Some(k - 1);
        }
        k = k - 1;
    }
    None
}

fn piece_cut_exec(s: &Vec<char>, lo: usize, l: usize) -> (r: usize)
    requires
        lo <= l <= s@.len(),
    ensures
        r as int == piece_cut(s@, lo as int, l as int),
        lo <= r <= l,
{
    proof {
        lemma_sep_before_bounds(s@, lo as int, l as int);
    }
    match sep_before_exec(s, lo, l) {
        Some(j) => j,
        None => lo,
    }
}

fn trim_back_exec(s: &Vec<char>, lo: usize, l: usize) -> (r: usize)
    requires
        lo <= l <= s@.len(),
    ensures
        r as int == trim_back(s@, lo as int, l as int),
        lo <= r <= l,
{
    let mut cur: usize = l;
    while cur > lo
        invariant
            lo <= cur <= l,
            l <= s@.len(),
            trim_back(s@, lo as int, l as int) == trim_back(s@, lo as int, cur as int),
        decreases cur,
    {
        proof {
            lemma_sep_before_bounds(s@, lo as int, cur as int);
        }
        let cut = piece_cut_exec(s, lo, cur);
        let start = match sep_before_exec(s, lo, cur) {
            Some(j) => j + 1,
            None => lo,
        };
        let ghost piece = s@.subrange(start as int, cur as int);
        let is_empty = start == cur;
        let is_dot = cur - start == 1 && s[start] == '.';
        if is_dot {
            assert(piece =~= seq!['.']);
        }
        if !is_dot && !is_empty {
            assert(piece.len() != 0);
            assert(piece != seq!['.']) by {
                if piece == seq!['.'] {
                    assert(piece.len() == 1);
                    assert(piece[0] == s@[start as int]);
                }
            }
        }
        if (is_empty || is_dot) && cut < cur {
            cur = cut;
        } else {
            return cur;
        }
    }
    cur
}

/// `Path::parent` on Unix.
pub fn parent(path: &str) -> (r: Option<String>)
    ensures
        crate::text::opt_chars(r) == parent_of(path@),
{
    let s = chars_of(path);
    let lo: usize = if s.len() > 0 && s[0] == '/' {
        1
    } else if s.len() > 0 && s[0] == '.' && (s.len() == 1 || s[1] == '/') {
        1
    } else {
        0
    };
    assert(lo as int == body_start(path@));
    let l1 = trim_back_exec(&s, lo, s.len());
    if l1 > lo {
        let cut = piece_cut_exec(&s, lo, l1);
        let end = trim_back_exec(&s, lo, cut);
        let mut out: Vec<char> = Vec::new();
        let mut i: usize = 0;
        while i < end
            invariant
                i <= end,
                end <= s@.len(),
                out@ =~= s@.subrange(0, i as int),
            decreases end - i,
        {
            out.push(s[i]);
            i = i + 1;
        }
        Some(string_of(&out))
    } else if s.len() > 0 && s[0] == '/' {
        None
    } else if s.len() > 0 && s[0] == '.' && (s.len() == 1 || s[1] == '/') {
        Some(String::new())
    } else {
        None
    }
}

} // verus!

verus! {

/// A parent is shorter than its path.
pub proof fn lemma_parent_shorter(s: Seq<char>)
    ensures
        parent_of(s) matches Some(p) ==> p.len() < s.len(),
{
    let lo = body_start(s);
    lemma_trim_back_bounds(s, lo, s.len() as int);
    let l1 = trim_back(s, lo, s.len() as int);
    if l1 > lo {
        lemma_sep_before_bounds(s, lo, l1);
        let cut = piece_cut(s, lo, l1);
        lemma_trim_back_bounds(s, lo, cut);
    }
}

/// The path itself, then each parent in turn up to one that has no parent.
pub open spec fn is_ancestor_chain(start: Seq<char>, chain: Seq<Seq<char>>) -> bool {
    &&& chain.len() >= 1
    &&& chain[0] == start
    &&& forall|i: int| 0 <= i < chain.len() - 1 ==> parent_of(#[trigger] chain[i]) == Some(chain[i + 1])
    &&& parent_of(chain.last()) is None
}

/// The path itself and its ancestors, nearest first (where a search for an
/// enclosing directory looks, in order).
pub fn ancestors(start: &str) -> (r: Vec<String>)
    ensures
        is_ancestor_chain(start@, r@.map_values(|s: String| s@)),
{
    let mut out: Vec<String> = Vec::new();
    let mut cur = start.to_owned();
    out.push(start.to_owned());
    loop
        invariant
            out@.len() >= 1,
            out@[0]@ == start@,
            out@.last()@ == cur@,
            forall|i: int| 0 <= i < out@.len() - 1 ==> parent_of(#[trigger] out@[i]@) == Some(out@[i + 1]@),
        decreases cur@.len(),
    {
        proof {
            lemma_parent_shorter(cur@);
        }
        match parent(cur.as_str()) {
            Some(p) => {
                let ghost before = out@;
                out.push(p.clone());
                assert(out@[before.len() - 1]@ == cur@);
                cur = p;
            },
            None => {
                let ghost v = out@.map_values(|s: String| s@);
                assert(v.last() == out@.last()@);
                assert forall|i: int| 0 <= i < v.len() - 1 implies parent_of(#[trigger] v[i]) == Some(v[i + 1]) by {
                    assert(v[i] == out@[i]@);
                    assert(v[i + 1] == out@[i + 1]@);
                }
                return out;
            },
        }
    }
}

} // verus!

verus! {

proof fn lemma_split_on_append(a: Seq<char>, b: Seq<char>, sep: char)
    requires
        !b.contains(sep),
    ensures
        split_on(a + b, sep).len() == split_on(a, sep).len(),
        split_on(a + b, sep).last() == split_on(a, sep).last() + b,
    decreases b.len(),
{
    crate::text::lemma_split_on_nonempty(a, sep);
    if b.len() == 0 {
        assert(a + b =~= a);
        assert(split_on(a, sep).last() + b =~= split_on(a, sep).last());
    } else {
        let b0 = b.drop_last();
        assert(!b0.contains(sep)) by {
            if b0.contains(sep) {
                let k = choose|k: int| 0 <= k < b0.len() && b0[k] == sep;
                assert(b[k] == sep);
            }
        }
        lemma_split_on_append(a, b0, sep);
        crate::text::lemma_split_on_nonempty(a + b0, sep);
        assert((a + b).drop_last() =~= a + b0);
        assert((a + b).last() == b.last());
        assert(b.last() != sep) by {
            assert(b[b.len() - 1] == b.last());
        }
        assert(split_on(a, sep).last() + b =~= (split_on(a, sep).last() + b0).push(b.last()));
    }
}

proof fn lemma_split_on_ends_with_sep(a: Seq<char>, sep: char)
    requires
        a.len() == 0 || a.last() == sep,
    ensures
        split_on(a, sep).last() == Seq::<char>::empty(),
{
}

/// A valid file name joined below a directory is the file name of the result:
/// `file_name(&join(dir, name))` is `name`, for a name that is not empty, holds
/// no `/` and is neither `.` nor `..`.
pub proof fn law_join_then_file_name(dir: Seq<char>, name: Seq<char>)
    requires
        name.len() > 0,
        !name.contains('/'),
        name != seq!['.'],
        name != seq!['.', '.'],
    ensures
        file_name_of(join_paths(dir, name)) == Some(name),
{
    let prefix = if dir.len() > 0 && dir.last() != '/' {
        dir + seq!['/']
    } else {
        dir
    };
    assert(name[0] != '/') by {
        if name[0] == '/' {
            assert(name.contains('/'));
        }
    }
    assert(join_paths(dir, name) =~= prefix + name);
    assert(prefix.len() == 0 || prefix.last() == '/');
    lemma_split_on_ends_with_sep(prefix, '/');
    lemma_split_on_append(prefix, name, '/');
    crate::text::lemma_split_on_nonempty(prefix, '/');
    let pieces = split_on(prefix + name, '/');
    assert(pieces.last() =~= name);
}

} // verus!
