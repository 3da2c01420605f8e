//! The preview pane: text previews (plain or highlighted), directory previews,
//! image detection, and the commands that show an image in a Kitty terminal.
use vstd::prelude::*;
use crate::files::is_image_name;
use crate::text::{
    chars_of, decimal, decimal_string, lemma_split_on_nonempty, lines, lines_of, push_char, split_chars, split_on, string_of,
    trim_end_ws, views, white_space,
};

verus! {

/// Whether a path names an image the preview can show: extension `png`,
/// `jpg`, `jpeg`, `gif`, `bmp`, `webp`, `tiff`, `tif`, `ico` or `avif`, in any
/// case.
pub fn is_image(path: &str) -> (r: bool)
    ensures
        r == is_image_name(path@),
{
    crate::files::is_image_file(path)
}

/// The number of terminal columns a text takes, as `unicode-width` measures it.
pub uninterp spec fn text_width(s: Seq<char>) -> nat;

/// `UnicodeWidthStr::width` of `unicode-width`: claimed to give `text_width` of
/// the text, which depends on the text alone.
#[verifier::external_body]
fn display_width(s: &str) -> (r: usize)
    ensures
        r == text_width(s@),
{
    unicode_width::UnicodeWidthStr::width(s)
}

/// `n - 3`, or 0.
pub open spec fn less_three(n: nat) -> nat {
    if n >= 3 {
        (n - 3) as nat
    } else {
        0
    }
}

/// A line fitted to `max_width` columns: kept when it fits, else its first
/// `max_width - 3` characters followed by `...`.
pub open spec fn fitted(l: Seq<char>, max_width: nat) -> Seq<char> {
    if text_width(l) > max_width {
        l.take(if less_three(max_width) < l.len() {
            less_three(max_width) as int
        } else {
            l.len() as int
        }) + "..."@
    } else {
        l
    }
}

/// A line fitted to `max_width` columns.
pub fn fit_line(l: &Vec<char>, max_width: usize) -> (r: String)
    ensures
        r@ == fitted(l@, max_width as nat),
{
    let s = string_of(l);
    if display_width(s.as_str()) > max_width {
        let keep: usize = if max_width >= 3 {
            max_width - 3
        } else {
            0
        };
        let n = if keep < l.len() {
            keep
        } else {
            l.len()
        };
        let mut out = String::new();
        let mut i: usize = 0;
        while i < n
            invariant
                i <= n,
                n <= l.len(),
                out@ == l@.take(i as int),
            decreases n - i,
        {
            push_char(&mut out, l[i]);
            assert(out@ =~= l@.take(i + 1));
            i = i + 1;
        }
        out.append("...");
        out
    } else {
        s
    }
}

/// What the preview shows for a file it cannot read as text.
pub const UNREADABLE: &'static str = "[binary or unreadable file]";

/// `s` followed by empty lines up to `n` lines.
pub open spec fn padded(s: Seq<Seq<char>>, n: nat) -> Seq<Seq<char>> {
    if s.len() >= n {
        s
    } else {
        s + Seq::new((n - s.len()) as nat, |i: int| Seq::<char>::empty())
    }
}

/// At most `n` first items.
pub open spec fn at_most<T>(s: Seq<T>, n: nat) -> Seq<T> {
    if s.len() <= n {
        s
    } else {
        s.take(n as int)
    }
}

/// The plain preview of a file's text (`None` when it could not be read as
/// text): its first `max_lines` lines, each fitted to `max_width` columns, or
/// the unreadable notice; then empty lines up to `max_lines`.
pub open spec fn plain_preview_of(content: Option<Seq<char>>, max_lines: nat, max_width: nat) -> Seq<Seq<char>> {
    match content {
        Some(c) => padded(
            at_most(lines_of(c), max_lines).map_values(|l: Seq<char>| fitted(l, max_width)),
            max_lines,
        ),
        None => padded(seq![UNREADABLE@], max_lines),
    }
}

fn pad_lines(out: &mut Vec<String>, n: usize)
    ensures
        final(out)@.map_values(|s: String| s@) == padded(old(out)@.map_values(|s: String| s@), n as nat),
{
    let ghost start = out@.map_values(|s: String| s@);
    let k = out.len();
    while out.len() < n
        invariant
            k <= out@.len(),
            k == start.len(),
            out@.len() <= n || out@.len() == k,
            out@.map_values(|s: String| s@) =~= start + Seq::new(
                (out@.len() - k) as nat,
                |i: int| Seq::<char>::empty(),
            ),
        decreases n - out@.len(),
    {
        let ghost before = out@;
        out.push(String::new());
        proof {
            assert(out@.map_values(|s: String| s@) =~= before.map_values(|s: String| s@).push(
                Seq::<char>::empty(),
            ));
            assert(start + Seq::new((out@.len() - k) as nat, |i: int| Seq::<char>::empty()) =~= (start
                + Seq::new((before.len() - k) as nat, |i: int| Seq::<char>::empty())).push(
                Seq::<char>::empty(),
            ));
        }
    }
    assert(out@.map_values(|s: String| s@) =~= padded(start, n as nat));
}

/// The plain preview of a file's text.
pub fn plain_preview(content: Option<&str>, max_lines: usize, max_width: usize) -> (r: Vec<String>)
    ensures
        r@.map_values(|s: String| s@) == plain_preview_of(
            match content {
                Some(c) => Some(c@),
                None => None,
            },
            max_lines as nat,
            max_width as nat,
        ),
{
    let mut out: Vec<String> = Vec::new();
    match content {
        Some(c) => {
            let ls = lines(c);
            let n = if ls.len() < max_lines {
                ls.len()
            } else {
                max_lines
            };
            let ghost lv = lines_of(c@);
            let mut i: usize = 0;
            while i < n
                invariant
                    i <= n,
                    n <= ls@.len(),
                    n <= max_lines,
                    crate::text::views(ls@) == lv,
                    out@.map_values(|s: String| s@) =~= lv.take(i as int).map_values(
                        |l: Seq<char>| fitted(l, max_width as nat),
                    ),
                decreases n - i,
            {
                let f = fit_line(&ls[i], max_width);
                let ghost before = out@;
                out.push(f);
                proof {
                    assert(crate::text::views(ls@)[i as int] == ls@[i as int]@);
                    assert(lv.take(i + 1) =~= lv.take(i as int).push(lv[i as int]));
                    assert(out@.map_values(|s: String| s@) =~= before.map_values(|s: String| s@).push(
                        fitted(lv[i as int], max_width as nat),
                    ));
                    assert(lv.take(i + 1).map_values(|l: Seq<char>| fitted(l, max_width as nat))
                        =~= lv.take(i as int).map_values(|l: Seq<char>| fitted(l, max_width as nat)).push(
                        fitted(lv[i as int], max_width as nat),
                    ));
                }
                i = i + 1;
            }
            assert(at_most(lv, max_lines as nat) =~= lv.take(n as int));
        },
        None => {
            out.push(String::from_str(UNREADABLE));
            assert(out@.map_values(|s: String| s@) =~= seq![UNREADABLE@]);
        },
    }
    pad_lines(&mut out, max_lines);
    out
}

/// The lines of a directory preview: `📁 name` for a directory and `📄 name`
/// otherwise, for each of the first `max_items` entries read that could be
/// read (`None` marks one that could not); `[empty directory]` when none.
pub open spec fn dir_preview_of(items: Seq<Option<(Seq<char>, bool)>>, max_items: nat) -> Seq<Seq<char>> {
    let shown = dir_item_lines(at_most(items, max_items));
    if shown.len() == 0 {
        seq!["[empty directory]"@]
    } else {
        shown
    }
}

/// The lines of the readable items.
pub open spec fn dir_item_lines(items: Seq<Option<(Seq<char>, bool)>>) -> Seq<Seq<char>>
    decreases items.len(),
{
    if items.len() == 0 {
        Seq::empty()
    } else {
        let prev = dir_item_lines(items.drop_last());
        match items.last() {
            Some((name, is_dir)) => prev.push(
                if is_dir {
                    "📁 "@
                } else {
                    "📄 "@
                } + name,
            ),
            None => prev,
        }
    }
}

/// The lines of a directory preview from the entries read.
pub fn dir_preview(items: &Vec<Option<(String, bool)>>, max_items: usize) -> (r: Vec<String>)
    ensures
        r@.map_values(|s: String| s@) == dir_preview_of(
            items@.map_values(
                |o: Option<(String, bool)>|
                    match o {
                        Some((n, d)) => Some((n@, d)),
                        None => None,
                    },
            ),
            max_items as nat,
        ),
{
    let ghost iv = items@.map_values(
        |o: Option<(String, bool)>|
            match o {
                Some((n, d)) => Some((n@, d)),
                None => None,
            },
    );
    let n = if items.len() < max_items {
        items.len()
    } else {
        max_items
    };
    let mut out: Vec<String> = Vec::new();
    let mut i: usize = 0;
    while i < n
        invariant
            i <= n,
            n <= items@.len(),
            iv.len() == items@.len(),
            forall|j: int| 0 <= j < items@.len() ==> #[trigger] iv[j] == match items@[j] {
                Some((nm, d)) => Some((nm@, d)),
                None => None::<(Seq<char>, bool)>,
            },
            out@.map_values(|s: String| s@) =~= dir_item_lines(iv.take(i as int)),
        decreases n - i,
    {
        assert(iv.take(i + 1).drop_last() =~= iv.take(i as int));
        match &items[i] {
            Some((name, is_dir)) => {
                let mut line = if *is_dir {
                    String::from_str("📁 ")
                } else {
                    String::from_str("📄 ")
                };
                line.append(name.as_str());
                out.push(line);
            },
            None => {},
        }
        i = i + 1;
    }
    assert(at_most(iv, max_items as nat) =~= iv.take(n as int));
    if out.len() == 0 {
        out.push(String::from_str("[empty directory]"));
        assert(out@.map_values(|s: String| s@) =~= seq!["[empty directory]"@]);
    }
    out
}

} // verus!

verus! {

/// The name of `syntect`'s plain text syntax (what `find_syntax_plain_text`
/// looks up), used when no syntax belongs to the extension.
pub const PLAIN_TEXT_SYNTAX: &'static str = "Plain Text";

/// The `syntect` theme previews are highlighted with.
pub const PREVIEW_THEME: &'static str = "base16-ocean.dark";

/// A list of highlighted spans as plain values: each span's text and
/// foreground colour.
pub open spec fn span_views(spans: Seq<(String, (u8, u8, u8))>) -> Seq<(Seq<char>, (u8, u8, u8))> {
    spans.map_values(|sp: (String, (u8, u8, u8))| (sp.0@, sp.1))
}

/// The text of a list of highlighted spans, joined.
pub open spec fn spans_text(spans: Seq<(Seq<char>, (u8, u8, u8))>) -> Seq<char>
    decreases spans.len(),
{
    if spans.len() == 0 {
        Seq::empty()
    } else {
        spans_text(spans.drop_last()) + spans.last().0
    }
}

/// The name of the syntax among `syntect`'s built-in syntaxes that
/// `find_syntax_by_extension` gives for an extension; none where there is none.
pub uninterp spec fn syntax_name_for_extension_of(ext: Seq<char>) -> Option<Seq<char>>;

/// What a `syntect` highlighter makes of `lines`, highlighting one after
/// another from the start of a file with the built-in syntax and the built-in
/// theme of those names: the spans of each line; none where there is no such
/// syntax or theme.
pub uninterp spec fn highlight_lines_of(syntax: Seq<char>, theme: Seq<char>, lines: Seq<Seq<char>>) -> Option<
    Seq<Seq<(Seq<char>, (u8, u8, u8))>>,
>;

/// `SyntaxSet::load_defaults_newlines` of `syntect`, then
/// `find_syntax_by_extension` and the found syntax's `name`. Claimed: the
/// result is `syntax_name_for_extension_of` of the extension.
#[verifier::external_body]
fn syntax_name_by_extension(ext: &str) -> (r: Option<String>)
    ensures
        match r {
            Some(name) => syntax_name_for_extension_of(ext@) == Some(name@),
            None => syntax_name_for_extension_of(ext@) is None,
        },
{
    let ss = syntect::parsing::SyntaxSet::load_defaults_newlines();
    ss.find_syntax_by_extension(ext).map(|found| found.name.clone())
}

/// `SyntaxSet::load_defaults_newlines` and `ThemeSet::load_defaults` of
/// `syntect`, the syntax found by `find_syntax_by_name` and the theme of that
/// name in the set's `themes` map, `HighlightLines::new` with them, then
/// `highlight_line` on each line in turn (an error taken as no spans), each span
/// as its text and foreground colour. Claimed: the result is
/// `highlight_lines_of` of the arguments; there are as many span lists as
/// lines; and, as `syntect` documents, the texts of a line's spans joined make
/// the line (an error gives no spans). Which colours come out is not stated.
#[verifier::external_body]
fn highlight_lines(syntax: &str, theme: &str, lines: &Vec<String>) -> (r: Option<Vec<Vec<(String, (u8, u8, u8))>>>)
    ensures
        match r {
            Some(v) => {
                &&& highlight_lines_of(syntax@, theme@, lines@.map_values(|l: String| l@)) == Some(
                    v@.map_values(|sp: Vec<(String, (u8, u8, u8))>| span_views(sp@)),
                )
                &&& v@.len() == lines@.len()
                &&& forall|i: int|
                    0 <= i < v@.len() ==> #[trigger] v@[i]@.len() == 0 || spans_text(span_views(v@[i]@)) == lines@[i]@
            },
            None => highlight_lines_of(syntax@, theme@, lines@.map_values(|l: String| l@)) is None,
        },
{
    let ss = syntect::parsing::SyntaxSet::load_defaults_newlines();
    let ts = syntect::highlighting::ThemeSet::load_defaults();
    let mut h = syntect::easy::HighlightLines::new(ss.find_syntax_by_name(syntax)?, ts.themes.get(theme)?);
    let mut out = Vec::new();
    for line in lines {
        let spans = h.highlight_line(line, &ss).unwrap_or_default();
        out.push(spans.into_iter().map(|(st, t)| (t.to_string(), (st.foreground.r, st.foreground.g, st.foreground.b))).collect());
    }
    Some(out)
}

/// The lines of a text with their line endings kept (as `syntect`'s
/// `LinesWithEndings` gives them): split after each `\n`, no empty last line.
pub open spec fn lines_with_endings(s: Seq<char>) -> Seq<Seq<char>> {
    let p = split_on(s, '\n');
    let init = p.drop_last().map_values(|x: Seq<char>| x.push('\n'));
    if p.last().len() == 0 {
        init
    } else {
        init.push(p.last())
    }
}

/// The lines of a text with their line endings kept.
pub fn lines_with_endings_of(s: &str) -> (r: Vec<String>)
    ensures
        r@.map_values(|x: String| x@) == lines_with_endings(s@),
{
    let cs = chars_of(s);
    let parts = split_chars(&cs, '\n');
    proof {
        lemma_split_on_nonempty(s@, '\n');
    }
    let ghost p = split_on(s@, '\n');
    let mut out: Vec<String> = Vec::new();
    let n = parts.len();
    let mut i: usize = 0;
    while i + 1 < n
        invariant
            i < n,
            n == parts@.len(),
            views(parts@) == p,
            out@.map_values(|x: String| x@) =~= p.drop_last().take(i as int).map_values(
                |x: Seq<char>| x.push('\n'),
            ),
        decreases n - i,
    {
        let mut line = string_of(&parts[i]);
        push_char(&mut line, '\n');
        let ghost before = out@;
        out.push(line);
        proof {
            assert(views(parts@)[i as int] == parts@[i as int]@);
            assert(out@.map_values(|x: String| x@) =~= before.map_values(|x: String| x@).push(
                p[i as int].push('\n'),
            ));
            assert(p.drop_last().take(i + 1) =~= p.drop_last().take(i as int).push(p[i as int]));
        }
        i = i + 1;
    }
    assert(p.drop_last().take(i as int) =~= p.drop_last());
    assert(views(parts@)[n - 1] == parts@[n - 1]@);
    if parts[n - 1].len() > 0 {
        let ghost before = out@;
        out.push(string_of(&parts[n - 1]));
        assert(out@.map_values(|x: String| x@) =~= before.map_values(|x: String| x@).push(p.last()));
    }
    out
}

/// `str::trim_end`, on characters.
pub fn trim_end_chars(v: &Vec<char>) -> (r: Vec<char>)
    ensures
        r@ == trim_end_ws(v@),
{
    let mut j: usize = v.len();
    assert(v@.take(j as int) =~= v@);
    while j > 0 && white_space(v[j - 1])
        invariant
            j <= v.len(),
            trim_end_ws(v@) == trim_end_ws(v@.take(j as int)),
        decreases j,
    {
        assert(v@.take(j as int).drop_last() =~= v@.take(j - 1));
        j = j - 1;
    }
    let r = crate::pathname::subrange_chars(v, 0, j);
    proof {
        assert(r@ =~= v@.take(j as int));
        if j > 0 {
            assert(v@.take(j as int).last() == v@[j - 1]);
        }
    }
    r
}

/// A highlighted line as the preview shows it: the text of its spans without
/// trailing white space, fitted to `max_width` columns, and the colour of its
/// first span.
pub open spec fn preview_row(spans: Seq<(Seq<char>, (u8, u8, u8))>, max_width: nat) -> (Seq<char>, Option<(u8, u8, u8)>) {
    (fitted(trim_end_ws(spans_text(spans)), max_width), if spans.len() > 0 {
        Some(spans[0].1)
    } else {
        None
    })
}

/// A highlighted line as the preview shows it.
fn preview_line(spans: &Vec<(String, (u8, u8, u8))>, max_width: usize) -> (r: (String, Option<(u8, u8, u8)>))
    ensures
        (r.0@, r.1) == preview_row(span_views(spans@), max_width as nat),
{
    let ghost sv = span_views(spans@);
    let mut text = String::new();
    let mut i: usize = 0;
    while i < spans.len()
        invariant
            i <= spans.len(),
            sv == span_views(spans@),
            text@ == spans_text(sv.take(i as int)),
        decreases spans.len() - i,
    {
        assert(sv.take(i + 1).drop_last() =~= sv.take(i as int));
        assert(sv.take(i + 1).last() == sv[i as int]);
        text.append(spans[i].0.as_str());
        i = i + 1;
    }
    assert(sv.take(spans.len() as int) =~= sv);
    let cs = chars_of(text.as_str());
    let trimmed = trim_end_chars(&cs);
    let fitted_line = fit_line(&trimmed, max_width);
    let color = if spans.len() > 0 {
        Some(spans[0].1)
    } else {
        None
    };
    (fitted_line, color)
}

/// Each line's spans as the preview shows them.
fn highlighted_rows(spans: &Vec<Vec<(String, (u8, u8, u8))>>, max_width: usize) -> (out: Vec<(String, Option<(u8, u8, u8)>)>)
    ensures
        out@.len() == spans@.len(),
        forall|j: int|
            0 <= j < spans@.len() ==> ((#[trigger] out@[j]).0@, out@[j].1) == preview_row(
                span_views(spans@[j]@),
                max_width as nat,
            ),
{
    let mut out: Vec<(String, Option<(u8, u8, u8)>)> = Vec::new();
    let mut i: usize = 0;
    while i < spans.len()
        invariant
            i <= spans.len(),
            out@.len() == i,
            forall|j: int|
                0 <= j < i ==> ((#[trigger] out@[j]).0@, out@[j].1) == preview_row(
                    span_views(spans@[j]@),
                    max_width as nat,
                ),
        decreases spans.len() - i,
    {
        out.push(preview_line(&spans[i], max_width));
        i = i + 1;
    }
    out
}

/// The lines uncoloured, each without trailing white space and fitted to
/// `max_width` columns.
fn plain_rows(ls: &Vec<String>, max_width: usize) -> (out: Vec<(String, Option<(u8, u8, u8)>)>)
    ensures
        out@.len() == ls@.len(),
        forall|j: int|
            0 <= j < ls@.len() ==> (#[trigger] out@[j]).0@ == fitted(trim_end_ws(ls@[j]@), max_width as nat)
                && out@[j].1 is None,
{
    let mut out: Vec<(String, Option<(u8, u8, u8)>)> = Vec::new();
    let mut i: usize = 0;
    while i < ls.len()
        invariant
            i <= ls.len(),
            out@.len() == i,
            forall|j: int|
                0 <= j < i ==> (#[trigger] out@[j]).0@ == fitted(trim_end_ws(ls@[j]@), max_width as nat)
                    && out@[j].1 is None,
        decreases ls.len() - i,
    {
        let cs = chars_of(ls[i].as_str());
        let trimmed = trim_end_chars(&cs);
        out.push((fit_line(&trimmed, max_width), None));
        i = i + 1;
    }
    out
}

/// The syntax a file with extension `ext` is highlighted as: the built-in one
/// for the extension, else plain text.
pub open spec fn preview_syntax(ext: Seq<char>) -> Seq<char> {
    match syntax_name_for_extension_of(ext) {
        Some(name) => name,
        None => PLAIN_TEXT_SYNTAX@,
    }
}

/// The highlighted preview of a file's text (`None` when it could not be read
/// as text), highlighted as the syntax of extension `ext` (plain text when
/// unknown) with the `base16-ocean.dark` theme: its first `max_lines` lines,
/// each without trailing white space and fitted to `max_width` columns, with
/// the colour of its first span; then empty lines up to `max_lines`. A file
/// that cannot be read gives the unreadable notice alone. A line whose
/// highlighting fails shows empty; without that syntax or the theme in
/// `syntect`'s sets, the lines are shown uncoloured.
pub fn highlighted_preview(content: Option<&str>, ext: &str, max_lines: usize, max_width: usize) -> (r: Vec<(String, Option<(u8, u8, u8)>)>)
    ensures
        content is None ==> r@.len() == 1 && r@[0].0@ == UNREADABLE@ && r@[0].1 is None,
        content matches Some(c) ==> {
            let ls = at_most(lines_with_endings(c@), max_lines as nat);
            &&& r@.len() == if ls.len() < max_lines {
                max_lines as int
            } else {
                ls.len() as int
            }
            &&& match highlight_lines_of(preview_syntax(ext@), PREVIEW_THEME@, ls) {
                Some(spans) => forall|i: int|
                    0 <= i < ls.len() ==> ((#[trigger] r@[i]).0@, r@[i].1) == preview_row(spans[i], max_width as nat),
                None => forall|i: int|
                    0 <= i < ls.len() ==> (#[trigger] r@[i]).0@ == fitted(trim_end_ws(ls[i]), max_width as nat)
                        && r@[i].1 is None,
            }
            &&& forall|i: int|
                0 <= i < ls.len() ==> (#[trigger] r@[i]).0@ == fitted(trim_end_ws(ls[i]), max_width as nat)
                    || r@[i].0@ == fitted(Seq::<char>::empty(), max_width as nat)
            &&& forall|i: int| ls.len() <= i < r@.len() ==> (#[trigger] r@[i]).0@.len() == 0 && r@[i].1 is None
        },
{
    let mut out: Vec<(String, Option<(u8, u8, u8)>)> = Vec::new();
    let c = match content {
        Some(c) => c,
        None => {
            out.push((String::from_str(UNREADABLE), None));
            return out;
        },
    };
    let syntax = match syntax_name_by_extension(ext) {
        Some(name) => name,
        None => String::from_str(PLAIN_TEXT_SYNTAX),
    };
    let mut ls = lines_with_endings_of(c);
    let ghost lv = lines_with_endings(c@);
    let n = if ls.len() < max_lines {
        ls.len()
    } else {
        max_lines
    };
    ls.truncate(n);
    let ghost taken = at_most(lv, max_lines as nat);
    assert(ls@.map_values(|l: String| l@) =~= taken);
    let highlighted = highlight_lines(syntax.as_str(), PREVIEW_THEME, &ls);
    let mut rows = match highlighted {
        Some(spans) => {
            let rows = highlighted_rows(&spans, max_width);
            proof {
                let sv = spans@.map_values(|sp: Vec<(String, (u8, u8, u8))>| span_views(sp@));
                assert forall|i: int| 0 <= i < n implies (#[trigger] rows@[i]).0@ == fitted(
                    trim_end_ws(taken[i]),
                    max_width as nat,
                ) || rows@[i].0@ == fitted(Seq::<char>::empty(), max_width as nat) by {
                    assert(sv[i] == span_views(spans@[i]@));
                    assert(taken[i] == ls@[i]@);
                    if spans@[i]@.len() == 0 {
                        assert(span_views(spans@[i]@) =~= Seq::<(Seq<char>, (u8, u8, u8))>::empty());
                        assert(spans_text(span_views(spans@[i]@)) =~= Seq::<char>::empty());
                        assert(trim_end_ws(Seq::<char>::empty()) =~= Seq::<char>::empty());
                    }
                }
                assert forall|i: int| 0 <= i < n implies ((#[trigger] rows@[i]).0@, rows@[i].1) == preview_row(
                    sv[i],
                    max_width as nat,
                ) by {
                    assert(sv[i] == span_views(spans@[i]@));
                }
            }
            rows
        },
        None => {
            let rows = plain_rows(&ls, max_width);
            assert forall|j: int| 0 <= j < n implies taken[j] == ls@[j]@ by {
                assert(ls@.map_values(|l: String| l@)[j] == ls@[j]@);
            }
            rows
        },
    };
    while rows.len() < max_lines
        invariant
            n <= rows@.len(),
            n == taken.len(),
            rows@.len() <= max_lines || rows@.len() == n,
            forall|j: int|
                0 <= j < n ==> (#[trigger] rows@[j]).0@ == fitted(trim_end_ws(taken[j]), max_width as nat)
                    || rows@[j].0@ == fitted(Seq::<char>::empty(), max_width as nat),
            match highlight_lines_of(syntax@, PREVIEW_THEME@, taken) {
                Some(sv) => forall|j: int|
                    0 <= j < n ==> ((#[trigger] rows@[j]).0@, rows@[j].1) == preview_row(sv[j], max_width as nat),
                None => forall|j: int|
                    0 <= j < n ==> (#[trigger] rows@[j]).0@ == fitted(trim_end_ws(taken[j]), max_width as nat)
                        && rows@[j].1 is None,
            },
            forall|j: int| n <= j < rows@.len() ==> (#[trigger] rows@[j]).0@.len() == 0 && rows@[j].1 is None,
        decreases max_lines - rows@.len(),
    {
        rows.push((String::new(), None));
    }
    rows
}

} // verus!

verus! {

/// The character of a 6-bit value in the standard base64 alphabet
/// (`A`–`Z`, `a`–`z`, `0`–`9`, `+`, `/`).
pub open spec fn base64_digit(v: nat) -> char {
    if v < 26 {
        ((65 + v) as u32) as char
    } else if v < 52 {
        ((71 + v) as u32) as char
    } else if v < 62 {
        ((v - 4) as u32) as char
    } else if v == 62 {
        '+'
    } else {
        '/'
    }
}

/// The standard base64 text of some bytes (RFC 4648, padded with `=`): each
/// group of three bytes gives four characters of six bits each; a last group
/// of one or two bytes gives two or three characters and `=` padding.
pub open spec fn base64_of(b: Seq<u8>) -> Seq<char>
    decreases b.len(),
{
    if b.len() == 0 {
        Seq::empty()
    } else if b.len() == 1 {
        seq![base64_digit((b[0] / 4) as nat), base64_digit(((b[0] % 4) * 16) as nat), '=', '=']
    } else if b.len() == 2 {
        seq![
            base64_digit((b[0] / 4) as nat),
            base64_digit(((b[0] % 4) * 16 + b[1] / 16) as nat),
            base64_digit(((b[1] % 16) * 4) as nat),
            '=',
        ]
    } else {
        seq![
            base64_digit((b[0] / 4) as nat),
            base64_digit(((b[0] % 4) * 16 + b[1] / 16) as nat),
            base64_digit(((b[1] % 16) * 4 + b[2] / 64) as nat),
            base64_digit((b[2] % 64) as nat),
        ] + base64_of(b.subrange(3, b.len() as int))
    }
}

/// `Engine::encode` of `base64`'s `STANDARD` engine (standard alphabet, `=`
/// padding): claimed to give `base64_of` of the bytes.
#[verifier::external_body]
fn base64_encode(data: &Vec<u8>) -> (r: String)
    ensures
        r@ == base64_of(data@),
{
    base64::Engine::encode(&base64::engine::general_purpose::STANDARD, data)
}

/// How much image data one Kitty command carries.
pub const KITTY_CHUNK: usize = 4096;

/// The Kitty command that removes the images shown.
pub const KITTY_CLEAR: &'static str = "\x1b_Ga=d,d=A\x1b\\";

/// The pixel size an image is scaled to for a pane of `width` x `height` cells
/// (8 x 16 pixels per cell); none for an empty pane.
pub fn kitty_target_size(width: u16, height: u16) -> (r: Option<(u32, u32)>)
    ensures
        r == if width == 0 || height == 0 {
            None
        } else {
            Some(((width * 8) as u32, (height * 16) as u32))
        },
{
    if width == 0 || height == 0 {
        None
    } else {
        Some((width as u32 * 8, height as u32 * 16))
    }
}

/// The smaller of two numbers.
pub open spec fn min_nat(a: nat, b: nat) -> nat {
    if a < b {
        a
    } else {
        b
    }
}

/// The commands that carry the rest of the data from `offset` on, a chunk
/// each, the last one marked as last (`m=0`).
pub open spec fn continuation_chunks(d: Seq<char>, offset: nat) -> Seq<Seq<char>>
    decreases d.len() - offset,
{
    if offset < d.len() {
        let end = min_nat(offset + KITTY_CHUNK as nat, d.len());
        seq![
            "\x1b_Gm="@ + (if end < d.len() {
                "1"@
            } else {
                "0"@
            }) + ";"@ + d.subrange(offset as int, end as int) + "\x1b\\"@,
        ] + continuation_chunks(d, end)
    } else {
        Seq::empty()
    }
}

/// The Kitty graphics commands that show an image of `width` x `height`
/// pixels from its RGBA bytes: the first carries the size and the first chunk
/// of the base64 data, the others the following chunks.
pub open spec fn kitty_commands(width: u32, height: u32, rgba: Seq<u8>) -> Seq<Seq<char>> {
    let d = base64_of(rgba);
    seq![
        "\x1b_Ga=T,f=32,s="@ + decimal(width as nat) + ",v="@ + decimal(height as nat) + ",m=1;"@
            + d.take(min_nat(KITTY_CHUNK as nat, d.len()) as int) + "\x1b\\"@,
    ] + continuation_chunks(d, KITTY_CHUNK as nat)
}

fn chunk_text(d: &Vec<char>, from: usize, to: usize) -> (r: String)
    requires
        from <= to <= d.len(),
    ensures
        r@ == d@.subrange(from as int, to as int),
{
    let part = crate::pathname::subrange_chars(d, from, to);
    string_of(&part)
}

/// The Kitty graphics commands that show an image from its RGBA bytes.
pub fn kitty_image_commands(width: u32, height: u32, rgba: &Vec<u8>) -> (r: Vec<String>)
    ensures
        r@.map_values(|s: String| s@) == kitty_commands(width, height, rgba@),
{
    let data = base64_encode(rgba);
    let d = chars_of(data.as_str());
    let ghost dv = d@;
    let ghost full = kitty_commands(width, height, rgba@);
    let n = d.len();
    let first_end = if n < KITTY_CHUNK {
        n
    } else {
        KITTY_CHUNK
    };
    let mut first = String::from_str("\x1b_Ga=T,f=32,s=");
    first.append(decimal_string(width as u128).as_str());
    first.append(",v=");
    first.append(decimal_string(height as u128).as_str());
    first.append(",m=1;");
    first.append(chunk_text(&d, 0, first_end).as_str());
    first.append("\x1b\\");
    assert(dv.subrange(0, first_end as int) =~= dv.take(first_end as int));
    let mut out: Vec<String> = Vec::new();
    out.push(first);
    let mut offset: usize = KITTY_CHUNK;
    assert(out@.map_values(|s: String| s@) + continuation_chunks(dv, offset as nat) =~= full);
    while offset < n
        invariant
            n == dv.len(),
            d@ == dv,
            out@.map_values(|s: String| s@) + continuation_chunks(dv, offset as nat) == full,
        decreases n - offset,
    {
        let end = if n - offset < KITTY_CHUNK {
            n
        } else {
            offset + KITTY_CHUNK
        };
        let mut c = String::from_str("\x1b_Gm=");
        if end < n {
            c.append("1");
        } else {
            c.append("0");
        }
        c.append(";");
        c.append(chunk_text(&d, offset, end).as_str());
        c.append("\x1b\\");
        let ghost before = out@.map_values(|s: String| s@);
        out.push(c);
        proof {
            assert(out@.map_values(|s: String| s@) =~= before.push(c@));
            let rest = continuation_chunks(dv, end as nat);
            assert(continuation_chunks(dv, offset as nat) =~= seq![c@] + rest);
            assert(before.push(c@) + rest =~= before + (seq![c@] + rest));
        }
        offset = end;
    }
    assert(continuation_chunks(dv, offset as nat) =~= Seq::<Seq<char>>::empty());
    assert(out@.map_values(|s: String| s@) =~= full);
    out
}

/// The thumbnail the image crate makes of a `width` x `height` RGBA image:
/// its width, its height and its RGBA bytes.
pub uninterp spec fn thumbnail_of(width: u32, height: u32, rgba: Seq<u8>, max_w: u32, max_h: u32) -> (u32, u32, Seq<u8>);

/// `DynamicImage::thumbnail` of the `image` crate on the RGBA image of the given
/// size and bytes (`RgbaImage::from_raw`), then `to_rgba8`: the image scaled
/// down to fit within `max_w` x `max_h` pixels, its aspect ratio kept. Claimed:
/// the result is `thumbnail_of` of the arguments; both sides are at least 1 and
/// within the bounds; there are four bytes per pixel.
#[verifier::external_body]
fn thumbnail_rgba(width: u32, height: u32, rgba: &Vec<u8>, max_w: u32, max_h: u32) -> (r: (u32, u32, Vec<u8>))
    requires
        rgba@.len() == width * height * 4,
        max_w >= 1,
        max_h >= 1,
    ensures
        (r.0, r.1, r.2@) == thumbnail_of(width, height, rgba@, max_w, max_h),
        1 <= r.0 <= max_w,
        1 <= r.1 <= max_h,
        r.2@.len() == r.0 * r.1 * 4,
{
    match image::RgbaImage::from_raw(width, height, rgba.clone()) {
        Some(buf) => {
            let t = image::DynamicImage::ImageRgba8(buf).thumbnail(max_w, max_h).to_rgba8();
            let (w, h) = t.dimensions();
            (w, h, t.into_raw())
        },
        None => (0, 0, Vec::new()),
    }
}

/// The Kitty graphics commands that show a `width` x `height` RGBA image in a
/// pane of `cols` x `rows` cells: none for an empty pane, else those of the
/// image's thumbnail fitting the pane's pixels (8 x 16 per cell).
pub open spec fn kitty_image_view(width: u32, height: u32, rgba: Seq<u8>, cols: u16, rows: u16) -> Seq<Seq<char>> {
    if cols == 0 || rows == 0 {
        Seq::empty()
    } else {
        let t = thumbnail_of(width, height, rgba, (cols * 8) as u32, (rows * 16) as u32);
        kitty_commands(t.0, t.1, t.2)
    }
}

/// The Kitty graphics commands that show a `width` x `height` RGBA image in a
/// pane of `cols` x `rows` cells: none for an empty pane, else the image's
/// thumbnail fitting the pane's pixels (8 x 16 per cell), sent as RGBA data.
pub fn kitty_image_for(width: u32, height: u32, rgba: &Vec<u8>, cols: u16, rows: u16) -> (r: Vec<String>)
    requires
        rgba@.len() == width * height * 4,
    ensures
        r@.map_values(|s: String| s@) == kitty_image_view(width, height, rgba@, cols, rows),
{
    match kitty_target_size(cols, rows) {
        None => Vec::new(),
        Some((tw, th)) => {
            let (w, h, px) = thumbnail_rgba(width, height, rgba, tw, th);
            kitty_image_commands(w, h, &px)
        },
    }
}

/// What the `image` crate decodes from the bytes of an image file whose
/// extension is `ext`, as RGBA: its width, its height and its bytes; none where
/// the extension names no format it knows or the bytes do not decode.
pub uninterp spec fn decoded_rgba_of(ext: Seq<char>, bytes: Seq<u8>) -> Option<(u32, u32, Seq<u8>)>;

/// `image::ImageFormat::from_extension` of `ext`, then
/// `image::load_from_memory_with_format` of the bytes in that format, then
/// `to_rgba8`, its `dimensions` and `into_raw`; an unknown extension or a
/// decoding error gives none. Claimed: the result is `decoded_rgba_of` of the
/// arguments. Nothing is claimed of the length of the pixel bytes.
#[verifier::external_body]
fn decode_rgba(ext: &str, bytes: &Vec<u8>) -> (r: Option<(u32, u32, Vec<u8>)>)
    ensures
        match r {
            Some((w, h, px)) => decoded_rgba_of(ext@, bytes@) == Some((w, h, px@)),
            None => decoded_rgba_of(ext@, bytes@) is None,
        },
{
    let format = image::ImageFormat::from_extension(ext)?;
    let img = image::load_from_memory_with_format(bytes.as_slice(), format).ok()?.to_rgba8();
    let (w, h) = img.dimensions();
    Some((w, h, img.into_raw()))
}

/// The Kitty graphics commands that show the image file held in `bytes`, whose
/// extension is `ext`, in a pane of `cols` x `rows` cells: none where it does
/// not decode to RGBA with four bytes per pixel, else those of
/// `kitty_image_for` on the decoded image.
pub fn kitty_image_of_bytes(ext: &str, bytes: &Vec<u8>, cols: u16, rows: u16) -> (r: Vec<String>)
    ensures
        match decoded_rgba_of(ext@, bytes@) {
            Some((w, h, px)) => if px.len() == w * h * 4 {
                r@.map_values(|s: String| s@) == kitty_image_view(w, h, px, cols, rows)
            } else {
                r@.len() == 0
            },
            None => r@.len() == 0,
        },
{
    match decode_rgba(ext, bytes) {
        Some((w, h, px)) => {
            assert(w * h <= 0xffff_ffff * 0xffff_ffff) by (nonlinear_arith)
                requires
                    w <= 0xffff_ffff,
                    h <= 0xffff_ffff,
            ;
            let pixels: u64 = w as u64 * h as u64;
            if px.len() as u128 == pixels as u128 * 4 {
                kitty_image_for(w, h, &px, cols, rows)
            } else {
                Vec::new()
            }
        },
        None => Vec::new(),
    }
}

} // verus!
