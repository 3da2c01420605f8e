//! File helpers: recognising images and archives by name, checking names,
//! sequential names for batch renames, hex dumps and text detection.
use vstd::prelude::*;
use crate::pathname::{join, join_paths, lower_extension, lower_extension_of, subrange_chars};
use crate::text::{
    chars_of, decimal, eq_chars, find_last, is_ascii_digit, split_chars, split_on, views, last_index_of, parse_usize, parse_usize_of, push_char, push_radix, radix_digits,
    radix_padded, string_of, zero_pad,
};

verus! {

/// Whether a path names an image by its extension (any case): png, jpg, jpeg,
/// gif, bmp, webp, tiff, tif, ico or avif.
pub open spec fn is_image_name(path: Seq<char>) -> bool {
    match lower_extension_of(path) {
        Some(l) => l == seq!['p', 'n', 'g'] || l == seq!['j', 'p', 'g'] || l == seq!['j', 'p', 'e', 'g']
            || l == seq!['g', 'i', 'f'] || l == seq!['b', 'm', 'p'] || l == seq!['w', 'e', 'b', 'p']
            || l == seq!['t', 'i', 'f', 'f'] || l == seq!['t', 'i', 'f'] || l == seq!['i', 'c', 'o']
            || l == seq!['a', 'v', 'i', 'f'],
        None => false,
    }
}

/// Checks if a file is an image based on its extension.
pub fn is_image_file(path: &str) -> (r: bool)
    ensures
        r == is_image_name(path@),
{
    match lower_extension(path) {
        Some(l) => eq_chars(&l, &vec!['p', 'n', 'g']) || eq_chars(&l, &vec!['j', 'p', 'g'])
            || eq_chars(&l, &vec!['j', 'p', 'e', 'g']) || eq_chars(&l, &vec!['g', 'i', 'f'])
            || eq_chars(&l, &vec!['b', 'm', 'p']) || eq_chars(&l, &vec!['w', 'e', 'b', 'p'])
            || eq_chars(&l, &vec!['t', 'i', 'f', 'f']) || eq_chars(&l, &vec!['t', 'i', 'f'])
            || eq_chars(&l, &vec!['i', 'c', 'o']) || eq_chars(&l, &vec!['a', 'v', 'i', 'f']),
        None => false,
    }
}

/// Whether a path names an archive by its extension (any case): zip, tar, gz or tgz.
pub open spec fn is_archive_name(path: Seq<char>) -> bool {
    match lower_extension_of(path) {
        Some(l) => l == seq!['z', 'i', 'p'] || l == seq!['t', 'a', 'r'] || l == seq!['g', 'z'] || l
            == seq!['t', 'g', 'z'],
        None => false,
    }
}

/// Checks if a file is an archive based on its extension.
pub fn is_archive_file(path: &str) -> (r: bool)
    ensures
        r == is_archive_name(path@),
{
    match lower_extension(path) {
        Some(l) => eq_chars(&l, &vec!['z', 'i', 'p']) || eq_chars(&l, &vec!['t', 'a', 'r'])
            || eq_chars(&l, &vec!['g', 'z']) || eq_chars(&l, &vec!['t', 'g', 'z']),
        None => false,
    }
}

/// The formats `extract_archive` can unpack.
#[derive(Debug, Clone, Copy, PartialEq, Eq, Structural)]
pub enum ExtractFormat {
    Zip,
    TarGz,
}

/// How an archive is extracted, by its extension (any case): `zip` as a zip
/// archive, `gz` or `tgz` as a gzip-compressed tar; `None` for an unknown format.
pub open spec fn extract_format_of(path: Seq<char>) -> Option<ExtractFormat> {
    match lower_extension_of(path) {
        Some(l) => if l == seq!['z', 'i', 'p'] {
            Some(ExtractFormat::Zip)
        } else if l == seq!['g', 'z'] || l == seq!['t', 'g', 'z'] {
            Some(ExtractFormat::TarGz)
        } else {
            None
        },
        None => None,
    }
}

/// Decides how to extract an archive from its path.
pub fn extract_format(path: &str) -> (r: Option<ExtractFormat>)
    ensures
        r == extract_format_of(path@),
{
    match lower_extension(path) {
        Some(l) => if eq_chars(&l, &vec!['z', 'i', 'p']) {
            Some(ExtractFormat::Zip)
        } else if eq_chars(&l, &vec!['g', 'z']) || eq_chars(&l, &vec!['t', 'g', 'z']) {
            Some(ExtractFormat::TarGz)
        } else {
            None
        },
        None => None,
    }
}

/// A zip member name that stays below the directory it is extracted into:
/// not absolute, with no `\\` or NUL, and no `..` among its `/`-separated
/// components.
pub open spec fn is_enclosed_name(name: Seq<char>) -> bool {
    &&& !(name.len() > 0 && name[0] == '/')
    &&& !name.contains('\\')
    &&& !name.contains('\0')
    &&& forall|i: int| 0 <= i < split_on(name, '/').len() ==> #[trigger] split_on(name, '/')[i] != seq!['.', '.']
}

/// Where a zip member named `name` is extracted under `output_dir`, and
/// whether it is a directory (its name ends in `/`); none for a name that
/// would leave `output_dir` (see `is_enclosed_name`), which is not extracted.
pub fn zip_entry_target(output_dir: &str, name: &str) -> (r: Option<(String, bool)>)
    ensures
        r is Some <==> is_enclosed_name(name@),
        r matches Some((target, is_dir)) ==> {
            &&& target@ == join_paths(output_dir@, name@)
            &&& target@.subrange(0, output_dir@.len() as int) == output_dir@
            &&& is_dir == (name@.len() > 0 && name@.last() == '/')
        },
{
    let cs = chars_of(name);
    if cs.len() > 0 && cs[0] == '/' {
        return None;
    }
    let mut i: usize = 0;
    while i < cs.len()
        invariant
            i <= cs.len(),
            cs@ == name@,
            forall|j: int| 0 <= j < i ==> cs@[j] != '\\' && cs@[j] != '\0',
        decreases cs.len() - i,
    {
        if cs[i] == '\\' || cs[i] == '\0' {
            assert(name@[i as int] == cs@[i as int]);
            assert(name@.contains(cs@[i as int]));
            return None;
        }
        i = i + 1;
    }
    let parts = split_chars(&cs, '/');
    let dots = vec!['.', '.'];
    let mut k: usize = 0;
    while k < parts.len()
        invariant
            k <= parts.len(),
            views(parts@) == split_on(name@, '/'),
            dots@ == seq!['.', '.'],
            forall|j: int| 0 <= j < k ==> #[trigger] split_on(name@, '/')[j] != seq!['.', '.'],
        decreases parts.len() - k,
    {
        assert(views(parts@)[k as int] == parts@[k as int]@);
        if eq_chars(&parts[k], &dots) {
            return None;
        }
        k = k + 1;
    }
    let is_dir = cs.len() > 0 && cs[cs.len() - 1] == '/';
    let target = join(output_dir, name);
    Some((target, is_dir))
}

/// The members the `zip` crate's reader finds in the bytes of a zip archive,
/// in archive order, each with its name and its uncompressed contents; none
/// where it cannot read or decompress them.
pub uninterp spec fn zip_files_of(bytes: Seq<u8>) -> Option<Seq<(Seq<char>, Seq<u8>)>>;

/// Names and contents as plain values.
pub open spec fn file_views(fs: Seq<(String, Vec<u8>)>) -> Seq<(Seq<char>, Seq<u8>)> {
    fs.map_values(|f: (String, Vec<u8>)| (f.0@, f.1@))
}

/// `zip::ZipArchive::new` over the bytes, then for each index `by_index`, the
/// member's `name` and its contents read to the end; an error at any step gives
/// none. Claimed: the result is `zip_files_of` of the bytes.
#[verifier::external_body]
fn zip_files(bytes: &Vec<u8>) -> (r: Option<Vec<(String, Vec<u8>)>>)
    ensures
        match r {
            Some(v) => zip_files_of(bytes@) == Some(file_views(v@)),
            None => zip_files_of(bytes@) is None,
        },
{
    let mut archive = zip::ZipArchive::new(std::io::Cursor::new(bytes.as_slice())).ok()?;
    let mut files = Vec::new();
    for i in 0..archive.len() {
        let mut file = archive.by_index(i).ok()?;
        let name = file.name().ok()?.to_string();
        let mut data = Vec::new();
        std::io::Read::read_to_end(&mut file, &mut data).ok()?;
        files.push((name, data));
    }
    Some(files)
}

/// What extracting members with these names and contents under `output_dir`
/// writes, in archive order: for each member whose name stays inside
/// `output_dir` (see `is_enclosed_name`), its target path, whether it is a
/// directory (its name ends in `/`), and its contents.
pub open spec fn plan_of(output_dir: Seq<char>, files: Seq<(Seq<char>, Seq<u8>)>) -> Seq<(Seq<char>, bool, Seq<u8>)>
    decreases files.len(),
{
    if files.len() == 0 {
        Seq::empty()
    } else {
        let prev = plan_of(output_dir, files.drop_last());
        let name = files.last().0;
        if is_enclosed_name(name) {
            prev.push((join_paths(output_dir, name), name.len() > 0 && name.last() == '/', files.last().1))
        } else {
            prev
        }
    }
}

/// Targets, kinds and contents as plain values.
pub open spec fn plan_views(v: Seq<(String, bool, Vec<u8>)>) -> Seq<(Seq<char>, bool, Seq<u8>)> {
    v.map_values(|t: (String, bool, Vec<u8>)| (t.0@, t.1, t.2@))
}

/// What extracting the zip archive held in `bytes` under `output_dir` writes:
/// for each member in archive order whose name stays inside `output_dir`, its
/// target path, whether it is a directory, and its contents; none where the
/// archive cannot be read.
pub fn extraction_plan(output_dir: &str, bytes: &Vec<u8>) -> (r: Option<Vec<(String, bool, Vec<u8>)>>)
    ensures
        match zip_files_of(bytes@) {
            Some(fs) => r matches Some(v) && plan_views(v@) == plan_of(output_dir@, fs),
            None => r is None,
        },
{
    let files = match zip_files(bytes) {
        Some(files) => files,
        None => return None,
    };
    let ghost all = file_views(files@);
    let n = files.len();
    let mut rest = files;
    let mut out: Vec<(String, bool, Vec<u8>)> = Vec::new();
    let mut i: usize = 0;
    while i < n
        invariant
            i <= n,
            n == all.len(),
            file_views(rest@) == all.subrange(i as int, n as int),
            plan_views(out@) == plan_of(output_dir@, all.subrange(0, i as int)),
        decreases n - i,
    {
        let ghost before = rest@;
        assert(file_views(before).len() == before.len());
        assert(file_views(before)[0] == all[i as int]);
        let (name, data) = rest.remove(0);
        assert(rest@ =~= before.subrange(1, before.len() as int));
        assert(file_views(rest@) =~= file_views(before).subrange(1, before.len() as int));
        assert(file_views(rest@) =~= all.subrange(i + 1, n as int));
        let ghost next = all.subrange(0, i + 1);
        assert(next.drop_last() =~= all.subrange(0, i as int));
        assert(next.last() == (name@, data@));
        let ghost old_out = plan_views(out@);
        match zip_entry_target(output_dir, name.as_str()) {
            Some((target, is_dir)) => {
                out.push((target, is_dir, data));
                assert(plan_views(out@) =~= old_out.push((join_paths(output_dir@, name@), is_dir, data@)));
            },
            None => {},
        }
        i = i + 1;
    }
    assert(all.subrange(0, n as int) =~= all);
    Some(out)
}

/// A file to put into a new zip archive: `base` is the last component of the
/// path given; for a file found below a given directory, `rel` is its path
/// relative to that directory; `data` is its contents.
pub struct ZipInput {
    pub base: String,
    pub rel: Option<String>,
    pub data: Vec<u8>,
}

/// The member name of a file put into a zip archive: its base name, or for a
/// file below a given directory, `base/rel`.
pub open spec fn zip_input_name(i: ZipInput) -> Seq<char> {
    match i.rel {
        None => i.base@,
        Some(r) => i.base@ + seq!['/'] + r@,
    }
}

/// The members of a new zip archive, in order: each input's member name and
/// contents.
pub open spec fn zip_members_for(inputs: Seq<ZipInput>) -> Seq<(Seq<char>, Seq<u8>)> {
    inputs.map_values(|i: ZipInput| (zip_input_name(i), i.data@))
}

/// The bytes of the zip archive the `zip` crate writes with these members in
/// this order, each deflated; none where writing fails.
pub uninterp spec fn zip_encoded_of(files: Seq<(Seq<char>, Seq<u8>)>) -> Option<Seq<u8>>;

/// `zip::ZipWriter` over an in-memory buffer: `start_file` with default options
/// and the `Deflated` method, then `write_all` of the contents, for each member
/// in turn, then `finish`; an error gives none. Claimed: the result is
/// `zip_encoded_of` of the members.
#[verifier::external_body]
fn zip_encode(files: &Vec<(String, Vec<u8>)>) -> (r: Option<Vec<u8>>)
    ensures
        match r {
            Some(b) => zip_encoded_of(file_views(files@)) == Some(b@),
            None => zip_encoded_of(file_views(files@)) is None,
        },
{
    let mut zip = zip::ZipWriter::new(std::io::Cursor::new(Vec::new()));
    let options = zip::write::SimpleFileOptions::default().compression_method(zip::CompressionMethod::Deflated);
    for (name, data) in files {
        zip.start_file(name.as_str(), options).ok()?;
        std::io::Write::write_all(&mut zip, data).ok()?;
    }
    Some(zip.finish().ok()?.into_inner())
}

/// The bytes of a zip archive holding the given files, in order, each under
/// its member name (`base`, or `base/rel` for a file below a given directory);
/// none where writing fails.
pub fn zip_archive_bytes(inputs: Vec<ZipInput>) -> (r: Option<Vec<u8>>)
    ensures
        match zip_encoded_of(zip_members_for(inputs@)) {
            Some(b) => r matches Some(v) && v@ == b,
            None => r is None,
        },
{
    let ghost all = zip_members_for(inputs@);
    let n = inputs.len();
    let mut rest = inputs;
    let mut files: Vec<(String, Vec<u8>)> = Vec::new();
    let mut i: usize = 0;
    while i < n
        invariant
            i <= n,
            n == all.len(),
            zip_members_for(rest@) == all.subrange(i as int, n as int),
            file_views(files@) == all.subrange(0, i as int),
        decreases n - i,
    {
        let ghost before = rest@;
        assert(zip_members_for(before).len() == before.len());
        assert(zip_members_for(before)[0] == all[i as int]);
        let input = rest.remove(0);
        assert(rest@ =~= before.subrange(1, before.len() as int));
        assert(zip_members_for(rest@) =~= zip_members_for(before).subrange(1, before.len() as int));
        let ZipInput { base, rel, data } = input;
        let mut name = base;
        match rel {
            Some(r) => {
                push_char(&mut name, '/');
                name.append(r.as_str());
            },
            None => {},
        }
        assert(name@ == all[i as int].0);
        let ghost old_files = file_views(files@);
        files.push((name, data));
        assert(file_views(files@) =~= old_files.push(all[i as int]));
        assert(all.subrange(0, i + 1) =~= all.subrange(0, i as int).push(all[i as int]));
        i = i + 1;
    }
    assert(all.subrange(0, n as int) =~= all);
    zip_encode(&files)
}

/// The full source and destination paths of renaming `old_name` to `new_name`
/// inside `dir`.
pub fn rename_paths(dir: &str, old_name: &str, new_name: &str) -> (r: (String, String))
    ensures
        r.0@ == join_paths(dir@, old_name@),
        r.1@ == join_paths(dir@, new_name@),
{
    (join(dir, old_name), join(dir, new_name))
}

/// A valid file name is non-empty and holds neither `/` nor NUL.
pub open spec fn is_valid_name(name: Seq<char>) -> bool {
    name.len() > 0 && !name.contains('/') && !name.contains('\0')
}

/// Validates that a filename is non-empty and holds no path separator or NUL.
pub fn valid_name(name: &str) -> (r: bool)
    ensures
        r == is_valid_name(name@),
{
    let cs = chars_of(name);
    if cs.len() == 0 {
        return false;
    }
    let mut i: usize = 0;
    while i < cs.len()
        invariant
            i <= cs.len(),
            cs@ == name@,
            forall|j: int| 0 <= j < i ==> cs@[j] != '/' && cs@[j] != '\0',
        decreases cs.len() - i,
    {
        if cs[i] == '/' || cs[i] == '\0' {
            assert(name@[i as int] == cs[i as int]);
            return false;
        }
        i = i + 1;
    }
    true
}

/// `std::io::Error`, carried through unopened.
#[verifier::external_type_specification]
#[verifier::external_body]
pub struct ExIoError(std::io::Error);

/// The display text of an I/O error (its `Display`). Nothing is stated of the
/// text: for operating-system errors it comes from the system.
#[verifier::external_body]
pub(crate) fn io_error_text(e: &std::io::Error) -> String {
    format!("{}", e)
}

/// The status line of an error with text `text`: `Error: ` and the text.
pub fn error_line(text: &str) -> (r: String)
    ensures
        r@ == "Error: "@ + text@,
{
    let mut r = "Error: ".to_owned();
    r.append(text);
    r
}

/// Formats an error for the status line: `Error: ` followed by the error's
/// text (its `Display`, as `io_error_text` gives it).
pub fn format_err(e: std::io::Error) -> (r: String)
    ensures
        exists|t: Seq<char>| r@ == "Error: "@ + t,
{
    let t = io_error_text(&e);
    error_line(t.as_str())
}

/// The regular expression of a `{:0N}` placeholder: `{:0`, one or more
/// decimal digits (captured), `}`.
pub const ZERO_PAD_PATTERN: &'static str = "\\{:0(\\d+)\\}";

/// What the `regex` crate's first match of the expression `re` in `text` gives:
/// the text before the match, the text of capture group 1, the text after the
/// match; none when `re` does not compile, does not match, or has no group 1.
pub uninterp spec fn regex_captures_of(re: Seq<char>, text: Seq<char>) -> Option<(Seq<char>, Seq<char>, Seq<char>)>;

/// `text` has, at index `k`, `{:0`, one or more ASCII digits and `}`.
pub open spec fn ascii_placeholder_at(text: Seq<char>, k: int) -> bool {
    exists|j: int|
        #![trigger text[j]]
        k + 3 < j < text.len() && text.subrange(k, k + 3) == "{:0"@ && text[j] == '}' && forall|m: int|
            k + 3 <= m < j ==> is_ascii_digit(#[trigger] text[m])
}

/// The first `{:0N}` placeholder of a batch-rename pattern, as the regular
/// expression `ZERO_PAD_PATTERN` finds it: the text before the match, the
/// captured digits, the text after the match.
pub open spec fn zero_pad_placeholder(pattern: Seq<char>) -> Option<(Seq<char>, Seq<char>, Seq<char>)> {
    regex_captures_of(ZERO_PAD_PATTERN@, pattern)
}

/// What is known of the first `{:0N}` placeholder of a pattern: it is `{:0`,
/// non-empty digits without `}` and `}`, with no placeholder written with ASCII
/// digits before it; without one, the pattern has no placeholder written with
/// ASCII digits.
pub open spec fn placeholder_facts(pattern: Seq<char>) -> bool {
    match zero_pad_placeholder(pattern) {
        Some((b, d, a)) => {
            &&& pattern == b + "{:0"@ + d + "}"@ + a
            &&& d.len() > 0
            &&& !d.contains('}')
            &&& forall|k: int| 0 <= k < b.len() ==> !ascii_placeholder_at(pattern, k)
        },
        None => forall|k: int| 0 <= k < pattern.len() ==> !ascii_placeholder_at(pattern, k),
    }
}

/// `regex::Regex::new` of `re`, then `Regex::captures` on `text` (the leftmost
/// match): the text before the match, group 1 and the text after it. Claimed:
/// the result is `regex_captures_of` of the arguments; and for
/// `ZERO_PAD_PATTERN`, whose match is `{:0`, the (non-empty) digits and `}`: a
/// match is where the text has its first such placeholder written with ASCII
/// digits or earlier (ASCII digits are decimal digits), the digits hold no `}`,
/// and there is no match when the text has no such placeholder.
#[verifier::external_body]
fn regex_captures(re: &str, text: &str) -> (r: Option<(String, String, String)>)
    ensures
        match r {
            Some((b, d, a)) => regex_captures_of(re@, text@) == Some((b@, d@, a@)),
            None => regex_captures_of(re@, text@) is None,
        },
        re@ == ZERO_PAD_PATTERN@ ==> match r {
            Some((b, d, a)) => {
                &&& text@ == b@ + "{:0"@ + d@ + "}"@ + a@
                &&& d@.len() > 0
                &&& !d@.contains('}')
                &&& forall|k: int| 0 <= k < b@.len() ==> !ascii_placeholder_at(text@, k)
            },
            None => forall|k: int| 0 <= k < text@.len() ==> !ascii_placeholder_at(text@, k),
        },
{
    let compiled = regex::Regex::new(re).ok()?;
    let caps = compiled.captures(text)?;
    let whole = caps.get(0)?;
    let group = caps.get(1)?;
    Some((text[..whole.start()].to_string(), group.as_str().to_string(), text[whole.end()..].to_string()))
}

/// `s` with every `{}` replaced by `with`, scanning from the left.
pub open spec fn replace_braces(s: Seq<char>, with: Seq<char>) -> Seq<char>
    decreases s.len(),
{
    if s.len() < 2 {
        s
    } else if s[0] == '{' && s[1] == '}' {
        with + replace_braces(s.subrange(2, s.len() as int), with)
    } else {
        seq![s[0]] + replace_braces(s.drop_first(), with)
    }
}

/// `s` holds `{}`.
pub open spec fn has_braces(s: Seq<char>) -> bool {
    exists|i: int| 0 <= i < s.len() - 1 && s[i] == '{' && #[trigger] s[i + 1] == '}'
}

fn has_braces_exec(s: &Vec<char>) -> (r: bool)
    ensures
        r == has_braces(s@),
{
    let mut i: usize = 0;
    while i < s.len() && i + 1 < s.len()
        invariant
            i <= s.len(),
            forall|j: int| 0 <= j < i && j < s@.len() - 1 ==> !(s@[j] == '{' && #[trigger] s@[j + 1] == '}'),
        decreases s.len() - i,
    {
        if s[i] == '{' && s[i + 1] == '}' {
            assert(s@[i as int] == '{' && s@[i + 1] == '}');
            return true;
        }
        i = i + 1;
    }
    false
}

fn replace_braces_exec(s: &Vec<char>, with: &str) -> (r: String)
    ensures
        r@ == replace_braces(s@, with@),
{
    let mut out = String::new();
    let mut i: usize = 0;
    let n = s.len();
    assert(s@.subrange(0, n as int) =~= s@);
    assert(out@ + replace_braces(s@, with@) =~= replace_braces(s@, with@));
    while i < n
        invariant
            i <= n,
            n == s@.len(),
            out@ + replace_braces(s@.subrange(i as int, n as int), with@) == replace_braces(s@, with@),
        decreases n - i,
    {
        let ghost rest = s@.subrange(i as int, n as int);
        if i + 1 < n && s[i] == '{' && s[i + 1] == '}' {
            assert(rest.subrange(2, rest.len() as int) =~= s@.subrange(i + 2, n as int));
            let ghost before = out@;
            out.append(with);
            assert(out@ + replace_braces(s@.subrange(i + 2, n as int), with@) =~= before
                + replace_braces(rest, with@));
            i = i + 2;
        } else {
            if i + 1 < n {
                assert(rest.drop_first() =~= s@.subrange(i + 1, n as int));
            } else {
                assert(rest =~= seq![s@[i as int]]);
                assert(s@.subrange(i + 1, n as int) =~= Seq::<char>::empty());
            }
            let ghost before = out@;
            push_char(&mut out, s[i]);
            assert(out@ + replace_braces(s@.subrange(i + 1, n as int), with@) =~= before
                + replace_braces(rest, with@));
            i = i + 1;
        }
    }
    assert(s@.subrange(n as int, n as int) =~= Seq::<char>::empty());
    assert(out@ + Seq::<char>::empty() =~= out@);
    out
}

/// The zero-padding width a `{:0N}` placeholder asks for: `N` when it parses as
/// a `usize`, 3 otherwise.
pub open spec fn pad_width(digits: Seq<char>) -> nat {
    match parse_usize_of(digits) {
        Some(w) => w as nat,
        None => 3,
    }
}

/// Where the number goes in a pattern without placeholder: the index of the
/// `.` that starts its extension (its last `.`, when that is not its first
/// character, does not follow a `/`, and no `/` follows it), or -1 when it has
/// none.
pub open spec fn extension_dot(pattern: Seq<char>) -> int {
    let k = last_index_of(pattern, '.');
    if k > 0 && pattern[k - 1] != '/' && last_index_of(pattern, '/') < k {
        k
    } else {
        -1
    }
}

/// The name of number `i` for a pattern without placeholder: `_i` goes before
/// the extension, or at the end when there is none.
pub open spec fn numbered_name(pattern: Seq<char>, i: nat) -> Seq<char> {
    let k = extension_dot(pattern);
    if k > 0 {
        pattern.subrange(0, k) + seq!['_'] + decimal(i) + pattern.subrange(k, pattern.len() as int)
    } else {
        pattern + seq!['_'] + decimal(i)
    }
}

/// The `i`-th name a batch-rename pattern generates, given the pattern's first
/// `{:0N}` placeholder as (text before, digits, text after): the placeholder is
/// replaced by `i` zero-padded to `N` digits; without one, every `{}` is
/// replaced by `i`; without either, `_i` goes before the extension.
pub open spec fn sequential_name_with(
    pattern: Seq<char>,
    placeholder: Option<(Seq<char>, Seq<char>, Seq<char>)>,
    i: nat,
) -> Seq<char> {
    match placeholder {
        Some((before, digits, after)) => before + zero_pad(decimal(i), pad_width(digits)) + after,
        None => if has_braces(pattern) {
            replace_braces(pattern, decimal(i))
        } else {
            numbered_name(pattern, i)
        },
    }
}

/// The `i`-th name a batch-rename pattern generates.
pub open spec fn sequential_name(pattern: Seq<char>, i: nat) -> Seq<char> {
    sequential_name_with(pattern, zero_pad_placeholder(pattern), i)
}

/// The views of an optional placeholder.
pub open spec fn placeholder_view(p: Option<(String, String, String)>) -> Option<(Seq<char>, Seq<char>, Seq<char>)> {
    match p {
        Some((b, d, a)) => Some((b@, d@, a@)),
        None => None,
    }
}

/// The name of number `number` for a pattern without placeholder.
fn numbered_name_exec(pcs: &Vec<char>, number: u128) -> (r: String)
    ensures
        r@ == numbered_name(pcs@, number as nat),
{
    let dot = find_last(pcs, '.');
    let slash = find_last(pcs, '/');
    let k: usize = match dot {
        Some(k) => {
            let after_slash = match slash {
                Some(s) => s < k,
                None => true,
            };
            if k > 0 && pcs[k - 1] != '/' && after_slash {
                k
            } else {
                0
            }
        },
        None => 0,
    };
    assert(k > 0 ==> extension_dot(pcs@) == k);
    assert(k == 0 ==> extension_dot(pcs@) == -1);
    let mut n = String::new();
    if k > 0 {
        n = string_of(&subrange_chars(pcs, 0, k));
        push_char(&mut n, '_');
        push_radix(&mut n, number, 10);
        n.append(string_of(&subrange_chars(pcs, k, pcs.len())).as_str());
    } else {
        n = string_of(pcs);
        push_char(&mut n, '_');
        push_radix(&mut n, number, 10);
    }
    n
}

/// Generates `count` sequential file names from a pattern and its first
/// `{:0N}` placeholder (text before, digits, text after), if it has one.
pub fn sequential_names_with(pattern: &str, placeholder: Option<(String, String, String)>, count: usize) -> (names: Vec<String>)
    ensures
        names@.len() == count,
        forall|k: int|
            0 <= k < count ==> (#[trigger] names@[k])@ == sequential_name_with(
                pattern@,
                placeholder_view(placeholder),
                (k + 1) as nat,
            ),
{
    let pcs = chars_of(pattern);
    let has_brace = has_braces_exec(&pcs);
    let width: usize = match &placeholder {
        Some((_, d, _)) => {
            let dcs = chars_of(d.as_str());
            match parse_usize(&dcs) {
                Some(w) => w,
                None => 3,
            }
        },
        None => 0,
    };
    let ghost ph = placeholder_view(placeholder);
    let mut names: Vec<String> = Vec::new();
    let mut i: usize = 0;
    while i < count
        invariant
            i <= count,
            names@.len() == i,
            pcs@ == pattern@,
            has_brace == has_braces(pattern@),
            ph == placeholder_view(placeholder),
            match placeholder {
                Some((b, d, a)) => width == pad_width(d@),
                None => true,
            },
            forall|k: int| 0 <= k < i ==> (#[trigger] names@[k])@ == sequential_name_with(pattern@, ph, (k + 1) as nat),
        decreases count - i,
    {
        let number: u128 = (i as u128) + 1;
        let name = match &placeholder {
            Some((b, _, a)) => {
                let mut n = b.clone();
                let num = radix_padded(number, 10, width);
                n.append(num.as_str());
                n.append(a.as_str());
                n
            },
            None => if has_brace {
                let num = radix_padded(number, 10, 0);
                replace_braces_exec(&pcs, num.as_str())
            } else {
                numbered_name_exec(&pcs, number)
            },
        };
        proof {
            assert(zero_pad(radix_digits(number as nat, 10), 0) == radix_digits(number as nat, 10));
        }
        assert(name@ =~= sequential_name_with(pattern@, ph, (i + 1) as nat));
        names.push(name);
        i = i + 1;
    }
    names
}

/// Generates `count` sequential file names from a pattern:
/// `vacation_{:03}.jpg` gives `vacation_001.jpg`, `vacation_002.jpg`, …;
/// `img_{}.png` gives `img_1.png`, …; `backup` gives `backup_1`, `backup_2`, …;
/// `photo.jpg` gives `photo_1.jpg`, `photo_2.jpg`, ….
pub fn generate_sequential_names(pattern: &str, count: usize) -> (names: Vec<String>)
    ensures
        names@.len() == count,
        placeholder_facts(pattern@),
        forall|k: int| 0 <= k < count ==> (#[trigger] names@[k])@ == sequential_name(pattern@, (k + 1) as nat),
{
    let placeholder = regex_captures(ZERO_PAD_PATTERN, pattern);
    assert(placeholder_view(placeholder) == zero_pad_placeholder(pattern@));
    sequential_names_with(pattern, placeholder, count)
}

/// Two lower-case hex digits of a byte (`{:02x}`).
pub open spec fn hex_byte(b: u8) -> Seq<char> {
    zero_pad(radix_digits(b as nat, 16), 2)
}

/// How a byte shows in the text column: printable ASCII (space to `~`) as
/// itself, anything else as `.`.
pub open spec fn shown_char(b: u8) -> char {
    if 0x20 <= b <= 0x7E {
        b as char
    } else {
        '.'
    }
}

/// The hex column of a row: each byte's two digits and a space.
pub open spec fn hex_cells(chunk: Seq<u8>) -> Seq<char>
    decreases chunk.len(),
{
    if chunk.len() == 0 {
        Seq::empty()
    } else {
        hex_cells(chunk.drop_last()) + hex_byte(chunk.last()) + seq![' ']
    }
}

/// One row of a hex dump for the bytes at `start`: the offset in eight hex
/// digits, the hex column padded to sixteen cells, and the text between bars.
pub open spec fn hex_row(data: Seq<u8>, start: int) -> Seq<char> {
    let end = if start + 16 <= data.len() {
        start + 16
    } else {
        data.len() as int
    };
    let chunk = data.subrange(start, end);
    zero_pad(radix_digits(start as nat, 16), 8) + seq![' ', ' '] + hex_cells(chunk) + Seq::new(
        (3 * (16 - chunk.len())) as nat,
        |i: int| ' ',
    ) + seq![' ', '|'] + chunk.map_values(|b: u8| shown_char(b)) + seq!['|', '\n']
}

/// The first `k` rows of a hex dump.
pub open spec fn hex_rows(data: Seq<u8>, k: nat) -> Seq<char>
    decreases k,
{
    if k == 0 {
        Seq::empty()
    } else {
        hex_rows(data, (k - 1) as nat) + hex_row(data, 16 * (k - 1))
    }
}

/// A hex dump of bytes read from `path`: the heading
/// `Hex dump: <path> (<n> bytes)` and a blank line, then one row per sixteen bytes.
pub open spec fn hex_dump_text(path: Seq<char>, data: Seq<u8>) -> Seq<char> {
    "Hex dump: "@ + path + " ("@ + decimal(data.len()) + " bytes)\n\n"@ + hex_rows(
        data,
        ((data.len() + 15) / 16) as nat,
    )
}

fn push_hex_cells(s: &mut String, data: &Vec<u8>, start: usize, end: usize)
    requires
        start <= end <= data@.len(),
    ensures
        final(s)@ == old(s)@ + hex_cells(data@.subrange(start as int, end as int)),
{
    let ghost base = s@;
    let mut j: usize = start;
    assert(data@.subrange(start as int, start as int) =~= Seq::<u8>::empty());
    while j < end
        invariant
            start <= j <= end,
            end <= data@.len(),
            s@ == base + hex_cells(data@.subrange(start as int, j as int)),
        decreases end - j,
    {
        let h = radix_padded(data[j] as u128, 16, 2);
        let ghost before = s@;
        s.append(h.as_str());
        push_char(s, ' ');
        assert(data@.subrange(start as int, j + 1).drop_last() =~= data@.subrange(start as int, j as int));
        assert(s@ =~= before + hex_byte(data@[j as int]) + seq![' ']);
        j = j + 1;
    }
}

fn shown_char_exec(b: u8) -> (c: char)
    ensures
        c == shown_char(b),
{
    if 0x20 <= b && b <= 0x7E {
        b as char
    } else {
        '.'
    }
}

/// One row of a hex dump.
fn hex_row_exec(data: &Vec<u8>, start: usize) -> (r: String)
    requires
        start < data@.len(),
    ensures
        r@ == hex_row(data@, start as int),
{
    let n = data.len();
    let end = if n - start >= 16 {
        start + 16
    } else {
        n
    };
    let ghost chunk = data@.subrange(start as int, end as int);
    let off = radix_padded(start as u128, 16, 8);
    let mut out = String::new();
    out.append(off.as_str());
    push_char(&mut out, ' ');
    push_char(&mut out, ' ');
    let ghost part1 = out@;
    assert(part1 =~= zero_pad(radix_digits(start as nat, 16), 8) + seq![' ', ' ']);
    push_hex_cells(&mut out, data, start, end);
    let ghost part2 = out@;
    let pad = 3 * (16 - (end - start));
    let mut p: usize = 0;
    while p < pad
        invariant
            p <= pad,
            out@ =~= part2 + Seq::new(p as nat, |i: int| ' '),
        decreases pad - p,
    {
        push_char(&mut out, ' ');
        p = p + 1;
    }
    let ghost part3 = out@;
    push_char(&mut out, ' ');
    push_char(&mut out, '|');
    let ghost before_text = out@;
    let mut j: usize = start;
    assert(data@.subrange(start as int, start as int).map_values(|b: u8| shown_char(b)) =~= Seq::<char>::empty());
    while j < end
        invariant
            start <= j <= end,
            end <= n,
            n == data@.len(),
            out@ =~= before_text + data@.subrange(start as int, j as int).map_values(|b: u8| shown_char(b)),
        decreases end - j,
    {
        push_char(&mut out, shown_char_exec(data[j]));
        j = j + 1;
        assert(data@.subrange(start as int, j as int).map_values(|b: u8| shown_char(b)) =~= data@.subrange(
            start as int,
            j - 1,
        ).map_values(|b: u8| shown_char(b)).push(shown_char(data@[j - 1])));
    }
    push_char(&mut out, '|');
    push_char(&mut out, '\n');
    assert(chunk.len() == end - start);
    assert(out@ =~= zero_pad(radix_digits(start as nat, 16), 8) + seq![' ', ' '] + hex_cells(chunk) + Seq::new(
        (3 * (16 - chunk.len())) as nat,
        |i: int| ' ',
    ) + seq![' ', '|'] + chunk.map_values(|b: u8| shown_char(b)) + seq!['|', '\n']);
    out
}

/// Formats a hex dump of `data`, read from the file shown as `path`.
pub fn format_hex_dump(path: &str, data: &Vec<u8>) -> (r: String)
    ensures
        r@ == hex_dump_text(path@, data@),
{
    let n = data.len();
    let mut out = "Hex dump: ".to_owned();
    out.append(path);
    out.append(" (");
    push_radix(&mut out, n as u128, 10);
    out.append(" bytes)\n\n");
    let ghost header = out@;
    let rows: usize = n / 16 + if n % 16 == 0 {
        0
    } else {
        1
    };
    assert(rows == (n + 15) / 16);
    let mut k: usize = 0;
    while k < rows
        invariant
            k <= rows,
            rows == (n + 15) / 16,
            n == data@.len(),
            out@ == header + hex_rows(data@, k as nat),
        decreases rows - k,
    {
        assert(16 * k < n) by (nonlinear_arith)
            requires
                k < rows,
                rows == (n + 15) / 16,
        ;
        let start = 16 * k;
        let row = hex_row_exec(data, start);
        let ghost before = out@;
        out.append(row.as_str());
        assert(out@ =~= header + hex_rows(data@, (k + 1) as nat));
        k = k + 1;
    }
    assert(out@ =~= hex_dump_text(path@, data@));
    out
}

/// Whether bytes read from the start of a file look like text: none is NUL.
pub fn is_text_data(data: &Vec<u8>) -> (r: bool)
    ensures
        r == !data@.contains(0u8),
{
    let mut i: usize = 0;
    while i < data.len()
        invariant
            i <= data.len(),
            forall|j: int| 0 <= j < i ==> data@[j] != 0u8,
        decreases data.len() - i,
    {
        if data[i] == 0 {
            assert(data@[i as int] == 0u8);
            return false;
        }
        i = i + 1;
    }
    true
}

/// A pattern whose first `{` starts a placeholder `{:0N}` written with ASCII
/// digits has that placeholder found: the text before it, its digits and the
/// text after it.
pub proof fn law_first_placeholder_found(pattern: Seq<char>, before: Seq<char>, digits: Seq<char>, after: Seq<char>)
    requires
        pattern == before + "{:0"@ + digits + "}"@ + after,
        !before.contains('{'),
        digits.len() > 0,
        forall|m: int| 0 <= m < digits.len() ==> is_ascii_digit(#[trigger] digits[m]),
        placeholder_facts(pattern),
    ensures
        zero_pad_placeholder(pattern) == Some((before, digits, after)),
{
    reveal_strlit("{:0");
    reveal_strlit("}");
    let k0 = before.len() as int;
    let j0 = k0 + 3 + digits.len();
    assert(pattern.subrange(k0, k0 + 3) =~= "{:0"@);
    assert(pattern[j0] == '}');
    assert forall|m: int| k0 + 3 <= m < j0 implies is_ascii_digit(#[trigger] pattern[m]) by {
        assert(pattern[m] == digits[m - k0 - 3]);
    }
    assert(ascii_placeholder_at(pattern, k0));
    match zero_pad_placeholder(pattern) {
        Some((b, d, a)) => {
            assert(b.len() <= k0);
            assert(pattern[b.len() as int] == '{');
            if b.len() < k0 {
                assert(pattern[b.len() as int] == before[b.len() as int]);
                assert(before.contains('{'));
            }
            assert(b =~= before) by {
                assert forall|i: int| 0 <= i < b.len() implies b[i] == before[i] by {
                    assert(pattern[i] == b[i]);
                    assert(pattern[i] == before[i]);
                }
            }
            let s = k0 + 3;
            if d.len() < digits.len() {
                assert(pattern[s + d.len()] == '}');
                assert(pattern[s + d.len()] == digits[d.len() as int]);
            } else if d.len() > digits.len() {
                assert(pattern[s + digits.len()] == '}');
                assert(pattern[s + digits.len()] == d[digits.len() as int]);
                assert(d.contains('}'));
            }
            assert(d =~= digits) by {
                assert forall|i: int| 0 <= i < d.len() implies d[i] == digits[i] by {
                    assert(pattern[s + i] == d[i]);
                    assert(pattern[s + i] == digits[i]);
                }
            }
            assert(a =~= after) by {
                assert forall|i: int| 0 <= i < a.len() implies a[i] == after[i] by {
                    assert(pattern[j0 + 1 + i] == a[i]);
                    assert(pattern[j0 + 1 + i] == after[i]);
                }
            }
        },
        None => {
            assert(!ascii_placeholder_at(pattern, k0));
        },
    }
}

} // verus!

