//! Archives: recognising them by name, and the top-level listing of their members.
use vstd::prelude::*;
use crate::{DirEntry, EntryKind};
use crate::pathname::{extension_chars, extension_of, file_stem_chars, file_stem_of, join, join_paths};
use crate::sorting::{
    arranged, comes_before, is_stable_order, key_views, lemma_lex_asymmetric, lemma_lex_irreflexive, lemma_stable_order_covers,
    lex_less, stable_sort_by_keys,
};
use crate::text::{
    ascii_lower_seq, ascii_lower_vec, chars_of, code_points, contains_chars, copy_chars, eq_chars,
    lowercase_key, lowercase_of, lemma_push_contains, push_char, split_chars, split_on, string_of, views,
};

verus! {

/// The kinds of archive the browser can open.
#[derive(Debug, Clone, Copy, PartialEq, Eq, Structural)]
pub enum ArchiveType {
    Zip,
    Tar,
    TarGz,
}

/// The archive type a path names by its extension, compared without regard to
/// case: `zip`, `tar`, `tgz`, or `gz` after a stem ending in `.tar`.
pub open spec fn archive_type_of(path: Seq<char>) -> Option<ArchiveType> {
    match extension_of(path) {
        None => None,
        Some(e) => {
            let l = ascii_lower_seq(e);
            if l == seq!['z', 'i', 'p'] {
                Some(ArchiveType::Zip)
            } else if l == seq!['t', 'a', 'r'] {
                Some(ArchiveType::Tar)
            } else if l == seq!['g', 'z'] {
                match file_stem_of(path) {
                    Some(stem) => if stem.len() >= 4 && stem.subrange(stem.len() - 4, stem.len() as int)
                        == seq!['.', 't', 'a', 'r'] {
                        Some(ArchiveType::TarGz)
                    } else {
                        None
                    },
                    None => None,
                }
            } else if l == seq!['t', 'g', 'z'] {
                Some(ArchiveType::TarGz)
            } else {
                None
            }
        },
    }
}

fn ends_with_dot_tar(s: &Vec<char>) -> (r: bool)
    ensures
        r == (s@.len() >= 4 && s@.subrange(s@.len() - 4, s@.len() as int) == seq!['.', 't', 'a', 'r']),
{
    let n = s.len();
    if n < 4 {
        return false;
    }
    let r = s[n - 4] == '.' && s[n - 3] == 't' && s[n - 2] == 'a' && s[n - 1] == 'r';
    if r {
        assert(s@.subrange(n - 4, n as int) =~= seq!['.', 't', 'a', 'r']);
    } else {
        let ghost t = s@.subrange(n - 4, n as int);
        assert(t[0] == s@[n - 4] && t[1] == s@[n - 3] && t[2] == s@[n - 2] && t[3] == s@[n - 1]);
    }
    r
}

/// Recognises an archive by the extension of its path.
pub fn detect_archive(path: &str) -> (r: Option<ArchiveType>)
    ensures
        r == archive_type_of(path@),
{
    let e = match extension_chars(path) {
        Some(e) => e,
        None => return None,
    };
    let l = ascii_lower_vec(&e);
    if eq_chars(&l, &vec!['z', 'i', 'p']) {
        return Some(ArchiveType::Zip);
    }
    if eq_chars(&l, &vec!['t', 'a', 'r']) {
        return Some(ArchiveType::Tar);
    }
    if eq_chars(&l, &vec!['g', 'z']) {
        return match file_stem_chars(path) {
            Some(stem) => if ends_with_dot_tar(&stem) {
                Some(ArchiveType::TarGz)
            } else {
                None
            },
            None => None,
        };
    }
    if eq_chars(&l, &vec!['t', 'g', 'z']) {
        return Some(ArchiveType::TarGz);
    }
    None
}

/// A friendly display name for an archive type.
pub fn archive_type_name(archive_type: &ArchiveType) -> (r: &'static str)
    ensures
        r@ == match archive_type {
            ArchiveType::Zip => "ZIP"@,
            ArchiveType::Tar => "TAR"@,
            ArchiveType::TarGz => "TAR.GZ"@,
        },
{
    match archive_type {
        ArchiveType::Zip => "ZIP",
        ArchiveType::Tar => "TAR",
        ArchiveType::TarGz => "TAR.GZ",
    }
}

/// A virtual filesystem entry inside an archive.
#[derive(Debug, Clone)]
pub struct ArchiveEntry {
    pub name: String,
    pub path: String,
    pub kind: EntryKind,
    pub size: u64,
    pub is_dir: bool,
}

/// An archive entry as values.
pub struct ArchiveEntryView {
    pub name: Seq<char>,
    pub path: Seq<char>,
    pub kind: EntryKind,
    pub size: u64,
    pub is_dir: bool,
}

impl View for ArchiveEntry {
    type V = ArchiveEntryView;

    open spec fn view(&self) -> ArchiveEntryView {
        ArchiveEntryView {
            name: self.name@,
            path: self.path@,
            kind: self.kind,
            size: self.size,
            is_dir: self.is_dir,
        }
    }
}

/// One member of an archive as its reader reports it: its full name inside the
/// archive, whether it is a directory, and its size.
#[derive(Debug, Clone)]
pub struct ArchiveMember {
    pub name: String,
    pub is_dir: bool,
    pub size: u64,
}

/// A member as plain values: its full name, whether it is a directory, its size.
pub type MemberView = (Seq<char>, bool, u64);

/// The plain values of a member.
pub open spec fn member_view(m: ArchiveMember) -> MemberView {
    (m.name@, m.is_dir, m.size)
}

/// The plain values of each member.
pub open spec fn member_views(ms: Seq<ArchiveMember>) -> Seq<MemberView> {
    ms.map_values(|m: ArchiveMember| member_view(m))
}

/// The non-empty `/`-separated pieces of a member name.
pub open spec fn name_pieces(name: Seq<char>) -> Seq<Seq<char>> {
    split_on(name, '/').filter(|p: Seq<char>| p.len() > 0)
}

/// A member lies below a top-level directory (or is one).
pub open spec fn is_dir_like(m: MemberView) -> bool {
    name_pieces(m.0).len() > 1 || m.1
}

/// The top-level directory names met so far among `ms`.
pub open spec fn seen_dirs(ms: Seq<MemberView>) -> Set<Seq<char>>
    decreases ms.len(),
{
    if ms.len() == 0 {
        Set::empty()
    } else {
        let m = ms.last();
        if name_pieces(m.0).len() > 0 && is_dir_like(m) {
            seen_dirs(ms.drop_last()).insert(name_pieces(m.0)[0])
        } else {
            seen_dirs(ms.drop_last())
        }
    }
}

/// The top-level entry a member stands for.
pub open spec fn top_entry(m: MemberView) -> ArchiveEntryView {
    let top = name_pieces(m.0)[0];
    if is_dir_like(m) {
        ArchiveEntryView { name: top, path: top.push('/'), kind: EntryKind::Dir, size: 0, is_dir: true }
    } else {
        ArchiveEntryView { name: top, path: top, kind: EntryKind::File, size: m.2, is_dir: false }
    }
}

/// The top-level entries of an archive in member order: members with an empty
/// name are skipped, and so is any member whose top-level name is already a
/// directory met earlier.
pub open spec fn top_level(ms: Seq<MemberView>) -> Seq<ArchiveEntryView>
    decreases ms.len(),
{
    if ms.len() == 0 {
        Seq::empty()
    } else {
        let prev = top_level(ms.drop_last());
        let m = ms.last();
        if name_pieces(m.0).len() == 0 || seen_dirs(ms.drop_last()).contains(name_pieces(m.0)[0]) {
            prev
        } else {
            prev.push(top_entry(m))
        }
    }
}

/// The sort key of a top-level entry: the code points of its lower-cased name.
pub open spec fn entry_key(e: ArchiveEntryView) -> Seq<u64> {
    code_points(lowercase_of(e.name))
}

/// The sort keys of the top-level entries of `ms`.
pub open spec fn top_level_keys(ms: Seq<MemberView>) -> Seq<Seq<u64>> {
    top_level(ms).map_values(|e: ArchiveEntryView| entry_key(e))
}

/// The top-level listing of an archive whose members are `ms`, as
/// `top_level_entries` gives it: `top_level(ms)` rearranged by the stable
/// order of its sort keys.
pub open spec fn is_listing_of(r: Seq<ArchiveEntryView>, ms: Seq<MemberView>) -> bool {
    exists|order: Seq<int>| is_stable_order(top_level_keys(ms), order) && r == arranged(top_level(ms), order)
}

/// The non-empty pieces of a name.
fn name_pieces_exec(name: &str) -> (r: Vec<Vec<char>>)
    ensures
        views(r@) == name_pieces(name@),
{
    let cs = chars_of(name);
    let parts = split_chars(&cs, '/');
    let ghost all = views(parts@);
    let mut r: Vec<Vec<char>> = Vec::new();
    let mut i: usize = 0;
    assert(all.subrange(0, 0).filter(|p: Seq<char>| p.len() > 0) =~= Seq::<Seq<char>>::empty()) by {
        reveal(Seq::filter);
    }
    while i < parts.len()
        invariant
            i <= parts.len(),
            all == views(parts@),
            views(r@) == all.subrange(0, i as int).filter(|p: Seq<char>| p.len() > 0),
        decreases parts.len() - i,
    {
        proof {
            reveal(Seq::filter);
            assert(all.subrange(0, i + 1).drop_last() =~= all.subrange(0, i as int));
            assert(all.subrange(0, i + 1).last() == all[i as int]);
        }
        let ghost before = views(r@);
        if parts[i].len() > 0 {
            r.push(copy_chars(&parts[i]));
            assert(views(r@) =~= before.push(all[i as int]));
        }
        i = i + 1;
    }
    assert(all.subrange(0, parts.len() as int) =~= all);
    r
}

/// The top-level entries of an archive in member order (before sorting).
fn collect_top_level(members: &Vec<ArchiveMember>) -> (r: Vec<ArchiveEntry>)
    ensures
        r@.map_values(|e: ArchiveEntry| e@) == top_level(member_views(members@)),
{
    let ghost mv = member_views(members@);
    let mut out: Vec<ArchiveEntry> = Vec::new();
    let mut seen: Vec<Vec<char>> = Vec::new();
    let mut i: usize = 0;
    while i < members.len()
        invariant
            i <= members.len(),
            mv == member_views(members@),
            out@.map_values(|e: ArchiveEntry| e@) =~= top_level(mv.subrange(0, i as int)),
            forall|t: Seq<char>| views(seen@).contains(t) == seen_dirs(mv.subrange(0, i as int)).contains(t),
        decreases members.len() - i,
    {
        let m = &members[i];
        let ghost prefix = mv.subrange(0, i as int);
        let ghost next = mv.subrange(0, i + 1);
        assert(next.drop_last() =~= prefix);
        assert(next.last() == member_view(*m));
        let pieces = name_pieces_exec(m.name.as_str());
        if pieces.len() > 0 {
            let top = copy_chars(&pieces[0]);
            let dir_like = pieces.len() > 1 || m.is_dir;
            let already = contains_chars(&seen, &top);
            assert(already == seen_dirs(prefix).contains(top@));
            let ghost old_out = out@.map_values(|e: ArchiveEntry| e@);
            let ghost old_seen = views(seen@);
            if !already {
                let name = string_of(&top);
                if dir_like {
                    let mut path = string_of(&top);
                    push_char(&mut path, '/');
                    out.push(ArchiveEntry { name, path, kind: EntryKind::Dir, size: 0, is_dir: true });
                } else {
                    let path = string_of(&top);
                    out.push(ArchiveEntry { name, path, kind: EntryKind::File, size: m.size, is_dir: false });
                }
                assert(out@.map_values(|e: ArchiveEntry| e@) =~= old_out.push(top_entry(member_view(*m))));
            }
            if dir_like {
                seen.push(top);
                assert(views(seen@) =~= old_seen.push(pieces@[0]@));
                assert forall|t: Seq<char>| views(seen@).contains(t) == seen_dirs(next).contains(t) by {
                    lemma_push_contains(old_seen, pieces@[0]@, t);
                }
            }
        }
        i = i + 1;
    }
    assert(mv.subrange(0, members.len() as int) =~= mv);
    out
}

proof fn lemma_top_level_dirs_seen(ms: Seq<MemberView>)
    ensures
        forall|k: int|
            0 <= k < top_level(ms).len() && (#[trigger] top_level(ms)[k]).is_dir ==> seen_dirs(ms).contains(
                top_level(ms)[k].name,
            ),
        forall|i: int, j: int|
            0 <= i < j < top_level(ms).len() && (#[trigger] top_level(ms)[i]).is_dir ==> (#[trigger] top_level(
                ms,
            )[j]).name != top_level(ms)[i].name,
    decreases ms.len(),
{
    if ms.len() > 0 {
        let prev = ms.drop_last();
        let m = ms.last();
        lemma_top_level_dirs_seen(prev);
        let tp = top_level(prev);
        let tl = top_level(ms);
        assert forall|t: Seq<char>| seen_dirs(prev).contains(t) implies seen_dirs(ms).contains(t) by {}
        if !(name_pieces(m.0).len() == 0 || seen_dirs(prev).contains(name_pieces(m.0)[0])) {
            assert(tl == tp.push(top_entry(m)));
            assert forall|k: int| 0 <= k < tl.len() && (#[trigger] tl[k]).is_dir implies seen_dirs(ms).contains(
                tl[k].name,
            ) by {
                if k < tp.len() {
                    assert(tl[k] == tp[k]);
                }
            }
            assert forall|i: int, j: int| 0 <= i < j < tl.len() && (#[trigger] tl[i]).is_dir implies (#[trigger] tl[j]).name
                != tl[i].name by {
                assert(tl[i] == tp[i]);
                if j < tp.len() {
                    assert(tl[j] == tp[j]);
                } else {
                    assert(seen_dirs(prev).contains(tp[i].name));
                }
            }
        }
    }
}

/// Among the top-level entries of an archive, nothing after a directory has the
/// directory's name: each top-level directory is listed once, where it first
/// appears.
pub proof fn law_top_level_dirs_once(ms: Seq<MemberView>)
    ensures
        forall|i: int, j: int|
            0 <= i < j < top_level(ms).len() && (#[trigger] top_level(ms)[i]).is_dir ==> (#[trigger] top_level(
                ms,
            )[j]).name != top_level(ms)[i].name,
{
    lemma_top_level_dirs_seen(ms);
}

proof fn lemma_top_level_from_members(ms: Seq<MemberView>)
    ensures
        forall|k: int|
            0 <= k < top_level(ms).len() ==> exists|p: int|
                0 <= p < ms.len() && name_pieces(ms[p].0).len() > 0 && #[trigger] top_level(ms)[k] == top_entry(
                    ms[p],
                ),
    decreases ms.len(),
{
    if ms.len() > 0 {
        let prev = ms.drop_last();
        lemma_top_level_from_members(prev);
        let tp = top_level(prev);
        let tl = top_level(ms);
        assert forall|k: int| 0 <= k < tl.len() implies exists|p: int|
            0 <= p < ms.len() && name_pieces(ms[p].0).len() > 0 && #[trigger] tl[k] == top_entry(ms[p]) by {
            if k < tp.len() {
                assert(tl[k] == tp[k]);
                let p = choose|p: int| 0 <= p < prev.len() && name_pieces(prev[p].0).len() > 0 && tp[k] == top_entry(prev[p]);
                assert(ms[p] == prev[p]);
            } else {
                assert(ms[ms.len() - 1] == ms.last());
            }
        }
    }
}

proof fn lemma_members_listed(ms: Seq<MemberView>)
    ensures
        forall|p: int|
            0 <= p < ms.len() && name_pieces(#[trigger] ms[p].0).len() > 0 ==> exists|k: int|
                0 <= k < top_level(ms).len() && #[trigger] top_level(ms)[k].name == name_pieces(ms[p].0)[0],
        forall|t: Seq<char>|
            #[trigger] seen_dirs(ms).contains(t) ==> exists|k: int|
                0 <= k < top_level(ms).len() && #[trigger] top_level(ms)[k].name == t && top_level(ms)[k].is_dir,
    decreases ms.len(),
{
    if ms.len() > 0 {
        let prev = ms.drop_last();
        let m = ms.last();
        lemma_members_listed(prev);
        let tp = top_level(prev);
        let tl = top_level(ms);
        assert forall|k: int| 0 <= k < tp.len() implies tl[k] == tp[k] by {}
        assert forall|t: Seq<char>| #[trigger] seen_dirs(ms).contains(t) implies exists|k: int|
            0 <= k < tl.len() && #[trigger] tl[k].name == t && tl[k].is_dir by {
            if seen_dirs(prev).contains(t) {
                let k = choose|k: int| 0 <= k < tp.len() && #[trigger] tp[k].name == t && tp[k].is_dir;
                assert(tl[k] == tp[k]);
                assert(tl[k].name == t && tl[k].is_dir);
            } else {
                let k = tl.len() - 1;
                assert(tl[k] == top_entry(m));
                assert(tl[k].name == t && tl[k].is_dir);
            }
        }
        assert forall|p: int| 0 <= p < ms.len() && name_pieces(#[trigger] ms[p].0).len() > 0 implies exists|k: int|
            0 <= k < tl.len() && #[trigger] tl[k].name == name_pieces(ms[p].0)[0] by {
            if p < prev.len() {
                assert(ms[p] == prev[p]);
                let k = choose|k: int| 0 <= k < tp.len() && #[trigger] tp[k].name == name_pieces(prev[p].0)[0];
                assert(tl[k] == tp[k]);
                assert(tl[k].name == name_pieces(ms[p].0)[0]);
            } else {
                assert(ms[p] == m);
                if seen_dirs(prev).contains(name_pieces(m.0)[0]) {
                    let k = choose|k: int| 0 <= k < tp.len() && #[trigger] tp[k].name == name_pieces(m.0)[0] && tp[k].is_dir;
                    assert(tl[k] == tp[k]);
                    assert(tl[k].name == name_pieces(ms[p].0)[0]);
                } else {
                    let k = tl.len() - 1;
                    assert(tl[k] == top_entry(m));
                    assert(tl[k].name == name_pieces(ms[p].0)[0]);
                }
            }
        }
    }
}

/// `e` is the top-level entry of some member of `ms` with a non-empty name.
pub open spec fn stands_for_member(e: ArchiveEntryView, ms: Seq<MemberView>) -> bool {
    exists|p: int| 0 <= p < ms.len() && name_pieces(ms[p].0).len() > 0 && e == top_entry(ms[p])
}

/// The first piece of the name of `m` is the name of an entry of `r`.
pub open spec fn lists_top_of(r: Seq<ArchiveEntryView>, m: MemberView) -> bool {
    exists|k: int| 0 <= k < r.len() && r[k].name == name_pieces(m.0)[0]
}

proof fn lemma_listing_sorted(r: Seq<ArchiveEntryView>, ms: Seq<MemberView>, order: Seq<int>)
    requires
        is_stable_order(top_level_keys(ms), order),
        r == arranged(top_level(ms), order),
    ensures
        forall|i: int, j: int|
            0 <= i < j < r.len() ==> !lex_less(entry_key(#[trigger] r[j]), entry_key(#[trigger] r[i])),
{
    let keys = top_level_keys(ms);
    assert forall|i: int, j: int| 0 <= i < j < r.len() implies !lex_less(
        entry_key(#[trigger] r[j]),
        entry_key(#[trigger] r[i]),
    ) by {
        assert(comes_before(keys, order[i], order[j]));
        assert(keys[order[i]] == entry_key(r[i]));
        assert(keys[order[j]] == entry_key(r[j]));
        if lex_less(keys[order[i]], keys[order[j]]) {
            lemma_lex_asymmetric(keys[order[i]], keys[order[j]]);
        } else {
            lemma_lex_irreflexive(keys[order[i]]);
        }
    }
}

proof fn lemma_listing_from_members(r: Seq<ArchiveEntryView>, ms: Seq<MemberView>, order: Seq<int>)
    requires
        is_stable_order(top_level_keys(ms), order),
        r == arranged(top_level(ms), order),
    ensures
        forall|k: int| 0 <= k < r.len() ==> #[trigger] stands_for_member(r[k], ms),
{
    let tl = top_level(ms);
    lemma_top_level_from_members(ms);
    assert forall|k: int| 0 <= k < r.len() implies #[trigger] stands_for_member(r[k], ms) by {
        assert(r[k] == tl[order[k]]);
    }
}

proof fn lemma_listing_complete(r: Seq<ArchiveEntryView>, ms: Seq<MemberView>, order: Seq<int>)
    requires
        is_stable_order(top_level_keys(ms), order),
        r == arranged(top_level(ms), order),
    ensures
        forall|p: int| 0 <= p < ms.len() && name_pieces(ms[p].0).len() > 0 ==> #[trigger] lists_top_of(r, ms[p]),
{
    let tl = top_level(ms);
    lemma_members_listed(ms);
    lemma_stable_order_covers(top_level_keys(ms), order);
    assert forall|p: int| 0 <= p < ms.len() && name_pieces(ms[p].0).len() > 0 implies #[trigger] lists_top_of(
        r,
        ms[p],
    ) by {
        let q = choose|q: int| 0 <= q < tl.len() && #[trigger] tl[q].name == name_pieces(ms[p].0)[0];
        assert(order.contains(q));
        let k = choose|k: int| 0 <= k < order.len() && order[k] == q;
        assert(r[k] == tl[q]);
        assert(r[k].name == name_pieces(ms[p].0)[0]);
    }
}

proof fn lemma_listing_dirs_distinct(r: Seq<ArchiveEntryView>, ms: Seq<MemberView>, order: Seq<int>)
    requires
        is_stable_order(top_level_keys(ms), order),
        r == arranged(top_level(ms), order),
    ensures
        forall|i: int, j: int|
            0 <= i < r.len() && 0 <= j < r.len() && i != j && (#[trigger] r[i]).is_dir && (#[trigger] r[j]).is_dir
                ==> r[i].name != r[j].name,
{
    let tl = top_level(ms);
    lemma_stable_order_covers(top_level_keys(ms), order);
    law_top_level_dirs_once(ms);
    assert forall|i: int, j: int|
        0 <= i < r.len() && 0 <= j < r.len() && i != j && (#[trigger] r[i]).is_dir && (#[trigger] r[j]).is_dir
            implies r[i].name != r[j].name by {
        assert(r[i] == tl[order[i]]);
        assert(r[j] == tl[order[j]]);
        assert(order[i] != order[j]);
        if order[i] > order[j] {
            assert(tl[order[i]].name != tl[order[j]].name);
        } else {
            assert(tl[order[j]].name != tl[order[i]].name);
        }
    }
}

/// The top-level listing of an archive, as `top_level_entries`,
/// `list_zip_bytes` and `list_tar_bytes` give it: the entries are sorted by
/// lower-cased name; each is the top-level entry of some member with a
/// non-empty name (its first `/`-separated piece, a directory of size 0 with
/// path `name/` where that member is a directory or lies below one, else a file
/// with the member's size and path `name`); the first piece of every member's
/// name is listed; and no two directories share a name.
pub proof fn law_archive_listing(r: Seq<ArchiveEntryView>, ms: Seq<MemberView>)
    requires
        is_listing_of(r, ms),
    ensures
        forall|i: int, j: int|
            0 <= i < j < r.len() ==> !lex_less(entry_key(#[trigger] r[j]), entry_key(#[trigger] r[i])),
        forall|k: int| 0 <= k < r.len() ==> #[trigger] stands_for_member(r[k], ms),
        forall|p: int| 0 <= p < ms.len() && name_pieces(ms[p].0).len() > 0 ==> #[trigger] lists_top_of(r, ms[p]),
        forall|i: int, j: int|
            0 <= i < r.len() && 0 <= j < r.len() && i != j && (#[trigger] r[i]).is_dir && (#[trigger] r[j]).is_dir
                ==> r[i].name != r[j].name,
{
    let order = choose|order: Seq<int>| is_stable_order(top_level_keys(ms), order) && r == arranged(top_level(ms), order);
    lemma_listing_sorted(r, ms, order);
    lemma_listing_from_members(r, ms, order);
    lemma_listing_complete(r, ms, order);
    lemma_listing_dirs_distinct(r, ms, order);
}

/// The top-level entries of an archive, as a browser lists them: one per
/// top-level file, one per top-level directory (first occurrence wins), sorted
/// by lower-cased name, equal names keeping archive order.
pub fn top_level_entries(members: &Vec<ArchiveMember>) -> (r: Vec<ArchiveEntry>)
    ensures
        is_listing_of(r@.map_values(|e: ArchiveEntry| e@), member_views(members@)),
{
    let entries = collect_top_level(members);
    let ghost tl = top_level(member_views(members@));
    let mut keys: Vec<Vec<u64>> = Vec::new();
    let mut i: usize = 0;
    while i < entries.len()
        invariant
            i <= entries.len(),
            entries@.map_values(|e: ArchiveEntry| e@) == tl,
            keys@.len() == i,
            forall|j: int| 0 <= j < i ==> #[trigger] keys@[j]@ == entry_key(tl[j]),
        decreases entries.len() - i,
    {
        assert(tl[i as int] == entries@[i as int]@);
        keys.push(lowercase_key(entries[i].name.as_str()));
        i = i + 1;
    }
    let ghost kv = key_views(keys@);
    assert(kv =~= tl.map_values(|e: ArchiveEntryView| entry_key(e)));
    let ghost items = entries@;
    let sorted = stable_sort_by_keys(entries, keys);
    let ghost order = choose|order: Seq<int>| is_stable_order(kv, order) && sorted@ == arranged(items, order);
    assert(sorted@.map_values(|e: ArchiveEntry| e@) =~= arranged(tl, order));
    sorted
}

/// The members the `zip` crate's reader finds in the bytes of a zip archive, in
/// archive order; none where it cannot read them.
pub uninterp spec fn zip_members_of(bytes: Seq<u8>) -> Option<Seq<(Seq<char>, bool, u64)>>;

/// The members the `tar` crate's reader finds in the bytes of a tar archive, in
/// archive order; none where it cannot read them.
pub uninterp spec fn tar_members_of(bytes: Seq<u8>) -> Option<Seq<(Seq<char>, bool, u64)>>;

/// What the `flate2` crate's gzip decoder makes of some bytes; none where they
/// are not gzip data it can decode.
pub uninterp spec fn gunzip_of(bytes: Seq<u8>) -> Option<Seq<u8>>;

/// `zip::ZipArchive::new` over the bytes, then for each index `by_index`, and of
/// that member `name`, `is_dir` and `size`; an error at any step gives none.
/// Claimed: the result is `zip_members_of` of the bytes.
#[verifier::external_body]
fn zip_members(bytes: &Vec<u8>) -> (r: Option<Vec<ArchiveMember>>)
    ensures
        match r {
            Some(v) => zip_members_of(bytes@) == Some(member_views(v@)),
            None => zip_members_of(bytes@) is None,
        },
{
    let mut archive = zip::ZipArchive::new(std::io::Cursor::new(bytes.as_slice())).ok()?;
    let mut members = Vec::new();
    for i in 0..archive.len() {
        let file = archive.by_index(i).ok()?;
        let name = file.name().ok()?.to_string();
        members.push(ArchiveMember { name, is_dir: file.is_dir(), size: file.size() });
    }
    Some(members)
}

/// `tar::Archive::entries` over the bytes, and of each entry its path bytes
/// (read as UTF-8, invalid sequences replaced), whether the header's entry type
/// is a directory, and the header's size (0 where it cannot be read); an error
/// reading an entry gives none. Claimed: the result is `tar_members_of` of the
/// bytes.
#[verifier::external_body]
fn tar_members(bytes: &Vec<u8>) -> (r: Option<Vec<ArchiveMember>>)
    ensures
        match r {
            Some(v) => tar_members_of(bytes@) == Some(member_views(v@)),
            None => tar_members_of(bytes@) is None,
        },
{
    let mut archive = tar::Archive::new(bytes.as_slice());
    let mut members = Vec::new();
    for entry in archive.entries().ok()? {
        let entry = entry.ok()?;
        let name = String::from_utf8_lossy(&entry.path_bytes()).to_string();
        let header = entry.header();
        members.push(ArchiveMember { name, is_dir: header.entry_type().is_dir(), size: header.size().unwrap_or(0) });
    }
    Some(members)
}

/// `flate2::read::GzDecoder` over the bytes, read to the end (the whole
/// stream is decoded before any tar header is read); an error gives none.
/// Claimed: the result is `gunzip_of` of the bytes.
#[verifier::external_body]
fn gunzip(bytes: &Vec<u8>) -> (r: Option<Vec<u8>>)
    ensures
        match r {
            Some(v) => gunzip_of(bytes@) == Some(v@),
            None => gunzip_of(bytes@) is None,
        },
{
    let mut out = Vec::new();
    std::io::Read::read_to_end(&mut flate2::read::GzDecoder::new(bytes.as_slice()), &mut out).ok()?;
    Some(out)
}

/// The top-level listing of a zip archive held in `bytes`; none where the zip
/// reader cannot read its members.
pub fn list_zip_bytes(bytes: &Vec<u8>) -> (r: Option<Vec<ArchiveEntry>>)
    ensures
        match zip_members_of(bytes@) {
            Some(ms) => r matches Some(v) && is_listing_of(v@.map_values(|e: ArchiveEntry| e@), ms),
            None => r is None,
        },
{
    match zip_members(bytes) {
        Some(members) => Some(top_level_entries(&members)),
        None => None,
    }
}

/// The members of a tar archive held in `bytes`, gzip-compressed when `is_gz`.
pub open spec fn tar_archive_members(bytes: Seq<u8>, is_gz: bool) -> Option<Seq<(Seq<char>, bool, u64)>> {
    if is_gz {
        match gunzip_of(bytes) {
            Some(tar) => tar_members_of(tar),
            None => None,
        }
    } else {
        tar_members_of(bytes)
    }
}

/// The top-level listing of a tar archive held in `bytes` (gzip-compressed when
/// `is_gz`); none where it cannot be decompressed or its members read.
pub fn list_tar_bytes(bytes: &Vec<u8>, is_gz: bool) -> (r: Option<Vec<ArchiveEntry>>)
    ensures
        match tar_archive_members(bytes@, is_gz) {
            Some(ms) => r matches Some(v) && is_listing_of(v@.map_values(|e: ArchiveEntry| e@), ms),
            None => r is None,
        },
{
    let members = if is_gz {
        match gunzip(bytes) {
            Some(tar) => tar_members(&tar),
            None => None,
        }
    } else {
        tar_members(bytes)
    };
    match members {
        Some(members) => Some(top_level_entries(&members)),
        None => None,
    }
}

/// Archive entries as directory entries below the archive's path.
pub fn archive_entries_to_direntries(archive_path: &str, archive_entries: Vec<ArchiveEntry>) -> (r: Vec<DirEntry>)
    ensures
        r@.len() == archive_entries@.len(),
        forall|i: int| 0 <= i < r@.len() ==> {
            &&& (#[trigger] r@[i]).name@ == archive_entries@[i].name@
            &&& r@[i].path@ == join_paths(archive_path@, archive_entries@[i].path@)
            &&& r@[i].kind == archive_entries@[i].kind
            &&& r@[i].size == archive_entries@[i].size
            &&& r@[i].modified is None
        },
{
    let ghost orig = archive_entries@;
    let mut r: Vec<DirEntry> = Vec::new();
    let mut rest = archive_entries;
    let mut i: usize = 0;
    let n = rest.len();
    while i < n
        invariant
            i <= n,
            n == orig.len(),
            rest@ == orig.subrange(i as int, n as int),
            r@.len() == i,
            forall|j: int| 0 <= j < i ==> {
                &&& (#[trigger] r@[j]).name@ == orig[j].name@
                &&& r@[j].path@ == join_paths(archive_path@, orig[j].path@)
                &&& r@[j].kind == orig[j].kind
                &&& r@[j].size == orig[j].size
                &&& r@[j].modified is None
            },
        decreases n - i,
    {
        assert(rest@[0] == orig[i as int]);
        let ae = rest.remove(0);
        assert(rest@ =~= orig.subrange(i + 1, n as int));
        let path = join(archive_path, ae.path.as_str());
        r.push(DirEntry { name: ae.name, path, kind: ae.kind, size: ae.size, modified: None });
        i = i + 1;
    }
    r
}

} // verus!
