//! Disk usage: a tree of sizes, the largest entries first.
use vstd::prelude::*;
use crate::browser::FsMeta;
use crate::pathname::{file_name, file_name_of};
use crate::sorting::{arranged, comes_before, is_stable_order, key_views, lex_less, stable_sort_by_keys};
use crate::text::{byte_len, bytes_exceed, chars_of, chars_within, is_boundary, lemma_chars_within_step, opt_chars, push_char, utf8_width_exec};

verus! {

/// A file or directory and what it holds. `size` is a file's length; a
/// directory's own size is added to its children's totals.
#[derive(Debug)]
pub struct DiskEntry {
    pub name: String,
    pub path: String,
    pub size: u64,
    pub children: Vec<DiskEntry>,
    pub is_file: bool,
}

/// The total size of an entry: a file's size, or a directory's own size plus
/// the totals of its children.
pub open spec fn disk_total(e: DiskEntry) -> nat
    decreases e,
{
    if e.is_file {
        e.size as nat
    } else {
        proof {
            assert(decreases_to!(e => e.children));
            assert(decreases_to!(e.children => e.children@));
        }
        children_total(e.children@) + e.size as nat
    }
}

/// The sum of the totals of a list of entries.
pub open spec fn children_total(s: Seq<DiskEntry>) -> nat
    decreases s,
{
    if s.len() == 0 {
        0
    } else {
        proof {
            assert(decreases_to!(s => s[s.len() - 1]));
        }
        children_total(s.drop_last()) + disk_total(s.last())
    }
}

/// A prefix of a list sums to at most the whole list.
pub proof fn lemma_children_total_prefix(s: Seq<DiskEntry>, k: int)
    requires
        0 <= k <= s.len(),
    ensures
        children_total(s.subrange(0, k)) <= children_total(s),
    decreases s.len(),
{
    if k == s.len() {
        assert(s.subrange(0, k) =~= s);
    } else {
        lemma_children_total_prefix(s.drop_last(), k);
        assert(s.drop_last().subrange(0, k) =~= s.subrange(0, k));
    }
}

impl DiskEntry {
    /// The total size when it fits in a `u64`; none when it would overflow.
    pub fn checked_total_size(&self) -> (r: Option<u64>)
        ensures
            r == if disk_total(*self) <= u64::MAX {
                Some(disk_total(*self) as u64)
            } else {
                None::<u64>
            },
        decreases self,
    {
        if self.is_file {
            return Some(self.size);
        }
        let ghost cs = self.children@;
        let mut sum: u64 = 0;
        let mut i: usize = 0;
        assert(cs.subrange(0, 0) =~= Seq::<DiskEntry>::empty());
        while i < self.children.len()
            invariant
                i <= self.children.len(),
                cs == self.children@,
                !self.is_file,
                sum == children_total(cs.subrange(0, i as int)),
            decreases self.children.len() - i,
        {
            proof {
                let sub = cs.subrange(0, i + 1);
                assert(sub.drop_last() =~= cs.subrange(0, i as int));
                assert(sub.last() == cs[i as int]);
                assert(decreases_to!(*self => self.children));
                assert(decreases_to!(self.children => self.children@));
                assert(decreases_to!(self.children@ => self.children@[i as int]));
            }
            let t = match self.children[i].checked_total_size() {
                Some(t) => t,
                None => {
                    proof {
                        lemma_children_total_prefix(cs, i + 1);
                    }
                    return None;
                },
            };
            if t > u64::MAX - sum {
                proof {
                    lemma_children_total_prefix(cs, i + 1);
                }
                return None;
            }
            sum = sum + t;
            i = i + 1;
        }
        assert(cs.subrange(0, cs.len() as int) =~= cs);
        if self.size > u64::MAX - sum {
            return None;
        }
        Some(sum + self.size)
    }
}

impl DiskEntry {
    /// The total size: a file's size, or a directory's own size plus its
    /// children's totals.
    pub fn total_size(&self) -> (t: u64)
        requires
            disk_total(*self) <= u64::MAX,
        ensures
            t == disk_total(*self),
        decreases self,
    {
        if self.is_file {
            return self.size;
        }
        let ghost cs = self.children@;
        let mut sum: u64 = 0;
        let mut i: usize = 0;
        assert(cs.subrange(0, 0) =~= Seq::<DiskEntry>::empty());
        while i < self.children.len()
            invariant
                i <= self.children.len(),
                cs == self.children@,
                !self.is_file,
                disk_total(*self) <= u64::MAX,
                sum == children_total(cs.subrange(0, i as int)),
            decreases self.children.len() - i,
        {
            proof {
                let sub = cs.subrange(0, i + 1);
                assert(sub.drop_last() =~= cs.subrange(0, i as int));
                assert(sub.last() == cs[i as int]);
                lemma_children_total_prefix(cs, i + 1);
                assert(decreases_to!(*self => self.children));
                assert(decreases_to!(self.children => self.children@));
                assert(decreases_to!(self.children@ => self.children@[i as int]));
            }
            let t = self.children[i].total_size();
            sum = sum + t;
            i = i + 1;
        }
        assert(cs.subrange(0, cs.len() as int) =~= cs);
        sum + self.size
    }
}

/// The sort key of an entry that puts larger totals first.
pub open spec fn size_key(total: nat) -> Seq<u64> {
    seq![(u64::MAX - total) as u64]
}

/// The sort keys of a list of entries.
pub open spec fn total_keys(s: Seq<DiskEntry>) -> Seq<Seq<u64>> {
    s.map_values(|e: DiskEntry| size_key(disk_total(e)))
}

/// At most `n` first items.
pub open spec fn first_n<T>(s: Seq<T>, n: nat) -> Seq<T> {
    if s.len() <= n {
        s
    } else {
        s.take(n as int)
    }
}

/// How many children a directory keeps: its largest ones.
pub const MAX_CHILDREN: usize = 20;

/// The children of a directory as the tree keeps them: sorted by total size,
/// largest first, equal totals keeping their order, and only the first twenty.
pub fn rank_children(children: Vec<DiskEntry>) -> (r: Vec<DiskEntry>)
    requires
        forall|i: int| 0 <= i < children@.len() ==> disk_total(#[trigger] children@[i]) <= u64::MAX,
    ensures
        exists|order: Seq<int>|
            is_stable_order(total_keys(children@), order) && r@ == first_n(
                arranged(children@, order),
                MAX_CHILDREN as nat,
            ),
        forall|i: int, j: int|
            0 <= i < j < r@.len() ==> disk_total(#[trigger] r@[i]) >= disk_total(#[trigger] r@[j]),
{
    let mut keys: Vec<Vec<u64>> = Vec::new();
    let mut i: usize = 0;
    while i < children.len()
        invariant
            i <= children.len(),
            forall|k: int| 0 <= k < children@.len() ==> disk_total(#[trigger] children@[k]) <= u64::MAX,
            keys@.len() == i,
            forall|j: int| 0 <= j < i ==> #[trigger] keys@[j]@ == size_key(disk_total(children@[j])),
        decreases children.len() - i,
    {
        assert(disk_total(children@[i as int]) <= u64::MAX);
        let t = children[i].total_size();
        let mut k: Vec<u64> = Vec::new();
        k.push(u64::MAX - t);
        keys.push(k);
        i = i + 1;
    }
    let ghost kv = key_views(keys@);
    assert(kv =~= total_keys(children@));
    let ghost items = children@;
    let mut sorted = stable_sort_by_keys(children, keys);
    let ghost order = choose|order: Seq<int>| is_stable_order(kv, order) && sorted@ == arranged(items, order);
    let ghost full = sorted@;
    if sorted.len() > MAX_CHILDREN {
        sorted.truncate(MAX_CHILDREN);
    }
    assert(sorted@ =~= first_n(full, MAX_CHILDREN as nat));
    assert forall|i: int, j: int| 0 <= i < j < sorted@.len() implies disk_total(
        #[trigger] sorted@[i],
    ) >= disk_total(#[trigger] sorted@[j]) by {
        let a = order[i];
        let b = order[j];
        assert(comes_before(kv, a, b));
        assert(sorted@[i] == items[a]);
        assert(sorted@[j] == items[b]);
        assert(kv[a] == size_key(disk_total(items[a])));
        assert(kv[b] == size_key(disk_total(items[b])));
        if lex_less(kv[a], kv[b]) {
            assert(kv[a][0] < kv[b][0] || kv[a][0] == kv[b][0]);
            assert(kv[a].drop_first().len() == 0);
        }
    }
    sorted
}

/// A file of the tree.
pub fn file_node(name: String, path: String, size: u64) -> (e: DiskEntry)
    ensures
        e.name == name,
        e.path == path,
        e.size == size,
        e.children@.len() == 0,
        e.is_file,
{
    DiskEntry { name, path, size, children: Vec::new(), is_file: true }
}

/// A directory of the tree, keeping its largest children (see `rank_children`);
/// its own size counts as zero.
pub fn dir_node(name: String, path: String, children: Vec<DiskEntry>) -> (e: DiskEntry)
    requires
        forall|i: int| 0 <= i < children@.len() ==> disk_total(#[trigger] children@[i]) <= u64::MAX,
    ensures
        e.name == name,
        e.path == path,
        e.size == 0,
        !e.is_file,
        exists|order: Seq<int>|
            is_stable_order(total_keys(children@), order) && e.children@ == first_n(
                arranged(children@, order),
                MAX_CHILDREN as nat,
            ),
{
    let kept = rank_children(children);
    DiskEntry { name, path, size: 0, children: kept, is_file: false }
}

/// An entry that is neither a readable file nor a directory to descend into
/// (a directory at the depth limit, or something else): its own size only.
pub fn leaf_node(name: String, path: String, size: u64) -> (e: DiskEntry)
    ensures
        e.name == name,
        e.path == path,
        e.size == size,
        e.children@.len() == 0,
        !e.is_file,
{
    DiskEntry { name, path, size, children: Vec::new(), is_file: false }
}

/// `n - 3`, or 0.
pub open spec fn minus_three(n: nat) -> nat {
    if n >= 3 {
        (n - 3) as nat
    } else {
        0
    }
}

/// A name shortened to fit `max_len` bytes: kept when it fits, else its first
/// `max_len - 3` bytes followed by `...`.
pub open spec fn truncated(s: Seq<char>, max_len: nat) -> Seq<char> {
    if byte_len(s) > max_len {
        s.take(chars_within(s, minus_three(max_len)) as int) + "..."@
    } else {
        s
    }
}

/// A name shortened to at most `max_len` bytes, with `...` marking the cut.
pub fn truncate(s: &str, max_len: usize) -> (r: String)
    requires
        byte_len(s@) > max_len ==> is_boundary(s@, minus_three(max_len as nat)),
    ensures
        r@ == truncated(s@, max_len as nat),
{
    if !bytes_exceed(s, max_len) {
        return s.to_owned();
    }
    let cut: usize = if max_len >= 3 {
        max_len - 3
    } else {
        0
    };
    let cs = chars_of(s);
    let mut out = String::new();
    let mut used: usize = 0;
    let mut i: usize = 0;
    assert(s@.skip(0) =~= s@);
    while i < cs.len()
        invariant
            i <= cs.len(),
            cs@ == s@,
            used <= cut,
            out@ == s@.take(i as int),
            chars_within(s@, cut as nat) == i + chars_within(s@.skip(i as int), (cut - used) as nat),
        ensures
            used <= cut,
            out@ == s@.take(i as int),
            chars_within(s@, cut as nat) == i,
        decreases cs.len() - i,
    {
        proof {
            lemma_chars_within_step(s@, i as int, cut as nat, used as nat);
        }
        let w = utf8_width_exec(cs[i]);
        if w > cut - used {
            break;
        }
        push_char(&mut out, cs[i]);
        assert(out@ =~= s@.take(i + 1));
        used = used + w;
        i = i + 1;
        proof {
            if i == cs.len() {
                assert(s@.skip(i as int).len() == 0);
            }
        }
    }
    out.append("...");
    out
}

/// A list of (name, size) pairs sorted by size, largest first, equal sizes
/// keeping their order.
pub fn rank_sizes(sizes: Vec<(String, u64)>) -> (r: Vec<(String, u64)>)
    ensures
        exists|order: Seq<int>|
            is_stable_order(sizes@.map_values(|e: (String, u64)| size_key(e.1 as nat)), order)
                && r@ == arranged(sizes@, order),
        forall|i: int, j: int| 0 <= i < j < r@.len() ==> (#[trigger] r@[i]).1 >= (#[trigger] r@[j]).1,
{
    let mut keys: Vec<Vec<u64>> = Vec::new();
    let mut i: usize = 0;
    while i < sizes.len()
        invariant
            i <= sizes.len(),
            keys@.len() == i,
            forall|j: int| 0 <= j < i ==> #[trigger] keys@[j]@ == size_key(sizes@[j].1 as nat),
        decreases sizes.len() - i,
    {
        let mut k: Vec<u64> = Vec::new();
        k.push(u64::MAX - sizes[i].1);
        keys.push(k);
        i = i + 1;
    }
    let ghost kv = key_views(keys@);
    assert(kv =~= sizes@.map_values(|e: (String, u64)| size_key(e.1 as nat)));
    let ghost items = sizes@;
    let sorted = stable_sort_by_keys(sizes, keys);
    let ghost order = choose|order: Seq<int>| is_stable_order(kv, order) && sorted@ == arranged(items, order);
    assert forall|i: int, j: int| 0 <= i < j < sorted@.len() implies (#[trigger] sorted@[i]).1 >= (
    #[trigger] sorted@[j]).1 by {
        let a = order[i];
        let b = order[j];
        assert(comes_before(kv, a, b));
        assert(kv[a] == size_key(items[a].1 as nat));
        assert(kv[b] == size_key(items[b].1 as nat));
    }
    sorted
}

/// The disk usage view: the sizes of the entries of a directory.
#[derive(Debug, Clone)]
pub struct DiskUsageView {
    pub visible: bool,
    pub path: Option<String>,
    pub entries: Vec<(String, u64)>,
    pub selected: usize,
}

impl DiskUsageView {
    pub fn new() -> (v: Self)
        ensures
            !v.visible,
            v.path is None,
            v.entries@.len() == 0,
            v.selected == 0,
    {
        DiskUsageView { visible: false, path: None, entries: Vec::new(), selected: 0 }
    }

    /// Shows the sizes of the entries of `path` (as measured), largest first.
    pub fn open(&mut self, path: &str, sizes: Vec<(String, u64)>)
        ensures
            final(self).visible,
            opt_chars(final(self).path) == Some(path@),
            final(self).selected == 0,
            exists|order: Seq<int>|
                is_stable_order(sizes@.map_values(|e: (String, u64)| size_key(e.1 as nat)), order)
                    && final(self).entries@ == arranged(sizes@, order),
    {
        self.visible = true;
        self.path = Some(path.to_owned());
        self.entries = rank_sizes(sizes);
        self.selected = 0;
    }

    pub fn close(&mut self)
        ensures
            !final(self).visible,
            final(self).path is None,
            final(self).entries@.len() == 0,
            final(self).selected == 0,
    {
        self.visible = false;
        self.path = None;
        self.entries.clear();
        self.selected = 0;
    }

    /// Selects the next entry, staying on the last one.
    pub fn move_down(&mut self)
        ensures
            final(self).visible == old(self).visible,
            final(self).path == old(self).path,
            final(self).entries == old(self).entries,
            final(self).selected == if old(self).entries@.len() == 0 {
                old(self).selected as int
            } else if old(self).selected + 1 < old(self).entries@.len() - 1 {
                old(self).selected + 1
            } else {
                old(self).entries@.len() - 1
            },
    {
        if !self.entries.is_empty() {
            let last = self.entries.len() - 1;
            if self.selected >= last {
                self.selected = last;
            } else {
                self.selected = self.selected + 1;
            }
        }
    }

    /// Selects the previous entry, staying on the first one.
    pub fn move_up(&mut self)
        ensures
            final(self).visible == old(self).visible,
            final(self).path == old(self).path,
            final(self).entries == old(self).entries,
            final(self).selected == if old(self).selected > 0 {
                old(self).selected - 1
            } else {
                0
            },
    {
        if self.selected > 0 {
            self.selected = self.selected - 1;
        }
    }
}

/// The name a disk usage node shows for a path: its file name, or `/` when it
/// has none.
pub open spec fn disk_name(path: Seq<char>) -> Seq<char> {
    match file_name_of(path) {
        Some(n) => n,
        None => seq!['/'],
    }
}

/// Whether the node of a path descends into its entries: its metadata could be
/// read, it is a directory and not a file, and the depth allows it.
pub open spec fn descends(meta: Option<FsMeta>, max_depth: usize) -> bool {
    meta matches Some(m) && !m.is_file && m.is_dir && max_depth > 0
}

/// Whether the tree below a path with metadata `meta` reads the path's entries
/// (see `descends`).
pub fn reads_children(meta: &Option<FsMeta>, max_depth: usize) -> (r: bool)
    ensures
        r == descends(*meta, max_depth),
{
    match meta {
        Some(m) => !m.is_file && m.is_dir && max_depth > 0,
        None => false,
    }
}

/// The disk usage node of `path` from its metadata (none when it could not be
/// read): a file node of its length for a file; a directory node keeping the
/// largest of `children` (the trees of its entries, one level less deep) when
/// it descends; otherwise a node of its own length alone. Its name is the
/// path's file name, or `/`.
pub fn disk_node(path: String, meta: Option<FsMeta>, max_depth: usize, children: Vec<DiskEntry>) -> (r: Option<DiskEntry>)
    requires
        descends(meta, max_depth) ==> forall|i: int|
            0 <= i < children@.len() ==> disk_total(#[trigger] children@[i]) <= u64::MAX,
    ensures
        meta is None <==> r is None,
        r matches Some(e) ==> e.name@ == disk_name(path@) && e.path == path,
        meta matches Some(m) ==> (m.is_file ==> (r matches Some(e) && e.is_file && e.size == m.len
            && e.children@.len() == 0)),
        descends(meta, max_depth) ==> (r matches Some(e) && !e.is_file && e.size == 0 && exists|order: Seq<int>|
            is_stable_order(total_keys(children@), order) && e.children@ == first_n(
                arranged(children@, order),
                MAX_CHILDREN as nat,
            )),
        meta matches Some(m) ==> (!m.is_file && !descends(meta, max_depth) ==> (r matches Some(e)
            && !e.is_file && e.size == m.len && e.children@.len() == 0)),
{
    let name = match file_name(path.as_str()) {
        Some(n) => n,
        None => {
            let mut s = String::new();
            push_char(&mut s, '/');
            s
        },
    };
    match meta {
        None => None,
        Some(m) => if m.is_file {
            Some(file_node(name, path, m.len))
        } else if m.is_dir && max_depth > 0 {
            Some(dir_node(name, path, children))
        } else {
            Some(leaf_node(name, path, m.len))
        },
    }
}

} // verus!

