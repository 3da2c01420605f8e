//! The file browser: the listing of the current directory (or archive, or remote
//! directory), the selection in it, and what each key does.
use vstd::prelude::*;
use vstd::utf8::encode_utf8;
use crate::{DirEntry, DirEntryView, EntryKind};
use crate::archive::{archive_entries_to_direntries, archive_type_name, archive_type_of, detect_archive, ArchiveEntry, ArchiveType};
use crate::batch::{toggled, BatchAction, BatchActionType, BatchDialog, BatchSelection};
use crate::keybindings::KeyCode;
use crate::disk_usage::DiskUsageView;
use crate::permissions::{invalid_mode_text, is_octal_digit, numeric_mode_of, ChmodDialog};
use crate::remote::{connection_text, parse_ssh_target, ssh_target_of, RemoteFs};
use crate::pathname::{join, join_paths, parent, parent_of};
use crate::sorting::{arranged, is_stable_order, key_views, stable_sort_by_keys};
use crate::text::{chars_of, code_points, opt_chars, decimal, decimal_string, lowercase_key, lowercase_of, parse_usize, parse_usize_of};

verus! {

/// What the file system reports of an entry, where it could read it.
#[derive(Debug, Clone, Copy)]
pub struct FsMeta {
    pub is_dir: bool,
    pub is_symlink: bool,
    pub is_file: bool,
    pub len: u64,
    pub modified: Option<i64>,
}

/// An entry of a directory as read: its name, full path and what is known of it.
#[derive(Debug, Clone)]
pub struct FsEntry {
    pub name: String,
    pub path: String,
    pub meta: Option<FsMeta>,
}

/// The kind the file system reports: directory, else symlink, else file, else
/// unknown (also when nothing could be read).
pub open spec fn kind_of_meta(meta: Option<FsMeta>) -> EntryKind {
    match meta {
        Some(m) => if m.is_dir {
            EntryKind::Dir
        } else if m.is_symlink {
            EntryKind::Symlink
        } else if m.is_file {
            EntryKind::File
        } else {
            EntryKind::Unknown
        },
        None => EntryKind::Unknown,
    }
}

/// The listing entry of a file-system entry: an archive by its name, else the
/// kind the file system reports; size 0 and no time where nothing was read.
pub open spec fn listed_entry(e: FsEntry) -> DirEntryView {
    DirEntryView {
        name: e.name@,
        path: e.path@,
        kind: if archive_type_of(e.path@) is Some {
            EntryKind::Archive
        } else {
            kind_of_meta(e.meta)
        },
        size: match e.meta {
            Some(m) => m.len,
            None => 0,
        },
        modified: match e.meta {
            Some(m) => m.modified,
            None => None,
        },
    }
}

/// A name is hidden when it starts with a dot.
pub open spec fn is_hidden(name: Seq<char>) -> bool {
    name.len() > 0 && name[0] == '.'
}

/// The groups of a listing, in the order they are shown.
#[derive(Debug, Clone, Copy, PartialEq, Eq, Structural)]
pub enum Group {
    Dirs,
    Files,
    Archives,
}

/// The group an entry is listed in.
pub open spec fn group_of(kind: EntryKind) -> Group {
    match kind {
        EntryKind::Dir => Group::Dirs,
        EntryKind::Archive => Group::Archives,
        _ => Group::Files,
    }
}

/// The shown entries of group `g`, in the order they were read.
pub open spec fn group_entries(raw: Seq<FsEntry>, show_hidden: bool, g: Group) -> Seq<DirEntryView>
    decreases raw.len(),
{
    if raw.len() == 0 {
        Seq::empty()
    } else {
        let prev = group_entries(raw.drop_last(), show_hidden, g);
        let e = listed_entry(raw.last());
        if (show_hidden || !is_hidden(e.name)) && group_of(e.kind) == g {
            prev.push(e)
        } else {
            prev
        }
    }
}

/// The sort keys of entries by lower-cased name.
pub open spec fn name_keys(s: Seq<DirEntryView>) -> Seq<Seq<u64>> {
    s.map_values(|e: DirEntryView| code_points(lowercase_of(e.name)))
}

/// `out` is `src` sorted by lower-cased name, equal names keeping their order.
pub open spec fn sorted_by_name(src: Seq<DirEntryView>, out: Seq<DirEntryView>) -> bool {
    exists|order: Seq<int>| is_stable_order(name_keys(src), order) && out == arranged(src, order)
}

/// The views of a list of entries.
pub open spec fn entry_views(s: Seq<DirEntry>) -> Seq<DirEntryView> {
    s.map_values(|e: DirEntry| e@)
}

/// The `..` entry of a listing: the parent of `dir`, or `dir` itself at a root.
pub open spec fn up_entry_view(dir: Seq<char>) -> DirEntryView {
    DirEntryView {
        name: seq!['.', '.'],
        path: match parent_of(dir) {
            Some(p) => p,
            None => dir,
        },
        kind: EntryKind::Dir,
        size: 0,
        modified: None,
    }
}

/// The entry naming a remote connection of `user` to `host` in a listing of
/// `dir`.
pub open spec fn remote_entry_view(user: Seq<char>, host: Seq<char>, dir: Seq<char>) -> DirEntryView {
    DirEntryView {
        name: "[remote: "@ + connection_text(user, host) + "]"@,
        path: dir,
        kind: EntryKind::Dir,
        size: 0,
        modified: None,
    }
}

/// A listing of a directory: `..` first, then the directories, the other files
/// and the archives, each group sorted by lower-cased name; hidden names only
/// when shown.
pub open spec fn is_dir_listing(
    dir: Seq<char>,
    raw: Seq<FsEntry>,
    show_hidden: bool,
    out: Seq<DirEntryView>,
) -> bool {
    exists|d: Seq<DirEntryView>, f: Seq<DirEntryView>, a: Seq<DirEntryView>|
        #![trigger sorted_by_name(group_entries(raw, show_hidden, Group::Dirs), d), sorted_by_name(group_entries(raw, show_hidden, Group::Files), f), sorted_by_name(group_entries(raw, show_hidden, Group::Archives), a)]
        {
            &&& sorted_by_name(group_entries(raw, show_hidden, Group::Dirs), d)
            &&& sorted_by_name(group_entries(raw, show_hidden, Group::Files), f)
            &&& sorted_by_name(group_entries(raw, show_hidden, Group::Archives), a)
            &&& out == seq![up_entry_view(dir)] + d + f + a
        }
}

/// The `..` entry of a listing of `dir`.
pub fn up_entry(dir: &str) -> (e: DirEntry)
    ensures
        e@ == up_entry_view(dir@),
{
    let path = match parent(dir) {
        Some(p) => p,
        None => dir.to_owned(),
    };
    let mut name = String::new();
    crate::text::push_char(&mut name, '.');
    crate::text::push_char(&mut name, '.');
    assert(name@ =~= seq!['.', '.']);
    DirEntry { name, path, kind: EntryKind::Dir, size: 0, modified: None }
}

fn listed(e: FsEntry) -> (r: DirEntry)
    ensures
        r@ == listed_entry(e),
{
    let kind = if detect_archive(e.path.as_str()).is_some() {
        EntryKind::Archive
    } else {
        match e.meta {
            Some(m) => if m.is_dir {
                EntryKind::Dir
            } else if m.is_symlink {
                EntryKind::Symlink
            } else if m.is_file {
                EntryKind::File
            } else {
                EntryKind::Unknown
            },
            None => EntryKind::Unknown,
        }
    };
    let (size, modified) = match e.meta {
        Some(m) => (m.len, m.modified),
        None => (0, None),
    };
    DirEntry { name: e.name, path: e.path, kind, size, modified }
}

/// Entries sorted by lower-cased name, equal names keeping their order.
pub fn sort_by_name(v: Vec<DirEntry>) -> (r: Vec<DirEntry>)
    ensures
        sorted_by_name(entry_views(v@), entry_views(r@)),
{
    let mut keys: Vec<Vec<u64>> = Vec::new();
    let mut i: usize = 0;
    while i < v.len()
        invariant
            i <= v.len(),
            keys@.len() == i,
            forall|j: int| 0 <= j < i ==> #[trigger] keys@[j]@ == code_points(lowercase_of(v@[j].name@)),
        decreases v.len() - i,
    {
        keys.push(lowercase_key(v[i].name.as_str()));
        i = i + 1;
    }
    let ghost kv = key_views(keys@);
    let ghost src = entry_views(v@);
    assert(kv =~= name_keys(src));
    let ghost items = v@;
    let sorted = stable_sort_by_keys(v, keys);
    let ghost order = choose|order: Seq<int>| is_stable_order(kv, order) && sorted@ == arranged(items, order);
    assert(entry_views(sorted@) =~= arranged(src, order));
    sorted
}

/// The listing of a directory `dir` from the entries read from it.
pub fn arrange_listing(dir: &str, raw: Vec<FsEntry>, show_hidden: bool) -> (r: Vec<DirEntry>)
    ensures
        is_dir_listing(dir@, raw@, show_hidden, entry_views(r@)),
{
    let ghost all = raw@;
    let mut dirs: Vec<DirEntry> = Vec::new();
    let mut files: Vec<DirEntry> = Vec::new();
    let mut archives: Vec<DirEntry> = Vec::new();
    let mut rest = raw;
    let n = rest.len();
    let mut i: usize = 0;
    while i < n
        invariant
            i <= n,
            n == all.len(),
            rest@ == all.subrange(i as int, n as int),
            entry_views(dirs@) == group_entries(all.subrange(0, i as int), show_hidden, Group::Dirs),
            entry_views(files@) == group_entries(all.subrange(0, i as int), show_hidden, Group::Files),
            entry_views(archives@) == group_entries(all.subrange(0, i as int), show_hidden, Group::Archives),
        decreases n - i,
    {
        assert(rest@[0] == all[i as int]);
        let fe = rest.remove(0);
        assert(rest@ =~= all.subrange(i + 1, n as int));
        let ghost pre = all.subrange(0, i + 1);
        assert(pre.drop_last() =~= all.subrange(0, i as int));
        assert(pre.last() == fe);
        let hidden = {
            let cs = chars_of(fe.name.as_str());
            cs.len() > 0 && cs[0] == '.'
        };
        let e = listed(fe);
        if show_hidden || !hidden {
            let ghost od = entry_views(dirs@);
            let ghost of = entry_views(files@);
            let ghost oa = entry_views(archives@);
            match e.kind {
                EntryKind::Dir => {
                    dirs.push(e);
                    assert(entry_views(dirs@) =~= od.push(e@));
                },
                EntryKind::Archive => {
                    archives.push(e);
                    assert(entry_views(archives@) =~= oa.push(e@));
                },
                _ => {
                    files.push(e);
                    assert(entry_views(files@) =~= of.push(e@));
                },
            }
        }
        i = i + 1;
    }
    assert(all.subrange(0, n as int) =~= all);
    let d = sort_by_name(dirs);
    let f = sort_by_name(files);
    let a = sort_by_name(archives);
    let mut out: Vec<DirEntry> = Vec::new();
    out.push(up_entry(dir));
    let ghost up = out@;
    let ghost dv = d@;
    let ghost fv = f@;
    let ghost av = a@;
    let mut d = d;
    let mut f = f;
    let mut a = a;
    out.append(&mut d);
    out.append(&mut f);
    out.append(&mut a);
    assert(out@ =~= up + dv + fv + av);
    assert(entry_views(out@) =~= seq![up_entry_view(dir@)] + entry_views(dv) + entry_views(fv)
        + entry_views(av)) by {
        assert(entry_views(up) =~= seq![up_entry_view(dir@)]);
    }
    out
}

} // verus!

verus! {

/// Where keys go: the file list, or one of the dialogs.
#[derive(Debug, Clone, Copy, PartialEq, Eq, Structural)]
pub enum InputMode {
    Normal,
    Chmod,
    Batch,
    RemoteConnect,
}

/// The archive being browsed.
#[derive(Debug, Clone)]
pub struct ArchiveState {
    pub archive_path: String,
    pub archive_type: ArchiveType,
}

/// The state of the browser.
#[derive(Debug)]
pub struct Browser {
    pub cwd: String,
    pub entries: Vec<DirEntry>,
    pub selected: usize,
    pub scroll_offset: usize,
    pub show_hidden: bool,
    pub key_buffer: String,
    pub message: Option<String>,
    pub quit: bool,
    pub archive_state: Option<ArchiveState>,
    pub remote_fs: RemoteFs,
    pub chmod_dialog: ChmodDialog,
    pub disk_usage: DiskUsageView,
    pub batch_selection: BatchSelection,
    pub batch_dialog: BatchDialog,
    pub input_mode: InputMode,
    pub input_buffer: String,
}

/// Where the listing of the browser comes from.
#[derive(Debug, Clone)]
pub enum ListingSource {
    /// The top level of an archive of this type at this path.
    Archive(String, ArchiveType),
    /// The current directory of the remote connection.
    Remote,
    /// This local directory.
    Local(String),
}

/// `min(selected, len - 1)`, or 0 for an empty list.
pub open spec fn clamped(selected: int, len: int) -> int {
    if len == 0 {
        0
    } else if selected < len - 1 {
        selected
    } else {
        len - 1
    }
}

/// The selection points into the listing: at an entry when there is one, at 0
/// when the listing is empty.
pub open spec fn selection_valid(b: Browser) -> bool {
    if b.entries@.len() == 0 {
        b.selected == 0
    } else {
        b.selected < b.entries@.len()
    }
}

/// The dialogs and the selection of two states are the same.
pub open spec fn same_dialogs(a: Browser, b: Browser) -> bool {
    &&& a.chmod_dialog == b.chmod_dialog
    &&& a.disk_usage == b.disk_usage
    &&& a.batch_selection == b.batch_selection
    &&& a.batch_dialog == b.batch_dialog
    &&& a.input_mode == b.input_mode
    &&& a.input_buffer == b.input_buffer
}

/// Where the browser is of two states is the same.
pub open spec fn same_place(a: Browser, b: Browser) -> bool {
    &&& a.cwd == b.cwd
    &&& a.show_hidden == b.show_hidden
    &&& a.archive_state == b.archive_state
    &&& a.remote_fs == b.remote_fs
}

/// The `..` entry of an archive listing: the directory of the archive, or the
/// current directory when the archive path has no parent.
pub open spec fn archive_up_view(b: Browser) -> DirEntryView {
    DirEntryView {
        name: seq!['.', '.'],
        path: match b.archive_state {
            Some(a) => match parent_of(a.archive_path@) {
                Some(p) => p,
                None => b.cwd@,
            },
            None => match parent_of(b.cwd@) {
                Some(p) => p,
                None => b.cwd@,
            },
        },
        kind: EntryKind::Dir,
        size: 0,
        modified: None,
    }
}

/// A row of an archive listing shows an archive entry below `cwd`.
pub open spec fn is_archive_row(e: DirEntry, a: ArchiveEntry, cwd: Seq<char>) -> bool {
    &&& e.name@ == a.name@
    &&& e.path@ == join_paths(cwd, a.path@)
    &&& e.kind == a.kind
    &&& e.size == a.size
    &&& e.modified is None
}

impl Browser {
    /// A browser on `start_dir` with an empty listing, nothing selected and no
    /// dialog open.
    pub fn new(start_dir: String, show_hidden: bool) -> (b: Self)
        ensures
            selection_valid(b),
            b.cwd == start_dir,
            b.show_hidden == show_hidden,
            b.entries@.len() == 0,
            b.selected == 0,
            b.scroll_offset == 0,
            b.key_buffer@.len() == 0,
            b.message is None,
            !b.quit,
            b.archive_state is None,
            b.remote_fs is Disconnected,
            b.input_mode == InputMode::Normal,
            b.input_buffer@.len() == 0,
            !b.chmod_dialog.visible,
            !b.disk_usage.visible,
            !b.batch_selection.active,
            b.batch_selection.selected_indices@ == Set::<usize>::empty(),
            !b.batch_dialog.visible,
    {
        Browser {
            cwd: start_dir,
            entries: Vec::new(),
            selected: 0,
            scroll_offset: 0,
            show_hidden,
            key_buffer: String::new(),
            message: None,
            quit: false,
            archive_state: None,
            remote_fs: RemoteFs::new(),
            chmod_dialog: ChmodDialog::new(),
            disk_usage: DiskUsageView::new(),
            batch_selection: BatchSelection::new(),
            batch_dialog: BatchDialog::new(),
            input_mode: InputMode::Normal,
            input_buffer: String::new(),
        }
    }

    /// Where the listing comes from: the archive being browsed, else the remote
    /// connection, else the current directory.
    pub fn listing_source(&self) -> (r: ListingSource)
        ensures
            match self.archive_state {
                Some(a) => r matches ListingSource::Archive(p, t) && p@ == a.archive_path@ && t
                    == a.archive_type,
                None => if self.remote_fs is Connected {
                    r is Remote
                } else {
                    r matches ListingSource::Local(d) && d@ == self.cwd@
                },
            },
    {
        match &self.archive_state {
            Some(a) => ListingSource::Archive(a.archive_path.clone(), a.archive_type),
            None => if self.remote_fs.is_connected() {
                ListingSource::Remote
            } else {
                ListingSource::Local(self.cwd.clone())
            },
        }
    }

    /// Replaces the listing, keeping the selection inside it and the scroll
    /// position at or before the selection.
    pub fn set_entries(&mut self, entries: Vec<DirEntry>)
        ensures
            selection_valid(*final(self)),
            final(self).entries == entries,
            final(self).selected == clamped(old(self).selected as int, entries@.len() as int),
            entries@.len() > 0 ==> final(self).selected < entries@.len(),
            final(self).scroll_offset <= final(self).selected,
            final(self).scroll_offset == if old(self).scroll_offset <= final(self).selected {
                old(self).scroll_offset
            } else {
                final(self).selected
            },
            same_place(*final(self), *old(self)),
            same_dialogs(*final(self), *old(self)),
            final(self).key_buffer == old(self).key_buffer,
            final(self).message == old(self).message,
            final(self).quit == old(self).quit,
    {
        self.entries = entries;
        let n = self.entries.len();
        if n == 0 {
            self.selected = 0;
        } else if self.selected >= n - 1 {
            self.selected = n - 1;
        }
        if self.scroll_offset > self.selected {
            self.scroll_offset = self.selected;
        }
    }

    /// Shows the entries read from the current (local) directory.
    pub fn show_directory(&mut self, raw: Vec<FsEntry>)
        ensures
            selection_valid(*final(self)),
            is_dir_listing(old(self).cwd@, raw@, old(self).show_hidden, entry_views(final(self).entries@)),
            final(self).selected == clamped(old(self).selected as int, final(self).entries@.len() as int),
            final(self).scroll_offset == if old(self).scroll_offset <= final(self).selected {
                old(self).scroll_offset
            } else {
                final(self).selected
            },
            same_place(*final(self), *old(self)),
            same_dialogs(*final(self), *old(self)),
            final(self).message == old(self).message,
    {
        let listing = arrange_listing(self.cwd.as_str(), raw, self.show_hidden);
        self.set_entries(listing);
    }

    /// Shows the top level of the archive being browsed: `..` (the directory of
    /// the archive, or the current directory when the archive path has no
    /// parent), then its entries, each below the current path.
    pub fn show_archive(&mut self, archive_entries: Vec<ArchiveEntry>)
        ensures
            selection_valid(*final(self)),
            final(self).entries@.len() == archive_entries@.len() + 1,
            final(self).entries@[0]@ == archive_up_view(*old(self)),
            forall|i: int|
                0 <= i < archive_entries@.len() ==> is_archive_row(
                    #[trigger] final(self).entries@[i + 1],
                    archive_entries@[i],
                    old(self).cwd@,
                ),
            final(self).selected == clamped(old(self).selected as int, final(self).entries@.len() as int),
            final(self).scroll_offset == if old(self).scroll_offset <= final(self).selected {
                old(self).scroll_offset
            } else {
                final(self).selected
            },
            same_place(*final(self), *old(self)),
            same_dialogs(*final(self), *old(self)),
            final(self).message == old(self).message,
    {
        let up_path = match &self.archive_state {
            Some(a) => match parent(a.archive_path.as_str()) {
                Some(p) => p,
                None => self.cwd.clone(),
            },
            None => match parent(self.cwd.as_str()) {
                Some(p) => p,
                None => self.cwd.clone(),
            },
        };
        let mut name = String::new();
        crate::text::push_char(&mut name, '.');
        crate::text::push_char(&mut name, '.');
        assert(name@ =~= seq!['.', '.']);
        let mut out: Vec<DirEntry> = Vec::new();
        out.push(DirEntry { name, path: up_path, kind: EntryKind::Dir, size: 0, modified: None });
        let mut rest = archive_entries_to_direntries(self.cwd.as_str(), archive_entries);
        out.append(&mut rest);
        self.set_entries(out);
    }

    /// Shows the current remote directory: `..` (the parent of the current
    /// path, or the path itself), then the remote listing when it can be had.
    pub fn show_remote(&mut self)
        ensures
            selection_valid(*final(self)),
            final(self).entries@.len() >= 1,
            final(self).entries@[0]@ == up_entry_view(old(self).cwd@),
            old(self).remote_fs is Disconnected ==> final(self).entries@.len() == 1,
            old(self).remote_fs matches RemoteFs::Connected(c) ==> {
                &&& final(self).entries@.len() == 3
                &&& final(self).entries@[1]@ == up_entry_view(old(self).cwd@)
                &&& final(self).entries@[2]@ == remote_entry_view(c.user@, c.host@, old(self).cwd@)
            },
            final(self).selected == clamped(old(self).selected as int, final(self).entries@.len() as int),
            final(self).scroll_offset == if old(self).scroll_offset <= final(self).selected {
                old(self).scroll_offset
            } else {
                final(self).selected
            },
            same_place(*final(self), *old(self)),
            same_dialogs(*final(self), *old(self)),
            final(self).message == old(self).message,
    {
        let mut out: Vec<DirEntry> = Vec::new();
        out.push(up_entry(self.cwd.as_str()));
        match self.remote_fs.list_dir(self.cwd.as_str()) {
            Ok(mut listed) => {
                out.append(&mut listed);
            },
            Err(_) => {},
        }
        self.set_entries(out);
    }

    /// Sets the status message.
    pub fn set_message(&mut self, msg: String)
        ensures
            final(self).message == Some(msg),
            final(self).entries == old(self).entries,
            final(self).selected == old(self).selected,
            final(self).scroll_offset == old(self).scroll_offset,
            final(self).key_buffer == old(self).key_buffer,
            final(self).quit == old(self).quit,
            same_place(*final(self), *old(self)),
            same_dialogs(*final(self), *old(self)),
    {
        self.message = Some(msg);
    }

    /// Clears the status message (when it has been shown long enough).
    pub fn clear_message(&mut self)
        ensures
            final(self).message is None,
            final(self).entries == old(self).entries,
            final(self).selected == old(self).selected,
            final(self).scroll_offset == old(self).scroll_offset,
            final(self).key_buffer == old(self).key_buffer,
            final(self).quit == old(self).quit,
            same_place(*final(self), *old(self)),
            same_dialogs(*final(self), *old(self)),
    {
        self.message = None;
    }

    /// Clears the status message once it has been shown for more than
    /// `MESSAGE_TIMEOUT_NANOS`; `shown_for` is how long it has been shown (none
    /// when no shown message is being timed). Says whether it cleared it.
    pub fn clear_expired_message(&mut self, shown_for: Option<u128>) -> (cleared: bool)
        ensures
            cleared == (shown_for matches Some(t) && t > MESSAGE_TIMEOUT_NANOS),
            cleared ==> final(self).message is None,
            !cleared ==> final(self).message == old(self).message,
            final(self).entries == old(self).entries,
            final(self).selected == old(self).selected,
            final(self).scroll_offset == old(self).scroll_offset,
            final(self).key_buffer == old(self).key_buffer,
            final(self).quit == old(self).quit,
            same_place(*final(self), *old(self)),
            same_dialogs(*final(self), *old(self)),
    {
        match shown_for {
            Some(t) => if t > MESSAGE_TIMEOUT_NANOS {
                self.clear_message();
                true
            } else {
                false
            },
            None => false,
        }
    }

    /// The selected entry, if the listing has one at the selection.
    pub fn selected_entry(&self) -> (r: Option<&DirEntry>)
        ensures
            r == if self.selected < self.entries@.len() {
                Some(&self.entries@[self.selected as int])
            } else {
                None::<&DirEntry>
            },
    {
        if self.selected < self.entries.len() {
            Some(&self.entries[self.selected])
        } else {
            None
        }
    }

    /// Moves the selection `n` entries down, stopping at the last entry.
    pub fn move_down(&mut self, n: usize)
        ensures
            selection_valid(*old(self)) ==> selection_valid(*final(self)),
            final(self).selected == if old(self).entries@.len() == 0 {
                old(self).selected as int
            } else {
                clamped(old(self).selected + n, old(self).entries@.len() as int)
            },
            final(self).entries == old(self).entries,
            final(self).scroll_offset == old(self).scroll_offset,
            final(self).message == old(self).message,
            same_place(*final(self), *old(self)),
            same_dialogs(*final(self), *old(self)),
    {
        let len = self.entries.len();
        if len == 0 {
            return;
        }
        let last = len - 1;
        if self.selected >= last || n >= last - self.selected {
            self.selected = last;
        } else {
            self.selected = self.selected + n;
        }
    }

    /// Moves the selection `n` entries up, stopping at the first entry.
    pub fn move_up(&mut self, n: usize)
        ensures
            selection_valid(*old(self)) ==> selection_valid(*final(self)),
            final(self).selected == if old(self).selected >= n {
                old(self).selected - n
            } else {
                0
            },
            final(self).entries == old(self).entries,
            final(self).scroll_offset == old(self).scroll_offset,
            final(self).message == old(self).message,
            same_place(*final(self), *old(self)),
            same_dialogs(*final(self), *old(self)),
    {
        if self.selected >= n {
            self.selected = self.selected - n;
        } else {
            self.selected = 0;
        }
    }

    /// Keeps the selection in a window of `visible_rows` rows starting at the
    /// scroll position, scrolling as little as needed.
    pub fn scroll_into_view(&mut self, visible_rows: usize)
        requires
            visible_rows > 0,
        ensures
            final(self).scroll_offset == if old(self).selected >= old(self).scroll_offset + visible_rows {
                old(self).selected - (visible_rows - 1)
            } else if old(self).selected < old(self).scroll_offset {
                old(self).selected as int
            } else {
                old(self).scroll_offset as int
            },
            final(self).selected == old(self).selected,
            final(self).entries == old(self).entries,
            final(self).message == old(self).message,
            same_place(*final(self), *old(self)),
            same_dialogs(*final(self), *old(self)),
    {
        if self.selected >= self.scroll_offset && self.selected - self.scroll_offset >= visible_rows {
            self.scroll_offset = self.selected - (visible_rows - 1);
        } else if self.selected < self.scroll_offset {
            self.scroll_offset = self.selected;
        }
    }
}

} // verus!

verus! {

/// What a key does in the file list.
#[derive(Debug, Clone, Copy, PartialEq, Eq, Structural)]
pub enum Command {
    Quit,
    Down,
    Up,
    Parent,
    Open,
    Top,
    Bottom,
    Home,
    ToggleHidden,
    ToggleSelect,
    Chmod,
    DiskUsage,
    Remote,
    Delete,
    BatchCopy,
    BatchMove,
    Refresh,
    Digit(char),
    Nothing,
}

/// The command of a key in the file list: `q` quits, `j`/`k` and the arrows
/// move, `h`/Left goes up, `l`/Right/Enter opens, `g`/`G` go to the ends, `~`
/// or `` ` `` goes home, `.` toggles hidden files, Space selects, `c` chmod,
/// `d` disk usage, `r` remote, `R` refresh, `D` delete, `C` copy, `M` move,
/// digits jump.
pub open spec fn normal_command(key: KeyCode) -> Command {
    match key {
        KeyCode::Char(c) => if c == 'q' || c == 'Q' {
            Command::Quit
        } else if c == 'j' {
            Command::Down
        } else if c == 'k' {
            Command::Up
        } else if c == 'h' {
            Command::Parent
        } else if c == 'l' {
            Command::Open
        } else if c == 'g' {
            Command::Top
        } else if c == 'G' {
            Command::Bottom
        } else if c == '~' || c == '`' {
            Command::Home
        } else if c == '.' {
            Command::ToggleHidden
        } else if c == ' ' {
            Command::ToggleSelect
        } else if c == 'c' {
            Command::Chmod
        } else if c == 'd' {
            Command::DiskUsage
        } else if c == 'r' {
            Command::Remote
        } else if c == 'R' {
            Command::Refresh
        } else if c == 'D' {
            Command::Delete
        } else if c == 'C' {
            Command::BatchCopy
        } else if c == 'M' {
            Command::BatchMove
        } else if '0' <= c && c <= '9' {
            Command::Digit(c)
        } else {
            Command::Nothing
        },
        KeyCode::Down => Command::Down,
        KeyCode::Up => Command::Up,
        KeyCode::Left => Command::Parent,
        KeyCode::Right => Command::Open,
        KeyCode::Enter => Command::Open,
        _ => Command::Nothing,
    }
}

/// The command of a key in the file list.
pub fn command_for_key(key: &KeyCode) -> (c: Command)
    ensures
        c == normal_command(*key),
{
    match key {
        KeyCode::Char(c) => {
            let c = *c;
            if c == 'q' || c == 'Q' {
                Command::Quit
            } else if c == 'j' {
                Command::Down
            } else if c == 'k' {
                Command::Up
            } else if c == 'h' {
                Command::Parent
            } else if c == 'l' {
                Command::Open
            } else if c == 'g' {
                Command::Top
            } else if c == 'G' {
                Command::Bottom
            } else if c == '~' || c == '`' {
                Command::Home
            } else if c == '.' {
                Command::ToggleHidden
            } else if c == ' ' {
                Command::ToggleSelect
            } else if c == 'c' {
                Command::Chmod
            } else if c == 'd' {
                Command::DiskUsage
            } else if c == 'r' {
                Command::Remote
            } else if c == 'R' {
                Command::Refresh
            } else if c == 'D' {
                Command::Delete
            } else if c == 'C' {
                Command::BatchCopy
            } else if c == 'M' {
                Command::BatchMove
            } else if '0' <= c && c <= '9' {
                Command::Digit(c)
            } else {
                Command::Nothing
            }
        },
        KeyCode::Down => Command::Down,
        KeyCode::Up => Command::Up,
        KeyCode::Left => Command::Parent,
        KeyCode::Right => Command::Open,
        KeyCode::Enter => Command::Open,
        _ => Command::Nothing,
    }
}

/// Outside work a step of the browser asks for.
#[derive(Debug, Clone)]
pub enum Effect {
    /// Nothing.
    Idle,
    /// List the listing source again and show it.
    Reload,
    /// Go to the home directory (`go_to`), if one is known.
    GoHome,
    /// Read the mode of this path and open the chmod dialog on it.
    ReadMode(String),
    /// Set the mode of this path, and report with `chmod_finished`.
    SetMode(String, u32),
    /// Measure the entries of this directory and open the disk usage view.
    MeasureDir(String),
    /// Remove this file, and report with `delete_finished`.
    DeleteFile(String),
    /// Run a batch action on these paths, and report with `batch_finished`.
    RunBatch(BatchAction, Vec<String>),
}

/// `Hidden files: ON` or `Hidden files: OFF`.
pub open spec fn hidden_message(show: bool) -> Seq<char> {
    "Hidden files: "@ + if show {
        "ON"@
    } else {
        "OFF"@
    }
}

impl Browser {
    /// `q`: closes the disk usage view when it is open, else quits.
    pub fn quit_key(&mut self)
        ensures
            quit_key_post(*old(self), *final(self)),
    {
        if self.disk_usage.visible {
            self.disk_usage.close();
        } else {
            self.quit = true;
        }
    }

    /// Down: the next disk usage entry when that view is open, else the next
    /// entry of the listing.
    pub fn down_key(&mut self)
        ensures
            down_key_post(*old(self), *final(self)),
    {
        if self.disk_usage.visible {
            self.disk_usage.move_down();
        } else {
            self.move_down(1);
        }
    }

    /// Up: the previous disk usage entry when that view is open, else the
    /// previous entry of the listing.
    pub fn up_key(&mut self)
        ensures
            up_key_post(*old(self), *final(self)),
    {
        if self.disk_usage.visible {
            self.disk_usage.move_up();
        } else {
            self.move_up(1);
        }
    }

    /// `g`: the first entry (of the disk usage view when it is open).
    pub fn top_key(&mut self)
        ensures
            top_key_post(*old(self), *final(self)),
    {
        if self.disk_usage.visible {
            self.disk_usage.selected = 0;
        } else {
            self.selected = 0;
            self.scroll_offset = 0;
        }
    }

    /// `G`: the last entry (of the disk usage view when it is open); nothing
    /// when the list is empty.
    pub fn bottom_key(&mut self)
        ensures
            bottom_key_post(*old(self), *final(self)),
    {
        if self.disk_usage.visible {
            if self.disk_usage.entries.len() > 0 {
                self.disk_usage.selected = self.disk_usage.entries.len() - 1;
            }
        } else if self.entries.len() > 0 {
            self.selected = self.entries.len() - 1;
        }
    }

    /// Goes to directory `dir` (leaving any archive), at the top of its listing.
    pub fn go_to(&mut self, dir: String) -> (e: Effect)
        ensures
            e is Reload,
            final(self).cwd == dir,
            final(self).selected == 0,
            final(self).scroll_offset == 0,
            final(self).archive_state is None,
            final(self).show_hidden == old(self).show_hidden,
            final(self).remote_fs == old(self).remote_fs,
            same_dialogs(*final(self), *old(self)),
            final(self).message == old(self).message,
    {
        self.cwd = dir;
        self.selected = 0;
        self.scroll_offset = 0;
        self.archive_state = None;
        Effect::Reload
    }

    /// `h`: leaves the archive being browsed (to the directory holding it), or
    /// goes to the parent directory; nothing at a root.
    pub fn go_parent(&mut self) -> (e: Effect)
        ensures
            go_parent_post(*old(self), *final(self), e),
    {
        if self.archive_state.is_some() {
            self.archive_state = None;
            if let Some(p) = parent(self.cwd.as_str()) {
                self.cwd = p;
            }
            self.selected = 0;
            self.scroll_offset = 0;
            Effect::Reload
        } else {
            match parent(self.cwd.as_str()) {
                Some(p) => {
                    self.cwd = p;
                    self.selected = 0;
                    self.scroll_offset = 0;
                    Effect::Reload
                },
                None => Effect::Idle,
            }
        }
    }

    /// `.`: shows or hides hidden files, and says which.
    pub fn toggle_hidden(&mut self) -> (e: Effect)
        ensures
            toggle_hidden_post(*old(self), *final(self), e),
    {
        self.show_hidden = !self.show_hidden;
        let mut m = String::from_str("Hidden files: ");
        if self.show_hidden {
            m.append("ON");
        } else {
            m.append("OFF");
        }
        self.set_message(m);
        Effect::Reload
    }

    /// Space: selects or deselects the entry at the selection, and says how
    /// many entries are selected.
    pub fn toggle_select(&mut self)
        ensures
            toggle_select_post(*old(self), *final(self)),
    {
        let sel = self.selected;
        self.batch_selection.toggle(sel);
        let count = self.batch_selection.count();
        let mut m = decimal_string(count as u128);
        m.append(" items selected");
        self.set_message(m);
    }

    /// `c`: opens the chmod dialog on the selected entry, once its mode is read.
    pub fn chmod_key(&mut self) -> (e: Effect)
        ensures
            chmod_key_post(*old(self), *final(self), e),
    {
        if self.selected < self.entries.len() {
            let p = self.entries[self.selected].path.clone();
            self.input_mode = InputMode::Chmod;
            Effect::ReadMode(p)
        } else {
            Effect::Idle
        }
    }

    /// `d`: closes the disk usage view, or asks for the current directory to
    /// be measured and says so.
    pub fn disk_usage_key(&mut self) -> (e: Effect)
        ensures
            disk_usage_key_post(*old(self), *final(self), e),
    {
        if self.disk_usage.visible {
            self.disk_usage.close();
            Effect::Idle
        } else {
            let d = self.cwd.clone();
            self.set_message(String::from_str("Disk usage analyzer"));
            Effect::MeasureDir(d)
        }
    }

    /// `r`: disconnects and goes home when connected; otherwise opens the
    /// connect dialog with an empty input.
    pub fn remote_key(&mut self) -> (e: Effect)
        ensures
            remote_key_post(*old(self), *final(self), e),
    {
        if self.remote_fs.is_connected() {
            self.remote_fs.disconnect();
            self.set_message(String::from_str("Disconnected from remote"));
            Effect::GoHome
        } else {
            self.input_mode = InputMode::RemoteConnect;
            crate::text::clear_string(&mut self.input_buffer);
            Effect::Idle
        }
    }
}

} // verus!

verus! {

/// The label of an archive type.
pub open spec fn type_label(t: ArchiveType) -> Seq<char> {
    match t {
        ArchiveType::Zip => "ZIP"@,
        ArchiveType::Tar => "TAR"@,
        ArchiveType::TarGz => "TAR.GZ"@,
    }
}

/// How long after the previous digit a digit still adds to the typed number
/// (800 ms).
pub const DIGIT_TIMEOUT_NANOS: u128 = 800_000_000;

/// How long a status message stays shown (3 s).
pub const MESSAGE_TIMEOUT_NANOS: u128 = 3_000_000_000;

/// The key buffer after typing digit `c`: a buffer typed too long ago is
/// started afresh.
pub open spec fn next_key_buffer(old_buffer: Seq<char>, c: char, in_time: bool) -> Seq<char> {
    if in_time {
        old_buffer.push(c)
    } else {
        seq![c]
    }
}

/// The selection after the typed number `buffer`: entry `n` (counted from 1)
/// when `n` is an entry of the listing, else unchanged.
pub open spec fn jump_target(buffer: Seq<char>, len: nat, selected: usize) -> usize {
    match parse_usize_of(buffer) {
        Some(n) => if 1 <= n && n <= len {
            (n - 1) as usize
        } else {
            selected
        },
        None => selected,
    }
}

impl Browser {
    /// `l`/Enter: enters the selected directory, or starts browsing the
    /// selected archive (saying which kind); nothing while the disk usage view
    /// is open or for other entries.
    pub fn open_selected(&mut self) -> (e: Effect)
        ensures
            open_selected_post(*old(self), *final(self), e),
    {
        if self.disk_usage.visible || self.selected >= self.entries.len() {
            return Effect::Idle;
        }
        let kind = self.entries[self.selected].kind;
        let path = self.entries[self.selected].path.clone();
        match kind {
            EntryKind::Dir => {
                self.cwd = path;
                self.selected = 0;
                self.scroll_offset = 0;
                self.archive_state = None;
                Effect::Reload
            },
            EntryKind::Archive => match detect_archive(path.as_str()) {
                Some(t) => {
                    let mut m = String::from_str("Browsing ");
                    m.append(archive_type_name(&t));
                    m.append(" archive");
                    self.archive_state = Some(ArchiveState { archive_path: path.clone(), archive_type: t });
                    self.cwd = path;
                    self.selected = 0;
                    self.scroll_offset = 0;
                    self.set_message(m);
                    Effect::Reload
                },
                None => Effect::Idle,
            },
            _ => Effect::Idle,
        }
    }

    /// `D`: with a batch selection, opens the batch delete dialog; otherwise
    /// asks to remove the selected entry (not `..`).
    pub fn delete_key(&mut self) -> (e: Effect)
        ensures
            delete_key_post(*old(self), *final(self), e),
    {
        if self.batch_selection.active {
            self.input_mode = InputMode::Batch;
            self.batch_dialog.open(BatchActionType::Delete);
            return Effect::Idle;
        }
        if self.selected < self.entries.len() {
            let is_up = {
                let cs = chars_of(self.entries[self.selected].name.as_str());
                let r = cs.len() == 2 && cs[0] == '.' && cs[1] == '.';
                assert(r == (cs@ == seq!['.', '.'])) by {
                    if cs@.len() == 2 {
                        assert(r ==> cs@ =~= seq!['.', '.']);
                    }
                }
                r
            };
            if !is_up {
                return Effect::DeleteFile(self.entries[self.selected].path.clone());
            }
        }
        Effect::Idle
    }

    /// What removing the file named `name` gave: `Deleted: <name>` and a
    /// reload, or `Delete failed: <error>`.
    pub fn delete_finished(&mut self, name: &str, result: Result<(), String>) -> (e: Effect)
        ensures
            match result {
                Ok(_) => e is Reload && (final(self).message matches Some(m) && m@ == "Deleted: "@ + name@),
                Err(err) => e is Idle && (final(self).message matches Some(m) && m@ == "Delete failed: "@
                    + err@),
            },
            final(self).entries == old(self).entries,
            final(self).selected == old(self).selected,
            same_place(*final(self), *old(self)),
            same_dialogs(*final(self), *old(self)),
    {
        match result {
            Ok(_) => {
                let mut m = String::from_str("Deleted: ");
                m.append(name);
                self.set_message(m);
                Effect::Reload
            },
            Err(err) => {
                let mut m = String::from_str("Delete failed: ");
                m.append(err.as_str());
                self.set_message(m);
                Effect::Idle
            },
        }
    }

    /// `C` or `M`: with a batch selection, opens the batch dialog for the action.
    pub fn batch_key(&mut self, kind: BatchActionType)
        ensures
            batch_key_post(*old(self), *final(self), kind),
    {
        if self.batch_selection.active {
            self.input_mode = InputMode::Batch;
            self.batch_dialog.open(kind);
        }
    }

    /// A digit, typed `since_last_digit` nanoseconds after the previous digit: adds
    /// it to the typed number (started afresh when that is more than
    /// `DIGIT_TIMEOUT_NANOS`) and selects that entry, counted from 1, if there is
    /// one.
    pub fn digit_key(&mut self, c: char, since_last_digit: u128)
        ensures
            digit_key_post(*old(self), *final(self), c, since_last_digit),
    {
        let in_time = since_last_digit <= DIGIT_TIMEOUT_NANOS;
        if !in_time {
            crate::text::clear_string(&mut self.key_buffer);
        }
        crate::text::push_char(&mut self.key_buffer, c);
        assert(self.key_buffer@ =~= next_key_buffer(old(self).key_buffer@, c, in_time));
        let cs = chars_of(self.key_buffer.as_str());
        match parse_usize(&cs) {
            Some(n) => {
                if n > 0 && n <= self.entries.len() {
                    self.selected = n - 1;
                }
            },
            None => {},
        }
    }
}

} // verus!

verus! {

/// The batch action a dialog asks for, with the typed destination.
pub open spec fn dialog_action(kind: BatchActionType, input: Seq<char>, action: BatchAction) -> bool {
    match kind {
        BatchActionType::Delete => action is Delete,
        BatchActionType::Copy => action matches BatchAction::Copy { dest } && dest@ == input,
        BatchActionType::Move => action matches BatchAction::Move { dest } && dest@ == input,
    }
}

impl Browser {
    /// A key in the chmod dialog: Esc cancels; Enter asks for the typed mode to
    /// be set (or reports why it cannot be); Backspace and characters edit.
    pub fn chmod_input(&mut self, key: &KeyCode) -> (e: Effect)
        ensures
            chmod_input_post(*old(self), *final(self), *key, e),
    {
        match key {
            KeyCode::Esc => {
                self.input_mode = InputMode::Normal;
                self.chmod_dialog.close();
                Effect::Idle
            },
            KeyCode::Enter => {
                let r = self.chmod_dialog.apply();
                self.input_mode = InputMode::Normal;
                self.chmod_dialog.close();
                match r {
                    Ok((p, m)) => Effect::SetMode(p, m),
                    Err(err) => {
                        let mut t = String::from_str("Chmod error: ");
                        t.append(err.as_str());
                        self.set_message(t);
                        Effect::Idle
                    },
                }
            },
            KeyCode::Backspace => {
                self.chmod_dialog.pop_char();
                Effect::Idle
            },
            KeyCode::Char(c) => {
                self.chmod_dialog.push_char(*c);
                Effect::Idle
            },
            _ => Effect::Idle,
        }
    }

    /// What setting a mode gave: `Permissions updated` and a reload, or
    /// `Chmod error: <error>`.
    pub fn chmod_finished(&mut self, result: Result<(), String>) -> (e: Effect)
        ensures
            match result {
                Ok(_) => e is Reload && (final(self).message matches Some(m) && m@ == "Permissions updated"@),
                Err(err) => e is Idle && (final(self).message matches Some(m) && m@ == "Chmod error: "@
                    + err@),
            },
            final(self).entries == old(self).entries,
            final(self).selected == old(self).selected,
            same_place(*final(self), *old(self)),
            same_dialogs(*final(self), *old(self)),
    {
        match result {
            Ok(_) => {
                self.set_message(String::from_str("Permissions updated"));
                Effect::Reload
            },
            Err(err) => {
                let mut t = String::from_str("Chmod error: ");
                t.append(err.as_str());
                self.set_message(t);
                Effect::Idle
            },
        }
    }

    /// A key in the batch dialog: Esc cancels; Enter asks for the dialog's
    /// action to be run on the paths of the selected entries (in the order the
    /// selection gives them); Backspace and characters edit the destination.
    pub fn batch_input(&mut self, key: &KeyCode) -> (e: Effect)
        ensures
            batch_input_post(*old(self), *final(self), *key, e),
    {
        match key {
            KeyCode::Esc => {
                self.input_mode = InputMode::Normal;
                self.batch_dialog.close();
                Effect::Idle
            },
            KeyCode::Enter => {
                let kind = self.batch_dialog.action;
                let dest = self.batch_dialog.input.clone();
                let e = match kind {
                    Some(k) => {
                        let action = match k {
                            BatchActionType::Delete => BatchAction::Delete,
                            BatchActionType::Copy => BatchAction::Copy { dest },
                            BatchActionType::Move => BatchAction::Move { dest },
                        };
                        let chosen = self.batch_selection.get_selected_entries(self.entries.as_slice());
                        let mut paths: Vec<String> = Vec::new();
                        let mut i: usize = 0;
                        while i < chosen.len()
                            invariant
                                i <= chosen.len(),
                                paths@.len() == i,
                                forall|j: int| 0 <= j < i ==> #[trigger] paths@[j]@ == chosen@[j].path@,
                            decreases chosen.len() - i,
                        {
                            paths.push(chosen[i].path.clone());
                            i = i + 1;
                        }
                        proof {
                            let order = choose|order: Seq<usize>|
                                {
                                    &&& order.no_duplicates()
                                    &&& order.to_set() == self.batch_selection.selected_indices@
                                    &&& chosen@ == order.filter(|i: usize| i < self.entries@.len()).map_values(
                                        |i: usize| &self.entries@[i as int],
                                    )
                                };
                            assert(paths@.map_values(|p: String| p@) =~= order.filter(
                                |i: usize| i < self.entries@.len(),
                            ).map_values(|i: usize| self.entries@[i as int].path@));
                        }
                        Effect::RunBatch(action, paths)
                    },
                    None => Effect::Idle,
                };
                self.input_mode = InputMode::Normal;
                self.batch_dialog.close();
                e
            },
            KeyCode::Backspace => {
                self.batch_dialog.pop_char();
                Effect::Idle
            },
            KeyCode::Char(c) => {
                self.batch_dialog.push_char(*c);
                Effect::Idle
            },
            _ => Effect::Idle,
        }
    }

    /// What a batch action gave: `Batch: <s> succeeded, <f> failed`, the
    /// selection cleared and a reload; or `Batch error: <error>`.
    pub fn batch_finished(&mut self, result: Result<(usize, usize), String>) -> (e: Effect)
        ensures
            match result {
                Ok((s, f)) => {
                    &&& e is Reload
                    &&& (final(self).message matches Some(m) && m@ == "Batch: "@ + decimal(s as nat)
                        + " succeeded, "@ + decimal(f as nat) + " failed"@)
                    &&& final(self).batch_selection.selected_indices@ == Set::<usize>::empty()
                    &&& !final(self).batch_selection.active
                },
                Err(err) => {
                    &&& e is Idle
                    &&& (final(self).message matches Some(m) && m@ == "Batch error: "@ + err@)
                    &&& final(self).batch_selection == old(self).batch_selection
                },
            },
            final(self).entries == old(self).entries,
            final(self).selected == old(self).selected,
            final(self).input_mode == old(self).input_mode,
            final(self).batch_dialog == old(self).batch_dialog,
            same_place(*final(self), *old(self)),
    {
        match result {
            Ok((s, f)) => {
                let mut m = String::from_str("Batch: ");
                let st = decimal_string(s as u128);
                m.append(st.as_str());
                m.append(" succeeded, ");
                let ft = decimal_string(f as u128);
                m.append(ft.as_str());
                m.append(" failed");
                self.set_message(m);
                self.batch_selection.clear();
                Effect::Reload
            },
            Err(err) => {
                let mut m = String::from_str("Batch error: ");
                m.append(err.as_str());
                self.set_message(m);
                Effect::Idle
            },
        }
    }

    /// A key in the connect dialog: Esc cancels; Enter connects to the typed
    /// target (`user@host`, or a host for `default_user`) and goes to
    /// `/home/<user>`, or reports an invalid target; Backspace and characters
    /// edit.
    pub fn remote_input(&mut self, key: &KeyCode, default_user: Option<String>) -> (e: Effect)
        ensures
            remote_input_post(*old(self), *final(self), *key, default_user, e),
    {
        match key {
            KeyCode::Esc => {
                self.input_mode = InputMode::Normal;
                crate::text::clear_string(&mut self.input_buffer);
                Effect::Idle
            },
            KeyCode::Enter => {
                let target = parse_ssh_target(self.input_buffer.as_str(), default_user);
                let e = match target {
                    Some((user, host)) => {
                        match self.remote_fs.connect(host.as_str(), user.as_str()) {
                            Ok(_) => {
                                let mut m = String::from_str("Connected to ");
                                m.append(user.as_str());
                                crate::text::push_char(&mut m, '@');
                                m.append(host.as_str());
                                assert(m@ == "Connected to "@ + connection_text(user@, host@));
                                let ghost mv = m@;
                                self.set_message(m);
                                assert(self.message matches Some(x) && x@ == mv);
                                self.cwd = join("/home", user.as_str());
                                self.selected = 0;
                                self.scroll_offset = 0;
                                Effect::Reload
                            },
                            Err(err) => {
                                let mut m = String::from_str("Connection failed: ");
                                let t = crate::files::io_error_text(&err);
                                m.append(t.as_str());
                                self.set_message(m);
                                Effect::Idle
                            },
                        }
                    },
                    None => {
                        self.set_message(String::from_str("Invalid SSH target"));
                        Effect::Idle
                    },
                };
                self.input_mode = InputMode::Normal;
                crate::text::clear_string(&mut self.input_buffer);
                e
            },
            KeyCode::Backspace => {
                crate::text::pop_char(&mut self.input_buffer);
                Effect::Idle
            },
            KeyCode::Char(c) => {
                crate::text::push_char(&mut self.input_buffer, *c);
                Effect::Idle
            },
            _ => Effect::Idle,
        }
    }
}

} // verus!

verus! {

/// The place of a group in a listing: directories, then files, then archives.
pub open spec fn group_rank(kind: EntryKind) -> int {
    match group_of(kind) {
        Group::Dirs => 0,
        Group::Files => 1,
        Group::Archives => 2,
    }
}

proof fn lemma_group_members(raw: Seq<FsEntry>, show_hidden: bool, g: Group)
    ensures
        forall|k: int|
            0 <= k < group_entries(raw, show_hidden, g).len() ==> {
                &&& group_of((#[trigger] group_entries(raw, show_hidden, g)[k]).kind) == g
                &&& (show_hidden || !is_hidden(group_entries(raw, show_hidden, g)[k].name))
            },
    decreases raw.len(),
{
    if raw.len() > 0 {
        lemma_group_members(raw.drop_last(), show_hidden, g);
    }
}

proof fn lemma_sorted_members(src: Seq<DirEntryView>, out: Seq<DirEntryView>, g: Group, show_hidden: bool)
    requires
        sorted_by_name(src, out),
        forall|k: int|
            0 <= k < src.len() ==> group_of((#[trigger] src[k]).kind) == g && (show_hidden || !is_hidden(
                src[k].name,
            )),
    ensures
        forall|k: int|
            0 <= k < out.len() ==> group_of((#[trigger] out[k]).kind) == g && (show_hidden || !is_hidden(
                out[k].name,
            )),
{
    let order = choose|order: Seq<int>| is_stable_order(name_keys(src), order) && out == arranged(src, order);
    assert forall|k: int| 0 <= k < out.len() implies group_of((#[trigger] out[k]).kind) == g && (show_hidden
        || !is_hidden(out[k].name)) by {
        assert(out[k] == src[order[k]]);
        assert(0 <= order[k] < name_keys(src).len());
    }
}

/// A listing shows `..` first, then the directories, then the other files,
/// then the archives; and no hidden (dot) name unless hidden files are shown.
pub proof fn law_listing_order(dir: Seq<char>, raw: Seq<FsEntry>, show_hidden: bool, out: Seq<DirEntryView>)
    requires
        is_dir_listing(dir, raw, show_hidden, out),
    ensures
        out.len() >= 1,
        out[0] == up_entry_view(dir),
        forall|i: int, j: int|
            1 <= i < j < out.len() ==> group_rank((#[trigger] out[i]).kind) <= group_rank((#[trigger] out[j]).kind),
        !show_hidden ==> forall|i: int| 1 <= i < out.len() ==> !is_hidden((#[trigger] out[i]).name),
{
    let (d, f, a) = choose|d: Seq<DirEntryView>, f: Seq<DirEntryView>, a: Seq<DirEntryView>|
        #![trigger sorted_by_name(group_entries(raw, show_hidden, Group::Dirs), d), sorted_by_name(group_entries(raw, show_hidden, Group::Files), f), sorted_by_name(group_entries(raw, show_hidden, Group::Archives), a)]
        {
            &&& sorted_by_name(group_entries(raw, show_hidden, Group::Dirs), d)
            &&& sorted_by_name(group_entries(raw, show_hidden, Group::Files), f)
            &&& sorted_by_name(group_entries(raw, show_hidden, Group::Archives), a)
            &&& out == seq![up_entry_view(dir)] + d + f + a
        };
    lemma_group_members(raw, show_hidden, Group::Dirs);
    lemma_group_members(raw, show_hidden, Group::Files);
    lemma_group_members(raw, show_hidden, Group::Archives);
    lemma_sorted_members(group_entries(raw, show_hidden, Group::Dirs), d, Group::Dirs, show_hidden);
    lemma_sorted_members(group_entries(raw, show_hidden, Group::Files), f, Group::Files, show_hidden);
    lemma_sorted_members(group_entries(raw, show_hidden, Group::Archives), a, Group::Archives, show_hidden);
    assert forall|i: int| 1 <= i < out.len() implies {
        &&& (i < 1 + d.len() ==> group_rank(out[i].kind) == 0)
        &&& (1 + d.len() <= i < 1 + d.len() + f.len() ==> group_rank(out[i].kind) == 1)
        &&& (1 + d.len() + f.len() <= i ==> group_rank(out[i].kind) == 2)
        &&& (show_hidden || !is_hidden(out[i].name))
    } by {
        if i < 1 + d.len() {
            assert(out[i] == d[i - 1]);
        } else if i < 1 + d.len() + f.len() {
            assert(out[i] == f[i - 1 - d.len()]);
        } else {
            assert(out[i] == a[i - 1 - d.len() - f.len()]);
        }
    }
}

/// What `quit_key` does, from the state `old` to the state `new`.
pub open spec fn quit_key_post(old: Browser, new: Browser) -> bool {
    &&& (old.disk_usage.visible ==> !new.disk_usage.visible && new.quit
        == old.quit)
    &&& (!old.disk_usage.visible ==> new.quit && new.disk_usage
        == old.disk_usage)
    &&& (new.entries == old.entries)
    &&& (new.selected == old.selected)
    &&& (same_place(new, old))
    &&& (new.message == old.message)
}

/// What `down_key` does, from the state `old` to the state `new`.
pub open spec fn down_key_post(old: Browser, new: Browser) -> bool {
    &&& (selection_valid(old) ==> selection_valid(new))
    &&& (old.disk_usage.visible ==> new.selected == old.selected
        && new.disk_usage.selected == if old.disk_usage.entries@.len() == 0 {
        old.disk_usage.selected as int
    } else {
        clamped(old.disk_usage.selected + 1, old.disk_usage.entries@.len() as int)
    })
    &&& (!old.disk_usage.visible ==> new.disk_usage == old.disk_usage
        && new.selected == if old.entries@.len() == 0 {
        old.selected as int
    } else {
        clamped(old.selected + 1, old.entries@.len() as int)
    })
    &&& (new.entries == old.entries)
    &&& (same_place(new, old))
    &&& (new.message == old.message)
}

/// What `up_key` does, from the state `old` to the state `new`.
pub open spec fn up_key_post(old: Browser, new: Browser) -> bool {
    &&& (selection_valid(old) ==> selection_valid(new))
    &&& (old.disk_usage.visible ==> new.selected == old.selected
        && new.disk_usage.selected == if old.disk_usage.selected > 0 {
        old.disk_usage.selected - 1
    } else {
        0
    })
    &&& (!old.disk_usage.visible ==> new.disk_usage == old.disk_usage
        && new.selected == if old.selected > 0 {
        old.selected - 1
    } else {
        0
    })
    &&& (new.entries == old.entries)
    &&& (same_place(new, old))
    &&& (new.message == old.message)
}

/// What `top_key` does, from the state `old` to the state `new`.
pub open spec fn top_key_post(old: Browser, new: Browser) -> bool {
    &&& (selection_valid(old) ==> selection_valid(new))
    &&& (old.disk_usage.visible ==> new.disk_usage.selected == 0
        && new.selected == old.selected)
    &&& (!old.disk_usage.visible ==> new.selected == 0 && new.scroll_offset
        == 0 && new.disk_usage == old.disk_usage)
    &&& (new.entries == old.entries)
    &&& (same_place(new, old))
    &&& (new.message == old.message)
}

/// What `bottom_key` does, from the state `old` to the state `new`.
pub open spec fn bottom_key_post(old: Browser, new: Browser) -> bool {
    &&& (selection_valid(old) ==> selection_valid(new))
    &&& (old.disk_usage.visible ==> new.selected == old.selected
        && new.disk_usage.selected == if old.disk_usage.entries@.len() > 0 {
        old.disk_usage.entries@.len() - 1
    } else {
        old.disk_usage.selected as int
    })
    &&& (!old.disk_usage.visible ==> new.disk_usage == old.disk_usage
        && new.selected == if old.entries@.len() > 0 {
        old.entries@.len() - 1
    } else {
        old.selected as int
    })
    &&& (new.entries == old.entries)
    &&& (same_place(new, old))
    &&& (new.message == old.message)
}

/// What `go_parent` does, from the state `old` to the state `new`.
pub open spec fn go_parent_post(old: Browser, new: Browser, e: Effect) -> bool {
    &&& (old.archive_state is Some ==> {
        &&& e is Reload
        &&& new.archive_state is None
        &&& new.cwd@ == match parent_of(old.cwd@) {
            Some(p) => p,
            None => old.cwd@,
        }
        &&& new.selected == 0
        &&& new.scroll_offset == 0
    })
    &&& (old.archive_state is None ==> match parent_of(old.cwd@) {
        Some(p) => e is Reload && new.cwd@ == p && new.selected == 0
            && new.scroll_offset == 0,
        None => e is Idle && new.cwd == old.cwd && new.selected
            == old.selected && new.scroll_offset == old.scroll_offset,
    })
    &&& (old.archive_state is None ==> new.archive_state is None)
    &&& (new.entries == old.entries)
    &&& (new.show_hidden == old.show_hidden)
    &&& (new.remote_fs == old.remote_fs)
    &&& (same_dialogs(new, old))
    &&& (new.message == old.message)
}

/// What `open_selected` does, from the state `old` to the state `new`.
pub open spec fn open_selected_post(old: Browser, new: Browser, e: Effect) -> bool {
    &&& (({
        let ok = !old.disk_usage.visible && old.selected < old.entries@.len();
        let ent = old.entries@[old.selected as int];
        if ok && ent.kind == EntryKind::Dir {
            &&& e is Reload
            &&& new.cwd@ == ent.path@
            &&& new.archive_state is None
            &&& new.selected == 0
            &&& new.scroll_offset == 0
            &&& new.message == old.message
        } else if ok && ent.kind == EntryKind::Archive && archive_type_of(ent.path@) is Some {
            &&& e is Reload
            &&& new.cwd@ == ent.path@
            &&& (new.archive_state matches Some(a) && a.archive_path@ == ent.path@
                && Some(a.archive_type) == archive_type_of(ent.path@))
            &&& new.selected == 0
            &&& new.scroll_offset == 0
            &&& (new.message matches Some(m) && m@ == "Browsing "@ + type_label(
                archive_type_of(ent.path@)->0,
            ) + " archive"@)
        } else {
            &&& e is Idle
            &&& new.cwd == old.cwd
            &&& new.archive_state == old.archive_state
            &&& new.selected == old.selected
            &&& new.scroll_offset == old.scroll_offset
            &&& new.message == old.message
        }
    }))
    &&& (new.entries == old.entries)
    &&& (new.show_hidden == old.show_hidden)
    &&& (new.remote_fs == old.remote_fs)
    &&& (same_dialogs(new, old))
}

/// What `toggle_hidden` does, from the state `old` to the state `new`.
pub open spec fn toggle_hidden_post(old: Browser, new: Browser, e: Effect) -> bool {
    &&& (e is Reload)
    &&& (new.show_hidden == !old.show_hidden)
    &&& (new.message matches Some(m) && m@ == hidden_message(new.show_hidden))
    &&& (new.cwd == old.cwd)
    &&& (new.archive_state == old.archive_state)
    &&& (new.remote_fs == old.remote_fs)
    &&& (new.entries == old.entries)
    &&& (new.selected == old.selected)
    &&& (same_dialogs(new, old))
}

/// What `toggle_select` does, from the state `old` to the state `new`.
pub open spec fn toggle_select_post(old: Browser, new: Browser) -> bool {
    &&& (new.batch_selection.selected_indices@ == toggled(
        old.batch_selection.selected_indices@,
        old.selected,
    ))
    &&& (new.batch_selection.active == !new.batch_selection.selected_indices@.is_empty())
    &&& (new.message matches Some(m) && m@ == decimal(
        new.batch_selection.selected_indices@.len(),
    ) + " items selected"@)
    &&& (new.entries == old.entries)
    &&& (new.selected == old.selected)
    &&& (same_place(new, old))
}

/// What `chmod_key` does, from the state `old` to the state `new`.
pub open spec fn chmod_key_post(old: Browser, new: Browser, e: Effect) -> bool {
    &&& (old.selected < old.entries@.len() ==> {
        &&& new.input_mode == InputMode::Chmod
        &&& (e matches Effect::ReadMode(p) && p@ == old.entries@[old.selected as int].path@)
    })
    &&& (old.selected >= old.entries@.len() ==> e is Idle && new.input_mode
        == old.input_mode)
    &&& (new.entries == old.entries)
    &&& (new.selected == old.selected)
    &&& (new.chmod_dialog == old.chmod_dialog)
    &&& (same_place(new, old))
    &&& (new.message == old.message)
}

/// What `disk_usage_key` does, from the state `old` to the state `new`.
pub open spec fn disk_usage_key_post(old: Browser, new: Browser, e: Effect) -> bool {
    &&& (old.disk_usage.visible ==> e is Idle && !new.disk_usage.visible
        && new.message == old.message)
    &&& (!old.disk_usage.visible ==> {
        &&& (e matches Effect::MeasureDir(d) && d@ == old.cwd@)
        &&& (new.message matches Some(m) && m@ == "Disk usage analyzer"@)
    })
    &&& (new.entries == old.entries)
    &&& (new.selected == old.selected)
    &&& (same_place(new, old))
}

/// What `remote_key` does, from the state `old` to the state `new`.
pub open spec fn remote_key_post(old: Browser, new: Browser, e: Effect) -> bool {
    &&& (old.remote_fs is Connected ==> {
        &&& e is GoHome
        &&& new.remote_fs is Disconnected
        &&& (new.message matches Some(m) && m@ == "Disconnected from remote"@)
    })
    &&& (old.remote_fs is Disconnected ==> e is Idle && new.input_mode
        == InputMode::RemoteConnect && new.input_buffer@.len() == 0)
    &&& (new.entries == old.entries)
    &&& (new.cwd == old.cwd)
}

/// What `delete_key` does, from the state `old` to the state `new`.
pub open spec fn delete_key_post(old: Browser, new: Browser, e: Effect) -> bool {
    &&& (old.batch_selection.active ==> {
        &&& e is Idle
        &&& new.input_mode == InputMode::Batch
        &&& new.batch_dialog.visible
        &&& new.batch_dialog.action == Some(BatchActionType::Delete)
        &&& new.batch_dialog.input@.len() == 0
    })
    &&& (!old.batch_selection.active ==> {
        &&& new.input_mode == old.input_mode
        &&& new.batch_dialog == old.batch_dialog
        &&& if old.selected < old.entries@.len() && old.entries@[old.selected as int].name@ != seq!['.', '.'] {
            e matches Effect::DeleteFile(p) && p@ == old.entries@[old.selected as int].path@
        } else {
            e is Idle
        }
    })
    &&& (new.entries == old.entries)
    &&& (new.selected == old.selected)
    &&& (new.batch_selection == old.batch_selection)
    &&& (same_place(new, old))
    &&& (new.message == old.message)
}

/// What `batch_key` does, from the state `old` to the state `new`.
pub open spec fn batch_key_post(old: Browser, new: Browser, kind: BatchActionType) -> bool {
    &&& (old.batch_selection.active ==> {
        &&& new.input_mode == InputMode::Batch
        &&& new.batch_dialog.visible
        &&& new.batch_dialog.action == Some(kind)
        &&& new.batch_dialog.input@.len() == 0
    })
    &&& (!old.batch_selection.active ==> new.input_mode == old.input_mode
        && new.batch_dialog == old.batch_dialog)
    &&& (new.entries == old.entries)
    &&& (new.selected == old.selected)
    &&& (new.batch_selection == old.batch_selection)
    &&& (same_place(new, old))
    &&& (new.message == old.message)
}

/// What `digit_key` does, from the state `old` to the state `new`.
pub open spec fn digit_key_post(old: Browser, new: Browser, c: char, since_last_digit: u128) -> bool {
    &&& (new.key_buffer@ == next_key_buffer(
        old.key_buffer@,
        c,
        since_last_digit <= DIGIT_TIMEOUT_NANOS,
    ))
    &&& (new.selected == jump_target(
        new.key_buffer@,
        old.entries@.len(),
        old.selected,
    ))
    &&& (new.entries == old.entries)
    &&& (new.scroll_offset == old.scroll_offset)
    &&& (same_place(new, old))
    &&& (same_dialogs(new, old))
    &&& (new.message == old.message)
}

/// What `chmod_input` does, from the state `old` to the state `new`.
pub open spec fn chmod_input_post(old: Browser, new: Browser, key: KeyCode, e: Effect) -> bool {
    &&& (match key {
        KeyCode::Esc => {
            &&& e is Idle
            &&& new.input_mode == InputMode::Normal
            &&& !new.chmod_dialog.visible
            &&& new.message == old.message
        },
        KeyCode::Enter => {
            &&& new.input_mode == InputMode::Normal
            &&& !new.chmod_dialog.visible
            &&& match old.chmod_dialog.path {
                Some(p) => match numeric_mode_of(old.chmod_dialog.input@) {
                    Some(m) => (e matches Effect::SetMode(q, k) && q@ == p@ && k == m)
                        && new.message == old.message,
                    None => e is Idle && (new.message matches Some(t) && t@
                        == "Chmod error: "@ + invalid_mode_text(old.chmod_dialog.input@)),
                },
                None => e is Idle && (new.message matches Some(t) && t@ == "Chmod error: "@
                    + "No file selected"@),
            }
        },
        KeyCode::Backspace => {
            &&& e is Idle
            &&& new.input_mode == old.input_mode
            &&& new.chmod_dialog.input@ == if old.chmod_dialog.input@.len() > 0 {
                old.chmod_dialog.input@.drop_last()
            } else {
                old.chmod_dialog.input@
            }
            &&& new.message == old.message
        },
        KeyCode::Char(c) => {
            &&& e is Idle
            &&& new.input_mode == old.input_mode
            &&& new.chmod_dialog.input@ == if encode_utf8(
                old.chmod_dialog.input@,
            ).len() < 3 && is_octal_digit(c) {
                old.chmod_dialog.input@.push(c)
            } else {
                old.chmod_dialog.input@
            }
            &&& new.message == old.message
        },
        _ => e is Idle && new.chmod_dialog == old.chmod_dialog && new.input_mode
            == old.input_mode && new.message == old.message,
    })
    &&& (new.entries == old.entries)
    &&& (new.selected == old.selected)
    &&& (same_place(new, old))
}

/// What `batch_input` does, from the state `old` to the state `new`.
pub open spec fn batch_input_post(old: Browser, new: Browser, key: KeyCode, e: Effect) -> bool {
    &&& (match key {
        KeyCode::Esc => {
            &&& e is Idle
            &&& new.input_mode == InputMode::Normal
            &&& !new.batch_dialog.visible
        },
        KeyCode::Enter => {
            &&& new.input_mode == InputMode::Normal
            &&& !new.batch_dialog.visible
            &&& match old.batch_dialog.action {
                Some(kind) => e matches Effect::RunBatch(action, paths) && dialog_action(
                    kind,
                    old.batch_dialog.input@,
                    action,
                ) && exists|order: Seq<usize>|
                    {
                        &&& order.no_duplicates()
                        &&& order.to_set() == old.batch_selection.selected_indices@
                        &&& paths@.map_values(|p: String| p@) == order.filter(
                            |i: usize| i < old.entries@.len(),
                        ).map_values(|i: usize| old.entries@[i as int].path@)
                    },
                None => e is Idle,
            }
        },
        KeyCode::Backspace => {
            &&& e is Idle
            &&& new.input_mode == old.input_mode
            &&& new.batch_dialog.input@ == if old.batch_dialog.input@.len() > 0 {
                old.batch_dialog.input@.drop_last()
            } else {
                old.batch_dialog.input@
            }
        },
        KeyCode::Char(c) => {
            &&& e is Idle
            &&& new.input_mode == old.input_mode
            &&& new.batch_dialog.input@ == old.batch_dialog.input@.push(c)
        },
        _ => e is Idle && new.batch_dialog == old.batch_dialog && new.input_mode
            == old.input_mode,
    })
    &&& (new.entries == old.entries)
    &&& (new.selected == old.selected)
    &&& (new.batch_selection == old.batch_selection)
    &&& (new.message == old.message)
    &&& (same_place(new, old))
}

/// What `remote_input` does, from the state `old` to the state `new`.
pub open spec fn remote_input_post(old: Browser, new: Browser, key: KeyCode, default_user: Option<String>, e: Effect) -> bool {
    &&& (match key {
        KeyCode::Esc => {
            &&& e is Idle
            &&& new.input_mode == InputMode::Normal
            &&& new.input_buffer@.len() == 0
            &&& new.cwd == old.cwd
            &&& new.remote_fs == old.remote_fs
        },
        KeyCode::Enter => {
            &&& new.input_mode == InputMode::Normal
            &&& new.input_buffer@.len() == 0
            &&& match ssh_target_of(old.input_buffer@, opt_chars(default_user)) {
                Some((u, h)) => {
                    &&& e is Reload
                    &&& (new.remote_fs matches RemoteFs::Connected(c) && c.user@ == u
                        && c.host@ == h)
                    &&& new.cwd@ == join_paths("/home"@, u)
                    &&& new.selected == 0
                    &&& new.scroll_offset == 0
                    &&& (new.message matches Some(m) && m@ == "Connected to "@
                        + connection_text(u, h))
                },
                None => {
                    &&& e is Idle
                    &&& new.cwd == old.cwd
                    &&& new.remote_fs == old.remote_fs
                    &&& (new.message matches Some(m) && m@ == "Invalid SSH target"@)
                },
            }
        },
        KeyCode::Backspace => {
            &&& e is Idle
            &&& new.input_mode == old.input_mode
            &&& new.input_buffer@ == if old.input_buffer@.len() > 0 {
                old.input_buffer@.drop_last()
            } else {
                old.input_buffer@
            }
            &&& new.cwd == old.cwd
            &&& new.remote_fs == old.remote_fs
        },
        KeyCode::Char(c) => {
            &&& e is Idle
            &&& new.input_mode == old.input_mode
            &&& new.input_buffer@ == old.input_buffer@.push(c)
            &&& new.cwd == old.cwd
            &&& new.remote_fs == old.remote_fs
        },
        _ => e is Idle && new.input_buffer == old.input_buffer && new.input_mode
            == old.input_mode && new.cwd == old.cwd && new.remote_fs
            == old.remote_fs,
    })
    &&& (new.entries == old.entries)
    &&& (new.archive_state == old.archive_state)
    &&& (new.show_hidden == old.show_hidden)
}

/// What `key_step` does with a key: in a dialog, what that dialog's input
/// step does; in the file list, what the key's command does (`R` reloads the
/// listing, `~` goes home, keys without a command change nothing).
pub open spec fn key_step_post(
    old: Browser,
    new: Browser,
    key: KeyCode,
    since_last_digit: u128,
    default_user: Option<String>,
    e: Effect,
) -> bool {
    match old.input_mode {
        InputMode::Chmod => chmod_input_post(old, new, key, e),
        InputMode::Batch => batch_input_post(old, new, key, e),
        InputMode::RemoteConnect => remote_input_post(old, new, key, default_user, e),
        InputMode::Normal => match normal_command(key) {
            Command::Quit => quit_key_post(old, new) && e is Idle,
            Command::Down => down_key_post(old, new) && e is Idle,
            Command::Up => up_key_post(old, new) && e is Idle,
            Command::Parent => go_parent_post(old, new, e),
            Command::Open => open_selected_post(old, new, e),
            Command::Top => top_key_post(old, new) && e is Idle,
            Command::Bottom => bottom_key_post(old, new) && e is Idle,
            Command::Home => new == old && e is GoHome,
            Command::ToggleHidden => toggle_hidden_post(old, new, e),
            Command::ToggleSelect => toggle_select_post(old, new) && e is Idle,
            Command::Chmod => chmod_key_post(old, new, e),
            Command::DiskUsage => disk_usage_key_post(old, new, e),
            Command::Remote => remote_key_post(old, new, e),
            Command::Delete => delete_key_post(old, new, e),
            Command::BatchCopy => batch_key_post(old, new, BatchActionType::Copy) && e is Idle,
            Command::BatchMove => batch_key_post(old, new, BatchActionType::Move) && e is Idle,
            Command::Refresh => new == old && e is Reload,
            Command::Digit(c) => digit_key_post(old, new, c, since_last_digit) && e is Idle,
            Command::Nothing => new == old && e is Idle,
        },
    }
}

impl Browser {
    /// One key: in a dialog it goes to that dialog's input step; in the file
    /// list it does what its command (`command_for_key`) does, typed
    /// `since_last_digit` nanoseconds after the last digit. Returns the outside
    /// work the step asks for.
    pub fn key_step(&mut self, key: &KeyCode, since_last_digit: u128, default_user: Option<String>) -> (e: Effect)
        ensures
            key_step_post(*old(self), *final(self), *key, since_last_digit, default_user, e),
    {
        match self.input_mode {
            InputMode::Chmod => self.chmod_input(key),
            InputMode::Batch => self.batch_input(key),
            InputMode::RemoteConnect => self.remote_input(key, default_user),
            InputMode::Normal => match command_for_key(key) {
                Command::Quit => {
                    self.quit_key();
                    Effect::Idle
                },
                Command::Down => {
                    self.down_key();
                    Effect::Idle
                },
                Command::Up => {
                    self.up_key();
                    Effect::Idle
                },
                Command::Parent => self.go_parent(),
                Command::Open => self.open_selected(),
                Command::Top => {
                    self.top_key();
                    Effect::Idle
                },
                Command::Bottom => {
                    self.bottom_key();
                    Effect::Idle
                },
                Command::Home => Effect::GoHome,
                Command::ToggleHidden => self.toggle_hidden(),
                Command::ToggleSelect => {
                    self.toggle_select();
                    Effect::Idle
                },
                Command::Chmod => self.chmod_key(),
                Command::DiskUsage => self.disk_usage_key(),
                Command::Remote => self.remote_key(),
                Command::Delete => self.delete_key(),
                Command::BatchCopy => {
                    self.batch_key(BatchActionType::Copy);
                    Effect::Idle
                },
                Command::BatchMove => {
                    self.batch_key(BatchActionType::Move);
                    Effect::Idle
                },
                Command::Refresh => Effect::Reload,
                Command::Digit(c) => {
                    self.digit_key(c, since_last_digit);
                    Effect::Idle
                },
                Command::Nothing => Effect::Idle,
            },
        }
    }
}

/// In the file list with no disk-usage view open, `k` and the Up arrow move the
/// selection up one entry, stopping at the first; `j` and the Down arrow move
/// it down one entry, stopping at the last (a selection in an empty list stays
/// where it is); `g` goes to the first entry and `G` to the last; `h` and Left
/// do the same as each other, and so do `l` and Right. The vertical keys change neither the entries nor the place shown.
pub proof fn law_vertical_keys(
    old: Browser,
    new: Browser,
    key: KeyCode,
    since_last_digit: u128,
    default_user: Option<String>,
    e: Effect,
)
    requires
        old.input_mode == InputMode::Normal,
        !old.disk_usage.visible,
        key_step_post(old, new, key, since_last_digit, default_user, e),
    ensures
        key == KeyCode::Char('k') || key == KeyCode::Up ==> {
            &&& new.selected == if old.selected > 0 {
                old.selected - 1
            } else {
                0
            }
            &&& new.entries == old.entries
            &&& new.cwd == old.cwd
            &&& e is Idle
        },
        key == KeyCode::Char('j') || key == KeyCode::Down ==> {
            &&& new.selected == if old.entries@.len() == 0 {
                old.selected as int
            } else if old.selected + 1 < old.entries@.len() {
                old.selected + 1
            } else {
                old.entries@.len() - 1
            }
            &&& new.entries == old.entries
            &&& new.cwd == old.cwd
            &&& e is Idle
        },
        key == KeyCode::Char('g') ==> new.selected == 0 && new.entries == old.entries && e is Idle,
        key == KeyCode::Char('G') ==> new.selected == (if old.entries@.len() > 0 {
            old.entries@.len() - 1
        } else {
            old.selected as int
        }) && new.entries == old.entries && e is Idle,
        normal_command(KeyCode::Char('h')) == normal_command(KeyCode::Left),
        normal_command(KeyCode::Char('l')) == normal_command(KeyCode::Right),
        normal_command(KeyCode::Char('k')) != normal_command(KeyCode::Char('j')),
{
}

/// In the file list, `R` asks for the listing to be read again and changes
/// nothing else.
pub proof fn law_r_reloads(old: Browser, new: Browser, since_last_digit: u128, default_user: Option<String>, e: Effect)
    requires
        old.input_mode == InputMode::Normal,
        key_step_post(old, new, KeyCode::Char('R'), since_last_digit, default_user, e),
    ensures
        e is Reload,
        new == old,
{
}

} // verus!

