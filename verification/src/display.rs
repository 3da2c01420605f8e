//! The texts the screen shows: titles, status line, markers and labels.
use vstd::prelude::*;
use crate::{format_size, size_text, EntryKind};
use crate::archive::ArchiveEntry;
use crate::browser::Browser;
use crate::git::GitStatus;
use crate::permissions::{mode_text, mode_to_string, octal3};
use crate::text::{decimal, decimal_string, push_char, radix_padded};

verus! {

/// The marker shown before a name for its git status.
pub fn git_prefix(s: GitStatus) -> (r: &'static str)
    ensures
        r@ == match s {
            GitStatus::Added => "+ "@,
            GitStatus::Modified => "M "@,
            GitStatus::Untracked => "? "@,
            GitStatus::Unchanged => "  "@,
        },
{
    match s {
        GitStatus::Added => "+ ",
        GitStatus::Modified => "M ",
        GitStatus::Untracked => "? ",
        GitStatus::Unchanged => "  ",
    }
}

/// The word the preview shows for a git status.
pub fn git_label(s: GitStatus) -> (r: &'static str)
    ensures
        r@ == match s {
            GitStatus::Added => "added"@,
            GitStatus::Modified => "modified"@,
            GitStatus::Untracked => "untracked"@,
            GitStatus::Unchanged => "unchanged"@,
        },
{
    match s {
        GitStatus::Added => "added",
        GitStatus::Modified => "modified",
        GitStatus::Untracked => "untracked",
        GitStatus::Unchanged => "unchanged",
    }
}

/// The icon shown before a name for its kind.
pub fn entry_icon(kind: EntryKind) -> (r: &'static str)
    ensures
        r@ == match kind {
            EntryKind::Dir => "▸"@,
            EntryKind::File => "•"@,
            EntryKind::Symlink => "~"@,
            EntryKind::Archive => "📦"@,
            EntryKind::Unknown => "?"@,
        },
{
    match kind {
        EntryKind::Dir => "▸",
        EntryKind::File => "•",
        EntryKind::Symlink => "~",
        EntryKind::Archive => "📦",
        EntryKind::Unknown => "?",
    }
}

/// The name of a kind, as the preview shows it.
pub fn kind_name(kind: EntryKind) -> (r: &'static str)
    ensures
        r@ == match kind {
            EntryKind::Dir => "Dir"@,
            EntryKind::File => "File"@,
            EntryKind::Symlink => "Symlink"@,
            EntryKind::Archive => "Archive"@,
            EntryKind::Unknown => "Unknown"@,
        },
{
    match kind {
        EntryKind::Dir => "Dir",
        EntryKind::File => "File",
        EntryKind::Symlink => "Symlink",
        EntryKind::Archive => "Archive",
        EntryKind::Unknown => "Unknown",
    }
}

/// A line of an archive's contents in the preview: `▸` for a directory, `•`
/// otherwise, then the name and the size in brackets.
pub fn archive_entry_line(e: &ArchiveEntry) -> (r: String)
    ensures
        r@ == (if e.is_dir { "▸"@ } else { "•"@ }) + seq![' '] + e.name@ + " ("@ + size_text(e.size) + ")"@,
{
    let mut s = String::from_str(if e.is_dir { "▸" } else { "•" });
    push_char(&mut s, ' ');
    s.append(e.name.as_str());
    s.append(" (");
    s.append(format_size(e.size).as_str());
    s.append(")");
    s
}


/// A mode as the preview shows it: its three octal digits and its letters.
pub fn permissions_text(mode: u32) -> (r: String)
    ensures
        r@ == octal3(mode) + seq![' '] + mode_text(mode),
{
    let mut s = radix_padded(mode as u128, 8, 3);
    push_char(&mut s, ' ');
    s.append(mode_to_string(mode).as_str());
    s
}

/// ` [<n> selected]`.
pub open spec fn selected_tag(n: nat) -> Seq<char> {
    " ["@ + decimal(n) + " selected]"@
}

/// The title of the file list: the program's name, then `[ARCHIVE]` while an
/// archive is browsed, `[REMOTE]` while connected, and how many entries are
/// selected while a selection is active.
pub open spec fn list_title_text(b: Browser) -> Seq<char> {
    " VHS-86 "@ + (if b.archive_state is Some {
        " [ARCHIVE]"@
    } else {
        Seq::empty()
    }) + (if b.remote_fs is Connected {
        " [REMOTE]"@
    } else {
        Seq::empty()
    }) + (if b.batch_selection.active {
        selected_tag(b.batch_selection.selected_indices@.len())
    } else {
        Seq::empty()
    })
}

/// The title of the file list.
pub fn list_title(b: &Browser) -> (r: String)
    ensures
        r@ == list_title_text(*b),
{
    let mut s = String::from_str(" VHS-86 ");
    if b.archive_state.is_some() {
        s.append(" [ARCHIVE]");
    }
    if b.remote_fs.is_connected() {
        s.append(" [REMOTE]");
    }
    if b.batch_selection.active {
        s.append(" [");
        s.append(decimal_string(b.batch_selection.count() as u128).as_str());
        s.append(" selected]");
    }
    s
}

/// `true` or `false`.
pub open spec fn bool_text(v: bool) -> Seq<char> {
    if v {
        "true"@
    } else {
        "false"@
    }
}

/// The left part of the status line: the current directory, the number of
/// entries, whether hidden files are shown, `[git]` inside a repository and
/// how many entries are selected while a selection is active.
pub open spec fn status_left_text(b: Browser, in_repo: bool) -> Seq<char> {
    " "@ + b.cwd@ + "  |  "@ + decimal(b.entries@.len()) + " items  |  hidden: "@ + bool_text(b.show_hidden)
        + (if in_repo {
        " [git]"@
    } else {
        Seq::empty()
    }) + (if b.batch_selection.active {
        selected_tag(b.batch_selection.selected_indices@.len())
    } else {
        Seq::empty()
    })
}

/// The left part of the status line.
pub fn status_left(b: &Browser, in_repo: bool) -> (r: String)
    ensures
        r@ == status_left_text(*b, in_repo),
{
    let mut s = String::from_str(" ");
    s.append(b.cwd.as_str());
    s.append("  |  ");
    s.append(decimal_string(b.entries.len() as u128).as_str());
    s.append(" items  |  hidden: ");
    if b.show_hidden {
        s.append("true");
    } else {
        s.append("false");
    }
    if in_repo {
        s.append(" [git]");
    }
    if b.batch_selection.active {
        s.append(" [");
        s.append(decimal_string(b.batch_selection.count() as u128).as_str());
        s.append(" selected]");
    }
    s
}

/// The key help shown when there is no message.
pub const KEY_HELP: &'static str = " h/j/k/l or ↑↓  |  Enter=open  |  .=toggle hidden  |  ~=home  |  Space=select  |  q=quit ";

/// The right part of the status line: the message, padded with a space on
/// each side, or the key help.
pub fn status_right(b: &Browser) -> (r: String)
    ensures
        r@ == match b.message {
            Some(m) => " "@ + m@ + " "@,
            None => KEY_HELP@,
        },
{
    match &b.message {
        Some(m) => {
            let mut s = String::from_str(" ");
            s.append(m.as_str());
            s.append(" ");
            s
        },
        None => String::from_str(KEY_HELP),
    }
}

} // verus!
