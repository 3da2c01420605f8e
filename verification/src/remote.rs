//! The remote file system connection (user and host over SSH) and SSH targets.
use vstd::prelude::*;
use crate::{DirEntry, EntryKind};
use crate::pathname::{join, join_paths, parent, parent_of};
use crate::text::{chars_of, opt_chars, push_char, string_of};

verus! {

/// Represents a remote filesystem connection.
#[derive(Debug)]
pub enum RemoteFs {
    Disconnected,
    Connected(RemoteConnection),
}

/// The details of a connection.
#[derive(Debug, Clone)]
pub struct RemoteConnection {
    pub host: String,
    pub user: String,
    pub current_dir: String,
}

/// The `user@host` text of a connection.
pub open spec fn connection_text(user: Seq<char>, host: Seq<char>) -> Seq<char> {
    user + seq!['@'] + host
}

/// An I/O error of kind `NotConnected` with the message
/// `Not connected to remote host` (`std::io::Error::new`); nothing more is stated.
#[verifier::external_body]
fn not_connected_error() -> std::io::Error {
    std::io::Error::new(std::io::ErrorKind::NotConnected, "Not connected to remote host")
}

impl RemoteFs {
    pub fn new() -> (r: Self)
        ensures
            r is Disconnected,
    {
        RemoteFs::Disconnected
    }

    pub fn is_connected(&self) -> (r: bool)
        ensures
            r == (self is Connected),
    {
        match self {
            RemoteFs::Connected(_) => true,
            RemoteFs::Disconnected => false,
        }
    }

    /// Connects to `host` as `user`, starting in `/home/<user>`. The connection is
    /// recorded, not opened, and always succeeds.
    pub fn connect(&mut self, host: &str, user: &str) -> (r: Result<(), std::io::Error>)
        ensures
            r is Ok,
            match *final(self) {
                RemoteFs::Connected(c) => c.host@ == host@ && c.user@ == user@ && c.current_dir@
                    == join_paths("/home/"@, user@),
                RemoteFs::Disconnected => false,
            },
    {
        *self = RemoteFs::Connected(
            RemoteConnection {
                host: host.to_owned(),
                user: user.to_owned(),
                current_dir: join("/home/", user),
            },
        );
        Ok(())
    }

    pub fn disconnect(&mut self)
        ensures
            *final(self) is Disconnected,
    {
        *self = RemoteFs::Disconnected;
    }

    /// The listing shown for a remote directory: `..` (the parent directory, or
    /// the path itself when it has none) and an entry naming the connection;
    /// an error when not connected.
    pub fn list_dir(&self, path: &str) -> (r: Result<Vec<DirEntry>, std::io::Error>)
        ensures
            match self {
                RemoteFs::Disconnected => r is Err,
                RemoteFs::Connected(c) => match r {
                    Ok(v) => {
                        &&& v@.len() == 2
                        &&& v@[0].name@ == seq!['.', '.']
                        &&& v@[0].path@ == match parent_of(path@) {
                            Some(p) => p,
                            None => path@,
                        }
                        &&& v@[0].kind == EntryKind::Dir
                        &&& v@[0].size == 0
                        &&& v@[0].modified is None
                        &&& v@[1].name@ == "[remote: "@ + connection_text(c.user@, c.host@) + "]"@
                        &&& v@[1].path@ == path@
                        &&& v@[1].kind == EntryKind::Dir
                        &&& v@[1].size == 0
                        &&& v@[1].modified is None
                    },
                    Err(_) => false,
                },
            },
    {
        match self {
            RemoteFs::Disconnected => Err(not_connected_error()),
            RemoteFs::Connected(conn) => {
                let mut entries: Vec<DirEntry> = Vec::new();
                let mut up = String::new();
                push_char(&mut up, '.');
                push_char(&mut up, '.');
                let up_path = match parent(path) {
                    Some(p) => p,
                    None => path.to_owned(),
                };
                entries.push(DirEntry { name: up, path: up_path, kind: EntryKind::Dir, size: 0, modified: None });
                let mut label = "[remote: ".to_owned();
                label.append(conn.user.as_str());
                push_char(&mut label, '@');
                label.append(conn.host.as_str());
                label.append("]");
                entries.push(DirEntry { name: label, path: path.to_owned(), kind: EntryKind::Dir, size: 0, modified: None });
                Ok(entries)
            },
        }
    }

    pub fn current_dir(&self) -> (r: Option<String>)
        ensures
            opt_chars(r) == match self {
                RemoteFs::Connected(c) => Some(c.current_dir@),
                RemoteFs::Disconnected => None,
            },
    {
        match self {
            RemoteFs::Connected(conn) => Some(conn.current_dir.clone()),
            RemoteFs::Disconnected => None,
        }
    }

    /// The `user@host` of the connection.
    pub fn connection_string(&self) -> (r: Option<String>)
        ensures
            opt_chars(r) == match self {
                RemoteFs::Connected(c) => Some(connection_text(c.user@, c.host@)),
                RemoteFs::Disconnected => None,
            },
    {
        match self {
            RemoteFs::Connected(conn) => {
                let mut s = conn.user.clone();
                push_char(&mut s, '@');
                s.append(conn.host.as_str());
                Some(s)
            },
            RemoteFs::Disconnected => None,
        }
    }
}

/// The index of the first `@`, or -1.
pub open spec fn first_at(s: Seq<char>) -> int
    decreases s.len(),
{
    if s.len() == 0 {
        -1
    } else if s[0] == '@' {
        0
    } else if first_at(s.drop_first()) < 0 {
        -1
    } else {
        first_at(s.drop_first()) + 1
    }
}

proof fn lemma_first_at(s: Seq<char>)
    ensures
        -1 <= first_at(s) < s.len(),
        first_at(s) >= 0 ==> s[first_at(s)] == '@',
        forall|j: int| 0 <= j < s.len() && (first_at(s) < 0 || j < first_at(s)) ==> s[j] != '@',
    decreases s.len(),
{
    if s.len() > 0 && s[0] != '@' {
        lemma_first_at(s.drop_first());
        assert forall|j: int| 0 <= j < s.len() && (first_at(s) < 0 || j < first_at(s)) implies s[j] != '@' by {
            if j > 0 {
                assert(s.drop_first()[j - 1] == s[j]);
            }
        }
    }
}

/// What an SSH target means: `user@host` splits at the first `@`; a bare host
/// takes the given default user, and is refused without one.
pub open spec fn ssh_target_of(target: Seq<char>, default_user: Option<Seq<char>>) -> Option<(Seq<char>, Seq<char>)> {
    let k = first_at(target);
    if k >= 0 {
        Some((target.subrange(0, k), target.subrange(k + 1, target.len() as int)))
    } else {
        match default_user {
            Some(u) => Some((u, target)),
            None => None,
        }
    }
}

/// Parses an SSH target like `user@host` or `host` into (user, host);
/// `default_user` is the current user (the environment's `USER`), if known.
pub fn parse_ssh_target(target: &str, default_user: Option<String>) -> (r: Option<(String, String)>)
    ensures
        match r {
            Some((u, h)) => ssh_target_of(target@, opt_chars(default_user)) == Some((u@, h@)),
            None => ssh_target_of(target@, opt_chars(default_user)) is None,
        },
{
    let cs = chars_of(target);
    proof {
        lemma_first_at(target@);
    }
    let mut i: usize = 0;
    while i < cs.len()
        invariant
            i <= cs.len(),
            cs@ == target@,
            forall|j: int| 0 <= j < i ==> cs@[j] != '@',
        decreases cs.len() - i,
    {
        if cs[i] == '@' {
            assert(first_at(target@) == i as int) by {
                lemma_first_at(target@);
                if first_at(target@) < 0 || first_at(target@) > i {
                    assert(target@[i as int] != '@');
                }
            }
            let mut u: Vec<char> = Vec::new();
            let mut h: Vec<char> = Vec::new();
            let mut k: usize = 0;
            while k < i
                invariant
                    k <= i,
                    i < cs@.len(),
                    u@ =~= cs@.subrange(0, k as int),
                decreases i - k,
            {
                u.push(cs[k]);
                k = k + 1;
            }
            let mut k2: usize = i + 1;
            while k2 < cs.len()
                invariant
                    i + 1 <= k2 <= cs@.len(),
                    h@ =~= cs@.subrange(i + 1, k2 as int),
                decreases cs.len() - k2,
            {
                h.push(cs[k2]);
                k2 = k2 + 1;
            }
            return Some((string_of(&u), string_of(&h)));
        }
        i = i + 1;
    }
    assert(first_at(target@) < 0) by {
        lemma_first_at(target@);
        if first_at(target@) >= 0 {
            assert(cs@[first_at(target@)] != '@');
        }
    }
    match default_user {
        Some(u) => Some((u, target.to_owned())),
        None => None,
    }
}

} // verus!

verus! {

/// `user@host` parses back into the user and the host, for a user without `@`.
pub proof fn law_ssh_target_round_trip(user: Seq<char>, host: Seq<char>, default_user: Option<Seq<char>>)
    requires
        !user.contains('@'),
    ensures
        ssh_target_of(user + seq!['@'] + host, default_user) == Some((user, host)),
{
    let t = user + seq!['@'] + host;
    lemma_first_at(t);
    let k = first_at(t);
    assert(t[user.len() as int] == '@');
    assert(k == user.len()) by {
        if k < 0 || k > user.len() {
            assert(t[user.len() as int] != '@');
        }
        if 0 <= k < user.len() {
            assert(t[k] == user[k]);
            assert(user.contains('@'));
        }
    }
    assert(t.subrange(0, k) =~= user);
    assert(t.subrange(k + 1, t.len() as int) =~= host);
}

} // verus!
