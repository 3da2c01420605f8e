//! Key names and the actions bound to them.
use vstd::prelude::*;
use crate::text::{eq_str, lowercase_of, push_char, to_lowercase};

verus! {

/// What a key can be bound to.
#[derive(Debug, Clone, Copy, PartialEq, Eq, Hash, Structural)]
pub enum Action {
    Quit,
    MoveUp,
    MoveDown,
    MoveLeft,
    MoveRight,
    GoHome,
    GoTop,
    GoBottom,
    ToggleHidden,
    ToggleSelect,
    Enter,
    OpenChmod,
    OpenDiskUsage,
    OpenRemoteConnect,
    OpenSearch,
    OpenShell,
    BatchDelete,
    BatchCopy,
    BatchMove,
    Refresh,
}

/// A key as the terminal reports it. `Other` holds the debug text of any key
/// without a variant here (such as `F(5)` or `Delete`).
#[derive(Debug, Clone)]
pub enum KeyCode {
    Char(char),
    Up,
    Down,
    Left,
    Right,
    Enter,
    Esc,
    Backspace,
    Tab,
    Home,
    End,
    PageUp,
    PageDown,
    Other(String),
}

/// The name a key is written as in a configuration.
pub open spec fn key_name(code: KeyCode) -> Seq<char> {
    match code {
        KeyCode::Char(c) => seq![c],
        KeyCode::Up => "up"@,
        KeyCode::Down => "down"@,
        KeyCode::Left => "left"@,
        KeyCode::Right => "right"@,
        KeyCode::Enter => "enter"@,
        KeyCode::Esc => "esc"@,
        KeyCode::Backspace => "backspace"@,
        KeyCode::Tab => "tab"@,
        KeyCode::Home => "home"@,
        KeyCode::End => "end"@,
        KeyCode::PageUp => "pageup"@,
        KeyCode::PageDown => "pagedown"@,
        KeyCode::Other(t) => lowercase_of(t@),
    }
}

/// The map given by a list of (key, action) pairs; a later pair for a key
/// replaces an earlier one.
pub open spec fn binding_map(pairs: Seq<(Seq<char>, Action)>) -> Map<Seq<char>, Action>
    decreases pairs.len(),
{
    if pairs.len() == 0 {
        Map::empty()
    } else {
        binding_map(pairs.drop_last()).insert(pairs.last().0, pairs.last().1)
    }
}

/// The keys of a list of (key, action) pairs, as values.
pub open spec fn pair_views(pairs: Seq<(String, Action)>) -> Seq<(Seq<char>, Action)> {
    pairs.map_values(|p: (String, Action)| (p.0@, p.1))
}

/// A map from key names to actions.
#[derive(Debug, Clone)]
pub struct Bindings {
    pairs: Vec<(String, Action)>,
}

impl View for Bindings {
    type V = Map<Seq<char>, Action>;

    closed spec fn view(&self) -> Map<Seq<char>, Action> {
        binding_map(pair_views(self.pairs@))
    }
}

impl Bindings {
    pub fn new() -> (b: Self)
        ensures
            b@ == Map::<Seq<char>, Action>::empty(),
    {
        Bindings { pairs: Vec::new() }
    }

    /// Binds `key` to `action`, replacing any earlier binding of `key`.
    pub fn insert(&mut self, key: String, action: Action)
        ensures
            final(self)@ == old(self)@.insert(key@, action),
    {
        let ghost before = self.pairs@;
        self.pairs.push((key, action));
        proof {
            assert(pair_views(self.pairs@).drop_last() =~= pair_views(before));
        }
    }

    /// The action bound to `key`, if any.
    pub fn get(&self, key: &str) -> (r: Option<&Action>)
        ensures
            r == if self@.contains_key(key@) {
                Some(&self@[key@])
            } else {
                None::<&Action>
            },
    {
        let ghost pv = pair_views(self.pairs@);
        let mut j: usize = self.pairs.len();
        assert(pv.subrange(0, j as int) =~= pv);
        while j > 0
            invariant
                j <= self.pairs@.len(),
                pv == pair_views(self.pairs@),
                binding_map(pv).contains_key(key@) == binding_map(pv.subrange(0, j as int)).contains_key(key@),
                binding_map(pv).contains_key(key@) ==> binding_map(pv)[key@] == binding_map(
                    pv.subrange(0, j as int),
                )[key@],
            decreases j,
        {
            assert(pv.subrange(0, j as int).drop_last() =~= pv.subrange(0, j - 1));
            if eq_str(self.pairs[j - 1].0.as_str(), key) {
                return Some(&self.pairs[j - 1].1);
            }
            j = j - 1;
        }
        None
    }

    /// Whether `key` is bound.
    pub fn contains_key(&self, key: &str) -> (r: bool)
        ensures
            r == self@.contains_key(key@),
    {
        self.get(key).is_some()
    }
}

/// The bindings a fresh installation has.
pub open spec fn default_bindings() -> Map<Seq<char>, Action> {
    Map::<Seq<char>, Action>::empty()
        .insert("q"@, Action::Quit)
        .insert("j"@, Action::MoveDown)
        .insert("k"@, Action::MoveUp)
        .insert("h"@, Action::MoveLeft)
        .insert("l"@, Action::MoveRight)
        .insert("down"@, Action::MoveDown)
        .insert("up"@, Action::MoveUp)
        .insert("left"@, Action::MoveLeft)
        .insert("right"@, Action::MoveRight)
        .insert("enter"@, Action::Enter)
        .insert("g"@, Action::GoTop)
        .insert("G"@, Action::GoBottom)
        .insert("~"@, Action::GoHome)
        .insert("."@, Action::ToggleHidden)
        .insert(" "@, Action::ToggleSelect)
        .insert("c"@, Action::OpenChmod)
        .insert("d"@, Action::OpenDiskUsage)
        .insert("r"@, Action::OpenRemoteConnect)
        .insert("/"@, Action::OpenSearch)
        .insert("!"@, Action::OpenShell)
        .insert("D"@, Action::BatchDelete)
        .insert("C"@, Action::BatchCopy)
        .insert("M"@, Action::BatchMove)
        .insert("R"@, Action::Refresh)
}

/// The action `custom` gives a key name, else the default one, else none.
pub open spec fn action_for(custom: Map<Seq<char>, Action>, name: Seq<char>) -> Option<Action> {
    if custom.contains_key(name) {
        Some(custom[name])
    } else if default_bindings().contains_key(name) {
        Some(default_bindings()[name])
    } else {
        None
    }
}

/// A user's key bindings; keys not bound here keep their default action.
#[derive(Debug, Clone)]
pub struct Keybindings {
    pub bindings: Bindings,
}

impl Default for Keybindings {
    fn default() -> (k: Self)
        ensures
            k.bindings@ == Map::<Seq<char>, Action>::empty(),
    {
        Keybindings { bindings: Bindings::new() }
    }
}

impl Keybindings {
    /// The default bindings.
    pub fn defaults() -> (m: Bindings)
        ensures
            m@ == default_bindings(),
    {
        let mut m = Bindings::new();
        m.insert(String::from_str("q"), Action::Quit);
        m.insert(String::from_str("j"), Action::MoveDown);
        m.insert(String::from_str("k"), Action::MoveUp);
        m.insert(String::from_str("h"), Action::MoveLeft);
        m.insert(String::from_str("l"), Action::MoveRight);
        m.insert(String::from_str("down"), Action::MoveDown);
        m.insert(String::from_str("up"), Action::MoveUp);
        m.insert(String::from_str("left"), Action::MoveLeft);
        m.insert(String::from_str("right"), Action::MoveRight);
        m.insert(String::from_str("enter"), Action::Enter);
        m.insert(String::from_str("g"), Action::GoTop);
        m.insert(String::from_str("G"), Action::GoBottom);
        m.insert(String::from_str("~"), Action::GoHome);
        m.insert(String::from_str("."), Action::ToggleHidden);
        m.insert(String::from_str(" "), Action::ToggleSelect);
        m.insert(String::from_str("c"), Action::OpenChmod);
        m.insert(String::from_str("d"), Action::OpenDiskUsage);
        m.insert(String::from_str("r"), Action::OpenRemoteConnect);
        m.insert(String::from_str("/"), Action::OpenSearch);
        m.insert(String::from_str("!"), Action::OpenShell);
        m.insert(String::from_str("D"), Action::BatchDelete);
        m.insert(String::from_str("C"), Action::BatchCopy);
        m.insert(String::from_str("M"), Action::BatchMove);
        m.insert(String::from_str("R"), Action::Refresh);
        m
    }

    /// The action of a key: the user's binding, else the default one.
    pub fn get_action(&self, code: &KeyCode) -> (r: Option<Action>)
        ensures
            r == action_for(self.bindings@, key_name(*code)),
    {
        let key_str = keycode_to_string(code);
        match self.bindings.get(key_str.as_str()) {
            Some(a) => Some(*a),
            None => {
                let d = Self::defaults();
                match d.get(key_str.as_str()) {
                    Some(a) => Some(*a),
                    None => None,
                }
            },
        }
    }

    /// The name of a key as a configuration writes it.
    pub fn keycode_to_string(code: &KeyCode) -> (r: String)
        ensures
            r@ == key_name(*code),
    {
        match code {
            KeyCode::Char(c) => {
                let mut s = String::new();
                push_char(&mut s, *c);
                assert(s@ =~= seq![*c]);
                s
            },
            KeyCode::Up => String::from_str("up"),
            KeyCode::Down => String::from_str("down"),
            KeyCode::Left => String::from_str("left"),
            KeyCode::Right => String::from_str("right"),
            KeyCode::Enter => String::from_str("enter"),
            KeyCode::Esc => String::from_str("esc"),
            KeyCode::Backspace => String::from_str("backspace"),
            KeyCode::Tab => String::from_str("tab"),
            KeyCode::Home => String::from_str("home"),
            KeyCode::End => String::from_str("end"),
            KeyCode::PageUp => String::from_str("pageup"),
            KeyCode::PageDown => String::from_str("pagedown"),
            KeyCode::Other(t) => to_lowercase(t.as_str()),
        }
    }
}

/// The name of a key as a configuration writes it.
pub fn keycode_to_string(code: &KeyCode) -> (r: String)
    ensures
        r@ == key_name(*code),
{
    Keybindings::keycode_to_string(code)
}

} // verus!

verus! {

/// A key bound by the user gets the user's action, whatever the default.
pub proof fn law_custom_binding_wins(custom: Map<Seq<char>, Action>, name: Seq<char>, action: Action)
    ensures
        action_for(custom.insert(name, action), name) == Some(action),
{
}

proof fn lemma_default_q()
    ensures
        default_bindings().contains_key("q"@),
        default_bindings()["q"@] == Action::Quit,
{
    reveal_strlit("q");
    reveal_strlit("j");
    assert("j"@ != "q"@) by { if "j"@.len() == "q"@.len() { assert("j"@[0] != "q"@[0]); } }
    reveal_strlit("k");
    assert("k"@ != "q"@) by { if "k"@.len() == "q"@.len() { assert("k"@[0] != "q"@[0]); } }
    reveal_strlit("h");
    assert("h"@ != "q"@) by { if "h"@.len() == "q"@.len() { assert("h"@[0] != "q"@[0]); } }
    reveal_strlit("l");
    assert("l"@ != "q"@) by { if "l"@.len() == "q"@.len() { assert("l"@[0] != "q"@[0]); } }
    reveal_strlit("down");
    assert("down"@ != "q"@) by { if "down"@.len() == "q"@.len() { assert("down"@[0] != "q"@[0]); } }
    reveal_strlit("up");
    assert("up"@ != "q"@) by { if "up"@.len() == "q"@.len() { assert("up"@[0] != "q"@[0]); } }
    reveal_strlit("left");
    assert("left"@ != "q"@) by { if "left"@.len() == "q"@.len() { assert("left"@[0] != "q"@[0]); } }
    reveal_strlit("right");
    assert("right"@ != "q"@) by { if "right"@.len() == "q"@.len() { assert("right"@[0] != "q"@[0]); } }
    reveal_strlit("enter");
    assert("enter"@ != "q"@) by { if "enter"@.len() == "q"@.len() { assert("enter"@[0] != "q"@[0]); } }
    reveal_strlit("g");
    assert("g"@ != "q"@) by { if "g"@.len() == "q"@.len() { assert("g"@[0] != "q"@[0]); } }
    reveal_strlit("G");
    assert("G"@ != "q"@) by { if "G"@.len() == "q"@.len() { assert("G"@[0] != "q"@[0]); } }
    reveal_strlit("~");
    assert("~"@ != "q"@) by { if "~"@.len() == "q"@.len() { assert("~"@[0] != "q"@[0]); } }
    reveal_strlit(".");
    assert("."@ != "q"@) by { if "."@.len() == "q"@.len() { assert("."@[0] != "q"@[0]); } }
    reveal_strlit(" ");
    assert(" "@ != "q"@) by { if " "@.len() == "q"@.len() { assert(" "@[0] != "q"@[0]); } }
    reveal_strlit("c");
    assert("c"@ != "q"@) by { if "c"@.len() == "q"@.len() { assert("c"@[0] != "q"@[0]); } }
    reveal_strlit("d");
    assert("d"@ != "q"@) by { if "d"@.len() == "q"@.len() { assert("d"@[0] != "q"@[0]); } }
    reveal_strlit("r");
    assert("r"@ != "q"@) by { if "r"@.len() == "q"@.len() { assert("r"@[0] != "q"@[0]); } }
    reveal_strlit("/");
    assert("/"@ != "q"@) by { if "/"@.len() == "q"@.len() { assert("/"@[0] != "q"@[0]); } }
    reveal_strlit("!");
    assert("!"@ != "q"@) by { if "!"@.len() == "q"@.len() { assert("!"@[0] != "q"@[0]); } }
    reveal_strlit("D");
    assert("D"@ != "q"@) by { if "D"@.len() == "q"@.len() { assert("D"@[0] != "q"@[0]); } }
    reveal_strlit("C");
    assert("C"@ != "q"@) by { if "C"@.len() == "q"@.len() { assert("C"@[0] != "q"@[0]); } }
    reveal_strlit("M");
    assert("M"@ != "q"@) by { if "M"@.len() == "q"@.len() { assert("M"@[0] != "q"@[0]); } }
    reveal_strlit("R");
    assert("R"@ != "q"@) by { if "R"@.len() == "q"@.len() { assert("R"@[0] != "q"@[0]); } }
}

proof fn lemma_default_j()
    ensures
        default_bindings().contains_key("j"@),
        default_bindings()["j"@] == Action::MoveDown,
{
    reveal_strlit("j");
    reveal_strlit("k");
    assert("k"@ != "j"@) by { if "k"@.len() == "j"@.len() { assert("k"@[0] != "j"@[0]); } }
    reveal_strlit("h");
    assert("h"@ != "j"@) by { if "h"@.len() == "j"@.len() { assert("h"@[0] != "j"@[0]); } }
    reveal_strlit("l");
    assert("l"@ != "j"@) by { if "l"@.len() == "j"@.len() { assert("l"@[0] != "j"@[0]); } }
    reveal_strlit("down");
    assert("down"@ != "j"@) by { if "down"@.len() == "j"@.len() { assert("down"@[0] != "j"@[0]); } }
    reveal_strlit("up");
    assert("up"@ != "j"@) by { if "up"@.len() == "j"@.len() { assert("up"@[0] != "j"@[0]); } }
    reveal_strlit("left");
    assert("left"@ != "j"@) by { if "left"@.len() == "j"@.len() { assert("left"@[0] != "j"@[0]); } }
    reveal_strlit("right");
    assert("right"@ != "j"@) by { if "right"@.len() == "j"@.len() { assert("right"@[0] != "j"@[0]); } }
    reveal_strlit("enter");
    assert("enter"@ != "j"@) by { if "enter"@.len() == "j"@.len() { assert("enter"@[0] != "j"@[0]); } }
    reveal_strlit("g");
    assert("g"@ != "j"@) by { if "g"@.len() == "j"@.len() { assert("g"@[0] != "j"@[0]); } }
    reveal_strlit("G");
    assert("G"@ != "j"@) by { if "G"@.len() == "j"@.len() { assert("G"@[0] != "j"@[0]); } }
    reveal_strlit("~");
    assert("~"@ != "j"@) by { if "~"@.len() == "j"@.len() { assert("~"@[0] != "j"@[0]); } }
    reveal_strlit(".");
    assert("."@ != "j"@) by { if "."@.len() == "j"@.len() { assert("."@[0] != "j"@[0]); } }
    reveal_strlit(" ");
    assert(" "@ != "j"@) by { if " "@.len() == "j"@.len() { assert(" "@[0] != "j"@[0]); } }
    reveal_strlit("c");
    assert("c"@ != "j"@) by { if "c"@.len() == "j"@.len() { assert("c"@[0] != "j"@[0]); } }
    reveal_strlit("d");
    assert("d"@ != "j"@) by { if "d"@.len() == "j"@.len() { assert("d"@[0] != "j"@[0]); } }
    reveal_strlit("r");
    assert("r"@ != "j"@) by { if "r"@.len() == "j"@.len() { assert("r"@[0] != "j"@[0]); } }
    reveal_strlit("/");
    assert("/"@ != "j"@) by { if "/"@.len() == "j"@.len() { assert("/"@[0] != "j"@[0]); } }
    reveal_strlit("!");
    assert("!"@ != "j"@) by { if "!"@.len() == "j"@.len() { assert("!"@[0] != "j"@[0]); } }
    reveal_strlit("D");
    assert("D"@ != "j"@) by { if "D"@.len() == "j"@.len() { assert("D"@[0] != "j"@[0]); } }
    reveal_strlit("C");
    assert("C"@ != "j"@) by { if "C"@.len() == "j"@.len() { assert("C"@[0] != "j"@[0]); } }
    reveal_strlit("M");
    assert("M"@ != "j"@) by { if "M"@.len() == "j"@.len() { assert("M"@[0] != "j"@[0]); } }
    reveal_strlit("R");
    assert("R"@ != "j"@) by { if "R"@.len() == "j"@.len() { assert("R"@[0] != "j"@[0]); } }
}

proof fn lemma_default_k()
    ensures
        default_bindings().contains_key("k"@),
        default_bindings()["k"@] == Action::MoveUp,
{
    reveal_strlit("k");
    reveal_strlit("h");
    assert("h"@ != "k"@) by { if "h"@.len() == "k"@.len() { assert("h"@[0] != "k"@[0]); } }
    reveal_strlit("l");
    assert("l"@ != "k"@) by { if "l"@.len() == "k"@.len() { assert("l"@[0] != "k"@[0]); } }
    reveal_strlit("down");
    assert("down"@ != "k"@) by { if "down"@.len() == "k"@.len() { assert("down"@[0] != "k"@[0]); } }
    reveal_strlit("up");
    assert("up"@ != "k"@) by { if "up"@.len() == "k"@.len() { assert("up"@[0] != "k"@[0]); } }
    reveal_strlit("left");
    assert("left"@ != "k"@) by { if "left"@.len() == "k"@.len() { assert("left"@[0] != "k"@[0]); } }
    reveal_strlit("right");
    assert("right"@ != "k"@) by { if "right"@.len() == "k"@.len() { assert("right"@[0] != "k"@[0]); } }
    reveal_strlit("enter");
    assert("enter"@ != "k"@) by { if "enter"@.len() == "k"@.len() { assert("enter"@[0] != "k"@[0]); } }
    reveal_strlit("g");
    assert("g"@ != "k"@) by { if "g"@.len() == "k"@.len() { assert("g"@[0] != "k"@[0]); } }
    reveal_strlit("G");
    assert("G"@ != "k"@) by { if "G"@.len() == "k"@.len() { assert("G"@[0] != "k"@[0]); } }
    reveal_strlit("~");
    assert("~"@ != "k"@) by { if "~"@.len() == "k"@.len() { assert("~"@[0] != "k"@[0]); } }
    reveal_strlit(".");
    assert("."@ != "k"@) by { if "."@.len() == "k"@.len() { assert("."@[0] != "k"@[0]); } }
    reveal_strlit(" ");
    assert(" "@ != "k"@) by { if " "@.len() == "k"@.len() { assert(" "@[0] != "k"@[0]); } }
    reveal_strlit("c");
    assert("c"@ != "k"@) by { if "c"@.len() == "k"@.len() { assert("c"@[0] != "k"@[0]); } }
    reveal_strlit("d");
    assert("d"@ != "k"@) by { if "d"@.len() == "k"@.len() { assert("d"@[0] != "k"@[0]); } }
    reveal_strlit("r");
    assert("r"@ != "k"@) by { if "r"@.len() == "k"@.len() { assert("r"@[0] != "k"@[0]); } }
    reveal_strlit("/");
    assert("/"@ != "k"@) by { if "/"@.len() == "k"@.len() { assert("/"@[0] != "k"@[0]); } }
    reveal_strlit("!");
    assert("!"@ != "k"@) by { if "!"@.len() == "k"@.len() { assert("!"@[0] != "k"@[0]); } }
    reveal_strlit("D");
    assert("D"@ != "k"@) by { if "D"@.len() == "k"@.len() { assert("D"@[0] != "k"@[0]); } }
    reveal_strlit("C");
    assert("C"@ != "k"@) by { if "C"@.len() == "k"@.len() { assert("C"@[0] != "k"@[0]); } }
    reveal_strlit("M");
    assert("M"@ != "k"@) by { if "M"@.len() == "k"@.len() { assert("M"@[0] != "k"@[0]); } }
    reveal_strlit("R");
    assert("R"@ != "k"@) by { if "R"@.len() == "k"@.len() { assert("R"@[0] != "k"@[0]); } }
}

proof fn lemma_default_h()
    ensures
        default_bindings().contains_key("h"@),
        default_bindings()["h"@] == Action::MoveLeft,
{
    reveal_strlit("h");
    reveal_strlit("l");
    assert("l"@ != "h"@) by { if "l"@.len() == "h"@.len() { assert("l"@[0] != "h"@[0]); } }
    reveal_strlit("down");
    assert("down"@ != "h"@) by { if "down"@.len() == "h"@.len() { assert("down"@[0] != "h"@[0]); } }
    reveal_strlit("up");
    assert("up"@ != "h"@) by { if "up"@.len() == "h"@.len() { assert("up"@[0] != "h"@[0]); } }
    reveal_strlit("left");
    assert("left"@ != "h"@) by { if "left"@.len() == "h"@.len() { assert("left"@[0] != "h"@[0]); } }
    reveal_strlit("right");
    assert("right"@ != "h"@) by { if "right"@.len() == "h"@.len() { assert("right"@[0] != "h"@[0]); } }
    reveal_strlit("enter");
    assert("enter"@ != "h"@) by { if "enter"@.len() == "h"@.len() { assert("enter"@[0] != "h"@[0]); } }
    reveal_strlit("g");
    assert("g"@ != "h"@) by { if "g"@.len() == "h"@.len() { assert("g"@[0] != "h"@[0]); } }
    reveal_strlit("G");
    assert("G"@ != "h"@) by { if "G"@.len() == "h"@.len() { assert("G"@[0] != "h"@[0]); } }
    reveal_strlit("~");
    assert("~"@ != "h"@) by { if "~"@.len() == "h"@.len() { assert("~"@[0] != "h"@[0]); } }
    reveal_strlit(".");
    assert("."@ != "h"@) by { if "."@.len() == "h"@.len() { assert("."@[0] != "h"@[0]); } }
    reveal_strlit(" ");
    assert(" "@ != "h"@) by { if " "@.len() == "h"@.len() { assert(" "@[0] != "h"@[0]); } }
    reveal_strlit("c");
    assert("c"@ != "h"@) by { if "c"@.len() == "h"@.len() { assert("c"@[0] != "h"@[0]); } }
    reveal_strlit("d");
    assert("d"@ != "h"@) by { if "d"@.len() == "h"@.len() { assert("d"@[0] != "h"@[0]); } }
    reveal_strlit("r");
    assert("r"@ != "h"@) by { if "r"@.len() == "h"@.len() { assert("r"@[0] != "h"@[0]); } }
    reveal_strlit("/");
    assert("/"@ != "h"@) by { if "/"@.len() == "h"@.len() { assert("/"@[0] != "h"@[0]); } }
    reveal_strlit("!");
    assert("!"@ != "h"@) by { if "!"@.len() == "h"@.len() { assert("!"@[0] != "h"@[0]); } }
    reveal_strlit("D");
    assert("D"@ != "h"@) by { if "D"@.len() == "h"@.len() { assert("D"@[0] != "h"@[0]); } }
    reveal_strlit("C");
    assert("C"@ != "h"@) by { if "C"@.len() == "h"@.len() { assert("C"@[0] != "h"@[0]); } }
    reveal_strlit("M");
    assert("M"@ != "h"@) by { if "M"@.len() == "h"@.len() { assert("M"@[0] != "h"@[0]); } }
    reveal_strlit("R");
    assert("R"@ != "h"@) by { if "R"@.len() == "h"@.len() { assert("R"@[0] != "h"@[0]); } }
}

proof fn lemma_default_l()
    ensures
        default_bindings().contains_key("l"@),
        default_bindings()["l"@] == Action::MoveRight,
{
    reveal_strlit("l");
    reveal_strlit("down");
    assert("down"@ != "l"@) by { if "down"@.len() == "l"@.len() { assert("down"@[0] != "l"@[0]); } }
    reveal_strlit("up");
    assert("up"@ != "l"@) by { if "up"@.len() == "l"@.len() { assert("up"@[0] != "l"@[0]); } }
    reveal_strlit("left");
    assert("left"@ != "l"@) by { if "left"@.len() == "l"@.len() { assert("left"@[0] != "l"@[0]); } }
    reveal_strlit("right");
    assert("right"@ != "l"@) by { if "right"@.len() == "l"@.len() { assert("right"@[0] != "l"@[0]); } }
    reveal_strlit("enter");
    assert("enter"@ != "l"@) by { if "enter"@.len() == "l"@.len() { assert("enter"@[0] != "l"@[0]); } }
    reveal_strlit("g");
    assert("g"@ != "l"@) by { if "g"@.len() == "l"@.len() { assert("g"@[0] != "l"@[0]); } }
    reveal_strlit("G");
    assert("G"@ != "l"@) by { if "G"@.len() == "l"@.len() { assert("G"@[0] != "l"@[0]); } }
    reveal_strlit("~");
    assert("~"@ != "l"@) by { if "~"@.len() == "l"@.len() { assert("~"@[0] != "l"@[0]); } }
    reveal_strlit(".");
    assert("."@ != "l"@) by { if "."@.len() == "l"@.len() { assert("."@[0] != "l"@[0]); } }
    reveal_strlit(" ");
    assert(" "@ != "l"@) by { if " "@.len() == "l"@.len() { assert(" "@[0] != "l"@[0]); } }
    reveal_strlit("c");
    assert("c"@ != "l"@) by { if "c"@.len() == "l"@.len() { assert("c"@[0] != "l"@[0]); } }
    reveal_strlit("d");
    assert("d"@ != "l"@) by { if "d"@.len() == "l"@.len() { assert("d"@[0] != "l"@[0]); } }
    reveal_strlit("r");
    assert("r"@ != "l"@) by { if "r"@.len() == "l"@.len() { assert("r"@[0] != "l"@[0]); } }
    reveal_strlit("/");
    assert("/"@ != "l"@) by { if "/"@.len() == "l"@.len() { assert("/"@[0] != "l"@[0]); } }
    reveal_strlit("!");
    assert("!"@ != "l"@) by { if "!"@.len() == "l"@.len() { assert("!"@[0] != "l"@[0]); } }
    reveal_strlit("D");
    assert("D"@ != "l"@) by { if "D"@.len() == "l"@.len() { assert("D"@[0] != "l"@[0]); } }
    reveal_strlit("C");
    assert("C"@ != "l"@) by { if "C"@.len() == "l"@.len() { assert("C"@[0] != "l"@[0]); } }
    reveal_strlit("M");
    assert("M"@ != "l"@) by { if "M"@.len() == "l"@.len() { assert("M"@[0] != "l"@[0]); } }
    reveal_strlit("R");
    assert("R"@ != "l"@) by { if "R"@.len() == "l"@.len() { assert("R"@[0] != "l"@[0]); } }
}

proof fn lemma_default_down()
    ensures
        default_bindings().contains_key("down"@),
        default_bindings()["down"@] == Action::MoveDown,
{
    reveal_strlit("down");
    reveal_strlit("up");
    assert("up"@ != "down"@) by { if "up"@.len() == "down"@.len() { assert("up"@[0] != "down"@[0]); } }
    reveal_strlit("left");
    assert("left"@ != "down"@) by { if "left"@.len() == "down"@.len() { assert("left"@[0] != "down"@[0]); } }
    reveal_strlit("right");
    assert("right"@ != "down"@) by { if "right"@.len() == "down"@.len() { assert("right"@[0] != "down"@[0]); } }
    reveal_strlit("enter");
    assert("enter"@ != "down"@) by { if "enter"@.len() == "down"@.len() { assert("enter"@[0] != "down"@[0]); } }
    reveal_strlit("g");
    assert("g"@ != "down"@) by { if "g"@.len() == "down"@.len() { assert("g"@[0] != "down"@[0]); } }
    reveal_strlit("G");
    assert("G"@ != "down"@) by { if "G"@.len() == "down"@.len() { assert("G"@[0] != "down"@[0]); } }
    reveal_strlit("~");
    assert("~"@ != "down"@) by { if "~"@.len() == "down"@.len() { assert("~"@[0] != "down"@[0]); } }
    reveal_strlit(".");
    assert("."@ != "down"@) by { if "."@.len() == "down"@.len() { assert("."@[0] != "down"@[0]); } }
    reveal_strlit(" ");
    assert(" "@ != "down"@) by { if " "@.len() == "down"@.len() { assert(" "@[0] != "down"@[0]); } }
    reveal_strlit("c");
    assert("c"@ != "down"@) by { if "c"@.len() == "down"@.len() { assert("c"@[0] != "down"@[0]); } }
    reveal_strlit("d");
    assert("d"@ != "down"@) by { if "d"@.len() == "down"@.len() { assert("d"@[0] != "down"@[0]); } }
    reveal_strlit("r");
    assert("r"@ != "down"@) by { if "r"@.len() == "down"@.len() { assert("r"@[0] != "down"@[0]); } }
    reveal_strlit("/");
    assert("/"@ != "down"@) by { if "/"@.len() == "down"@.len() { assert("/"@[0] != "down"@[0]); } }
    reveal_strlit("!");
    assert("!"@ != "down"@) by { if "!"@.len() == "down"@.len() { assert("!"@[0] != "down"@[0]); } }
    reveal_strlit("D");
    assert("D"@ != "down"@) by { if "D"@.len() == "down"@.len() { assert("D"@[0] != "down"@[0]); } }
    reveal_strlit("C");
    assert("C"@ != "down"@) by { if "C"@.len() == "down"@.len() { assert("C"@[0] != "down"@[0]); } }
    reveal_strlit("M");
    assert("M"@ != "down"@) by { if "M"@.len() == "down"@.len() { assert("M"@[0] != "down"@[0]); } }
    reveal_strlit("R");
    assert("R"@ != "down"@) by { if "R"@.len() == "down"@.len() { assert("R"@[0] != "down"@[0]); } }
}

proof fn lemma_default_up()
    ensures
        default_bindings().contains_key("up"@),
        default_bindings()["up"@] == Action::MoveUp,
{
    reveal_strlit("up");
    reveal_strlit("left");
    assert("left"@ != "up"@) by { if "left"@.len() == "up"@.len() { assert("left"@[0] != "up"@[0]); } }
    reveal_strlit("right");
    assert("right"@ != "up"@) by { if "right"@.len() == "up"@.len() { assert("right"@[0] != "up"@[0]); } }
    reveal_strlit("enter");
    assert("enter"@ != "up"@) by { if "enter"@.len() == "up"@.len() { assert("enter"@[0] != "up"@[0]); } }
    reveal_strlit("g");
    assert("g"@ != "up"@) by { if "g"@.len() == "up"@.len() { assert("g"@[0] != "up"@[0]); } }
    reveal_strlit("G");
    assert("G"@ != "up"@) by { if "G"@.len() == "up"@.len() { assert("G"@[0] != "up"@[0]); } }
    reveal_strlit("~");
    assert("~"@ != "up"@) by { if "~"@.len() == "up"@.len() { assert("~"@[0] != "up"@[0]); } }
    reveal_strlit(".");
    assert("."@ != "up"@) by { if "."@.len() == "up"@.len() { assert("."@[0] != "up"@[0]); } }
    reveal_strlit(" ");
    assert(" "@ != "up"@) by { if " "@.len() == "up"@.len() { assert(" "@[0] != "up"@[0]); } }
    reveal_strlit("c");
    assert("c"@ != "up"@) by { if "c"@.len() == "up"@.len() { assert("c"@[0] != "up"@[0]); } }
    reveal_strlit("d");
    assert("d"@ != "up"@) by { if "d"@.len() == "up"@.len() { assert("d"@[0] != "up"@[0]); } }
    reveal_strlit("r");
    assert("r"@ != "up"@) by { if "r"@.len() == "up"@.len() { assert("r"@[0] != "up"@[0]); } }
    reveal_strlit("/");
    assert("/"@ != "up"@) by { if "/"@.len() == "up"@.len() { assert("/"@[0] != "up"@[0]); } }
    reveal_strlit("!");
    assert("!"@ != "up"@) by { if "!"@.len() == "up"@.len() { assert("!"@[0] != "up"@[0]); } }
    reveal_strlit("D");
    assert("D"@ != "up"@) by { if "D"@.len() == "up"@.len() { assert("D"@[0] != "up"@[0]); } }
    reveal_strlit("C");
    assert("C"@ != "up"@) by { if "C"@.len() == "up"@.len() { assert("C"@[0] != "up"@[0]); } }
    reveal_strlit("M");
    assert("M"@ != "up"@) by { if "M"@.len() == "up"@.len() { assert("M"@[0] != "up"@[0]); } }
    reveal_strlit("R");
    assert("R"@ != "up"@) by { if "R"@.len() == "up"@.len() { assert("R"@[0] != "up"@[0]); } }
}

proof fn lemma_default_left()
    ensures
        default_bindings().contains_key("left"@),
        default_bindings()["left"@] == Action::MoveLeft,
{
    reveal_strlit("left");
    reveal_strlit("right");
    assert("right"@ != "left"@) by { if "right"@.len() == "left"@.len() { assert("right"@[0] != "left"@[0]); } }
    reveal_strlit("enter");
    assert("enter"@ != "left"@) by { if "enter"@.len() == "left"@.len() { assert("enter"@[0] != "left"@[0]); } }
    reveal_strlit("g");
    assert("g"@ != "left"@) by { if "g"@.len() == "left"@.len() { assert("g"@[0] != "left"@[0]); } }
    reveal_strlit("G");
    assert("G"@ != "left"@) by { if "G"@.len() == "left"@.len() { assert("G"@[0] != "left"@[0]); } }
    reveal_strlit("~");
    assert("~"@ != "left"@) by { if "~"@.len() == "left"@.len() { assert("~"@[0] != "left"@[0]); } }
    reveal_strlit(".");
    assert("."@ != "left"@) by { if "."@.len() == "left"@.len() { assert("."@[0] != "left"@[0]); } }
    reveal_strlit(" ");
    assert(" "@ != "left"@) by { if " "@.len() == "left"@.len() { assert(" "@[0] != "left"@[0]); } }
    reveal_strlit("c");
    assert("c"@ != "left"@) by { if "c"@.len() == "left"@.len() { assert("c"@[0] != "left"@[0]); } }
    reveal_strlit("d");
    assert("d"@ != "left"@) by { if "d"@.len() == "left"@.len() { assert("d"@[0] != "left"@[0]); } }
    reveal_strlit("r");
    assert("r"@ != "left"@) by { if "r"@.len() == "left"@.len() { assert("r"@[0] != "left"@[0]); } }
    reveal_strlit("/");
    assert("/"@ != "left"@) by { if "/"@.len() == "left"@.len() { assert("/"@[0] != "left"@[0]); } }
    reveal_strlit("!");
    assert("!"@ != "left"@) by { if "!"@.len() == "left"@.len() { assert("!"@[0] != "left"@[0]); } }
    reveal_strlit("D");
    assert("D"@ != "left"@) by { if "D"@.len() == "left"@.len() { assert("D"@[0] != "left"@[0]); } }
    reveal_strlit("C");
    assert("C"@ != "left"@) by { if "C"@.len() == "left"@.len() { assert("C"@[0] != "left"@[0]); } }
    reveal_strlit("M");
    assert("M"@ != "left"@) by { if "M"@.len() == "left"@.len() { assert("M"@[0] != "left"@[0]); } }
    reveal_strlit("R");
    assert("R"@ != "left"@) by { if "R"@.len() == "left"@.len() { assert("R"@[0] != "left"@[0]); } }
}

proof fn lemma_default_right()
    ensures
        default_bindings().contains_key("right"@),
        default_bindings()["right"@] == Action::MoveRight,
{
    reveal_strlit("right");
    reveal_strlit("enter");
    assert("enter"@ != "right"@) by { if "enter"@.len() == "right"@.len() { assert("enter"@[0] != "right"@[0]); } }
    reveal_strlit("g");
    assert("g"@ != "right"@) by { if "g"@.len() == "right"@.len() { assert("g"@[0] != "right"@[0]); } }
    reveal_strlit("G");
    assert("G"@ != "right"@) by { if "G"@.len() == "right"@.len() { assert("G"@[0] != "right"@[0]); } }
    reveal_strlit("~");
    assert("~"@ != "right"@) by { if "~"@.len() == "right"@.len() { assert("~"@[0] != "right"@[0]); } }
    reveal_strlit(".");
    assert("."@ != "right"@) by { if "."@.len() == "right"@.len() { assert("."@[0] != "right"@[0]); } }
    reveal_strlit(" ");
    assert(" "@ != "right"@) by { if " "@.len() == "right"@.len() { assert(" "@[0] != "right"@[0]); } }
    reveal_strlit("c");
    assert("c"@ != "right"@) by { if "c"@.len() == "right"@.len() { assert("c"@[0] != "right"@[0]); } }
    reveal_strlit("d");
    assert("d"@ != "right"@) by { if "d"@.len() == "right"@.len() { assert("d"@[0] != "right"@[0]); } }
    reveal_strlit("r");
    assert("r"@ != "right"@) by { if "r"@.len() == "right"@.len() { assert("r"@[0] != "right"@[0]); } }
    reveal_strlit("/");
    assert("/"@ != "right"@) by { if "/"@.len() == "right"@.len() { assert("/"@[0] != "right"@[0]); } }
    reveal_strlit("!");
    assert("!"@ != "right"@) by { if "!"@.len() == "right"@.len() { assert("!"@[0] != "right"@[0]); } }
    reveal_strlit("D");
    assert("D"@ != "right"@) by { if "D"@.len() == "right"@.len() { assert("D"@[0] != "right"@[0]); } }
    reveal_strlit("C");
    assert("C"@ != "right"@) by { if "C"@.len() == "right"@.len() { assert("C"@[0] != "right"@[0]); } }
    reveal_strlit("M");
    assert("M"@ != "right"@) by { if "M"@.len() == "right"@.len() { assert("M"@[0] != "right"@[0]); } }
    reveal_strlit("R");
    assert("R"@ != "right"@) by { if "R"@.len() == "right"@.len() { assert("R"@[0] != "right"@[0]); } }
}

proof fn lemma_default_enter()
    ensures
        default_bindings().contains_key("enter"@),
        default_bindings()["enter"@] == Action::Enter,
{
    reveal_strlit("enter");
    reveal_strlit("g");
    assert("g"@ != "enter"@) by { if "g"@.len() == "enter"@.len() { assert("g"@[0] != "enter"@[0]); } }
    reveal_strlit("G");
    assert("G"@ != "enter"@) by { if "G"@.len() == "enter"@.len() { assert("G"@[0] != "enter"@[0]); } }
    reveal_strlit("~");
    assert("~"@ != "enter"@) by { if "~"@.len() == "enter"@.len() { assert("~"@[0] != "enter"@[0]); } }
    reveal_strlit(".");
    assert("."@ != "enter"@) by { if "."@.len() == "enter"@.len() { assert("."@[0] != "enter"@[0]); } }
    reveal_strlit(" ");
    assert(" "@ != "enter"@) by { if " "@.len() == "enter"@.len() { assert(" "@[0] != "enter"@[0]); } }
    reveal_strlit("c");
    assert("c"@ != "enter"@) by { if "c"@.len() == "enter"@.len() { assert("c"@[0] != "enter"@[0]); } }
    reveal_strlit("d");
    assert("d"@ != "enter"@) by { if "d"@.len() == "enter"@.len() { assert("d"@[0] != "enter"@[0]); } }
    reveal_strlit("r");
    assert("r"@ != "enter"@) by { if "r"@.len() == "enter"@.len() { assert("r"@[0] != "enter"@[0]); } }
    reveal_strlit("/");
    assert("/"@ != "enter"@) by { if "/"@.len() == "enter"@.len() { assert("/"@[0] != "enter"@[0]); } }
    reveal_strlit("!");
    assert("!"@ != "enter"@) by { if "!"@.len() == "enter"@.len() { assert("!"@[0] != "enter"@[0]); } }
    reveal_strlit("D");
    assert("D"@ != "enter"@) by { if "D"@.len() == "enter"@.len() { assert("D"@[0] != "enter"@[0]); } }
    reveal_strlit("C");
    assert("C"@ != "enter"@) by { if "C"@.len() == "enter"@.len() { assert("C"@[0] != "enter"@[0]); } }
    reveal_strlit("M");
    assert("M"@ != "enter"@) by { if "M"@.len() == "enter"@.len() { assert("M"@[0] != "enter"@[0]); } }
    reveal_strlit("R");
    assert("R"@ != "enter"@) by { if "R"@.len() == "enter"@.len() { assert("R"@[0] != "enter"@[0]); } }
}

/// Unless the user binds them, the arrow keys and the vim keys agree and move
/// the way they point: Up and `k` move up, Down and `j` move down, Left and `h`
/// move left, Right and `l` move right; Enter enters, `q` quits.
pub proof fn law_default_movement_keys(custom: Map<Seq<char>, Action>)
    ensures
        !custom.contains_key(key_name(KeyCode::Up)) ==> action_for(custom, key_name(KeyCode::Up)) == Some(Action::MoveUp),
        !custom.contains_key(key_name(KeyCode::Char('k'))) ==> action_for(custom, key_name(KeyCode::Char('k')))
            == Some(Action::MoveUp),
        !custom.contains_key(key_name(KeyCode::Down)) ==> action_for(custom, key_name(KeyCode::Down))
            == Some(Action::MoveDown),
        !custom.contains_key(key_name(KeyCode::Char('j'))) ==> action_for(custom, key_name(KeyCode::Char('j')))
            == Some(Action::MoveDown),
        !custom.contains_key(key_name(KeyCode::Left)) ==> action_for(custom, key_name(KeyCode::Left))
            == Some(Action::MoveLeft),
        !custom.contains_key(key_name(KeyCode::Char('h'))) ==> action_for(custom, key_name(KeyCode::Char('h')))
            == Some(Action::MoveLeft),
        !custom.contains_key(key_name(KeyCode::Right)) ==> action_for(custom, key_name(KeyCode::Right))
            == Some(Action::MoveRight),
        !custom.contains_key(key_name(KeyCode::Char('l'))) ==> action_for(custom, key_name(KeyCode::Char('l')))
            == Some(Action::MoveRight),
        !custom.contains_key(key_name(KeyCode::Enter)) ==> action_for(custom, key_name(KeyCode::Enter))
            == Some(Action::Enter),
        !custom.contains_key(key_name(KeyCode::Char('q'))) ==> action_for(custom, key_name(KeyCode::Char('q')))
            == Some(Action::Quit),
{
    lemma_default_q();
    lemma_default_j();
    lemma_default_k();
    lemma_default_h();
    lemma_default_l();
    lemma_default_down();
    lemma_default_up();
    lemma_default_left();
    lemma_default_right();
    lemma_default_enter();
    reveal_strlit("k");
    reveal_strlit("j");
    reveal_strlit("h");
    reveal_strlit("l");
    reveal_strlit("q");
    assert("k"@ =~= seq!['k']);
    assert("j"@ =~= seq!['j']);
    assert("h"@ =~= seq!['h']);
    assert("l"@ =~= seq!['l']);
    assert("q"@ =~= seq!['q']);
}

/// A key the user did not bind keeps its default action (or none).
pub proof fn law_unbound_key_falls_back(custom: Map<Seq<char>, Action>, name: Seq<char>)
    requires
        !custom.contains_key(name),
    ensures
        action_for(custom, name) == action_for(Map::<Seq<char>, Action>::empty(), name),
{
}

} // verus!
