//! The configuration: colours, key overrides, the active theme and bookmarks.
use vstd::prelude::*;
use crate::keybindings::KeyCode;
use crate::pathname::{extension, extension_of, file_stem, file_stem_of, join, join_paths, subrange_chars};
use crate::text::{
    decimal, digit_char, is_ascii_digit, is_white_space, lemma_split_on_no_sep, lemma_split_on_sep_then, radix_digits,
    trim_end_ws, trim_start_ws, all_ascii_digits, ascii_lower_seq, ascii_lower_vec, chars_of, digits_value, eq_str, opt_chars,
    parse_usize, push_char, split_chars, split_on, string_of, trim_chars, trim_ws, unsigned_body,
    views,
};
use crate::theme::Color;

verus! {

/// The colour names of the interface, as a configuration writes them.
#[derive(Debug)]
pub struct Colors {
    pub background: String,
    pub foreground: String,
    pub highlight_bg: String,
    pub highlight_fg: String,
    pub directory: String,
    pub file: String,
    pub border: String,
    pub status: String,
}

/// The colour names of a `Colors`, in field order.
pub open spec fn color_fields(c: Colors) -> Seq<Seq<char>> {
    seq![
        c.background@,
        c.foreground@,
        c.highlight_bg@,
        c.highlight_fg@,
        c.directory@,
        c.file@,
        c.border@,
        c.status@,
    ]
}

/// The synthwave colour names, in field order.
pub open spec fn synthwave_color_names() -> Seq<Seq<char>> {
    seq!["black"@, "white"@, "magenta"@, "black"@, "cyan"@, "white"@, "magenta"@, "yellow"@]
}

/// The midnight-green colour names, in field order.
pub open spec fn midnight_green_color_names() -> Seq<Seq<char>> {
    seq![
        "black"@,
        "rgb(200,220,200)"@,
        "rgb(0,128,128)"@,
        "black"@,
        "rgb(0,200,150)"@,
        "rgb(200,220,200)"@,
        "rgb(0,128,128)"@,
        "rgb(100,200,100)"@,
    ]
}

/// The amber-crt colour names, in field order.
pub open spec fn amber_crt_color_names() -> Seq<Seq<char>> {
    seq![
        "black"@,
        "rgb(255,176,0)"@,
        "rgb(255,176,0)"@,
        "black"@,
        "rgb(255,200,50)"@,
        "rgb(255,176,0)"@,
        "rgb(200,140,0)"@,
        "rgb(255,220,80)"@,
    ]
}

impl Clone for Colors {
    fn clone(&self) -> (c: Self)
        ensures
            color_fields(c) == color_fields(*self),
    {
        Colors {
            background: self.background.clone(),
            foreground: self.foreground.clone(),
            highlight_bg: self.highlight_bg.clone(),
            highlight_fg: self.highlight_fg.clone(),
            directory: self.directory.clone(),
            file: self.file.clone(),
            border: self.border.clone(),
            status: self.status.clone(),
        }
    }
}

impl Colors {
    fn of_names(
        background: &str,
        foreground: &str,
        highlight_bg: &str,
        highlight_fg: &str,
        directory: &str,
        file: &str,
        border: &str,
        status: &str,
    ) -> (c: Colors)
        ensures
            color_fields(c) == seq![
                background@,
                foreground@,
                highlight_bg@,
                highlight_fg@,
                directory@,
                file@,
                border@,
                status@,
            ],
    {
        Colors {
            background: String::from_str(background),
            foreground: String::from_str(foreground),
            highlight_bg: String::from_str(highlight_bg),
            highlight_fg: String::from_str(highlight_fg),
            directory: String::from_str(directory),
            file: String::from_str(file),
            border: String::from_str(border),
            status: String::from_str(status),
        }
    }

    fn synthwave() -> (c: Colors)
        ensures
            color_fields(c) == synthwave_color_names(),
    {
        Colors::of_names("black", "white", "magenta", "black", "cyan", "white", "magenta", "yellow")
    }
}

impl Default for Colors {
    /// The synthwave colours.
    fn default() -> (c: Self)
        ensures
            color_fields(c) == synthwave_color_names(),
    {
        Colors::synthwave()
    }
}

/// Key overrides of a configuration; an unset one keeps its default key.
#[derive(Debug, Clone)]
pub struct KeyBindings {
    pub quit: Option<String>,
    pub up: Option<String>,
    pub down: Option<String>,
    pub left: Option<String>,
    pub right: Option<String>,
    pub top: Option<String>,
    pub bottom: Option<String>,
    pub home: Option<String>,
    pub toggle_hidden: Option<String>,
    pub copy: Option<String>,
    pub move_key: Option<String>,
    pub delete: Option<String>,
    pub rename: Option<String>,
    pub search: Option<String>,
    pub confirm: Option<String>,
    pub cancel: Option<String>,
}

/// No key is overridden.
pub open spec fn keys_unset(k: KeyBindings) -> bool {
    &&& k.quit is None
    &&& k.up is None
    &&& k.down is None
    &&& k.left is None
    &&& k.right is None
    &&& k.top is None
    &&& k.bottom is None
    &&& k.home is None
    &&& k.toggle_hidden is None
    &&& k.copy is None
    &&& k.move_key is None
    &&& k.delete is None
    &&& k.rename is None
    &&& k.search is None
    &&& k.confirm is None
    &&& k.cancel is None
}

impl Default for KeyBindings {
    fn default() -> (k: Self)
        ensures
            keys_unset(k),
    {
        KeyBindings {
            quit: None,
            up: None,
            down: None,
            left: None,
            right: None,
            top: None,
            bottom: None,
            home: None,
            toggle_hidden: None,
            copy: None,
            move_key: None,
            delete: None,
            rename: None,
            search: None,
            confirm: None,
            cancel: None,
        }
    }
}

/// The whole configuration.
#[derive(Debug, Clone)]
pub struct Config {
    pub colors: Colors,
    pub keys: KeyBindings,
    pub active_theme: Option<String>,
    pub bookmarks: Vec<String>,
}

impl Default for Config {
    /// Synthwave colours, no key overrides, no active theme, no bookmarks.
    fn default() -> (c: Self)
        ensures
            color_fields(c.colors) == synthwave_color_names(),
            keys_unset(c.keys),
            c.active_theme is None,
            c.bookmarks@.len() == 0,
    {
        Config {
            colors: Colors::default(),
            keys: KeyBindings::default(),
            active_theme: None,
            bookmarks: Vec::new(),
        }
    }
}

/// The names of the built-in themes, in the order they are offered.
pub open spec fn builtin_theme_names() -> Seq<Seq<char>> {
    seq!["synthwave-84"@, "midnight-green"@, "amber-crt"@]
}

/// The colour names of the built-in themes, in the same order.
pub open spec fn builtin_theme_colors() -> Seq<Seq<Seq<char>>> {
    seq![synthwave_color_names(), midnight_green_color_names(), amber_crt_color_names()]
}

/// A theme entry is the built-in theme `name` with colours `colors`: its own
/// name as active theme, no key overrides and no bookmarks.
pub open spec fn is_builtin_theme(
    entry: (String, Config),
    name: Seq<char>,
    colors: Seq<Seq<char>>,
) -> bool {
    &&& entry.0@ == name
    &&& color_fields(entry.1.colors) == colors
    &&& keys_unset(entry.1.keys)
    &&& opt_chars(entry.1.active_theme) == Some(name)
    &&& entry.1.bookmarks@.len() == 0
}

fn builtin_theme(name: &str, colors: Colors) -> (r: (String, Config))
    ensures
        is_builtin_theme(r, name@, color_fields(colors)),
{
    (
        String::from_str(name),
        Config {
            colors,
            keys: KeyBindings::default(),
            active_theme: Some(String::from_str(name)),
            bookmarks: Vec::new(),
        },
    )
}

/// The themes that ship with the program: synthwave-84, midnight-green and
/// amber-crt.
pub fn built_in_themes() -> (r: Vec<(String, Config)>)
    ensures
        r@.len() == 3,
        forall|i: int|
            0 <= i < 3 ==> is_builtin_theme(
                #[trigger] r@[i],
                builtin_theme_names()[i],
                builtin_theme_colors()[i],
            ),
{
    let mut r: Vec<(String, Config)> = Vec::new();
    r.push(builtin_theme("synthwave-84", Colors::synthwave()));
    r.push(
        builtin_theme(
            "midnight-green",
            Colors::of_names(
                "black",
                "rgb(200,220,200)",
                "rgb(0,128,128)",
                "black",
                "rgb(0,200,150)",
                "rgb(200,220,200)",
                "rgb(0,128,128)",
                "rgb(100,200,100)",
            ),
        ),
    );
    r.push(
        builtin_theme(
            "amber-crt",
            Colors::of_names(
                "black",
                "rgb(255,176,0)",
                "rgb(255,176,0)",
                "black",
                "rgb(255,200,50)",
                "rgb(255,176,0)",
                "rgb(200,140,0)",
                "rgb(255,220,80)",
            ),
        ),
    );
    r
}

/// A key reduced to what key overrides can name.
#[derive(Debug, Clone)]
pub enum KeyCodeChar {
    Char(String),
    Enter,
    Esc,
    Backspace,
    Other,
}

impl KeyCodeChar {
    /// The reduced form of a key.
    pub fn from_key(code: &KeyCode) -> (r: KeyCodeChar)
        ensures
            match *code {
                KeyCode::Char(c) => r matches KeyCodeChar::Char(s) && s@ == seq![c],
                KeyCode::Enter => r is Enter,
                KeyCode::Esc => r is Esc,
                KeyCode::Backspace => r is Backspace,
                _ => r is Other,
            },
    {
        match code {
            KeyCode::Char(c) => {
                let mut s = String::new();
                push_char(&mut s, *c);
                assert(s@ =~= seq![*c]);
                KeyCodeChar::Char(s)
            },
            KeyCode::Enter => KeyCodeChar::Enter,
            KeyCode::Esc => KeyCodeChar::Esc,
            KeyCode::Backspace => KeyCodeChar::Backspace,
            _ => KeyCodeChar::Other,
        }
    }
}

/// Whether a configured key names the key typed.
pub open spec fn key_matches_spec(configured: Option<Seq<char>>, code: KeyCodeChar) -> bool {
    match configured {
        Some(k) => match code {
            KeyCodeChar::Char(c) => k == c@,
            KeyCodeChar::Enter => k == "enter"@,
            KeyCodeChar::Esc => k == "esc"@,
            KeyCodeChar::Backspace => k == "backspace"@,
            KeyCodeChar::Other => false,
        },
        None => false,
    }
}

/// Whether a configured key names the key typed: a character matches itself,
/// and "enter", "esc" and "backspace" match those keys.
pub fn key_matches(configured: &Option<String>, code: &KeyCodeChar) -> (r: bool)
    ensures
        r == key_matches_spec(opt_chars(*configured), *code),
{
    match (configured, code) {
        (Some(k), KeyCodeChar::Char(c)) => eq_str(k.as_str(), c.as_str()),
        (Some(k), KeyCodeChar::Enter) => eq_str(k.as_str(), "enter"),
        (Some(k), KeyCodeChar::Esc) => eq_str(k.as_str(), "esc"),
        (Some(k), KeyCodeChar::Backspace) => eq_str(k.as_str(), "backspace"),
        _ => false,
    }
}

} // verus!

verus! {

/// The head of a configuration file, up to the active theme's line. The
/// top-level keys (active theme, bookmarks) come before any table.
pub const TOML_HEAD: &'static str = "# VHS-86 configuration\n\n# Active theme name. Built-in: synthwave-84, midnight-green, amber-crt\n";

/// The active theme's line when none is set.
pub const TOML_THEME_UNSET: &'static str = "# active_theme = \"synthwave-84\"\n";

/// What comes between the active theme's line and the bookmarks.
pub const TOML_BOOKMARKS_INTRO: &'static str = "\n# Saved directory bookmarks for quick jumping\n";

/// The bookmarks when there are none: an empty array (the key must be there
/// for the file to load), then a commented example.
pub const TOML_BOOKMARKS_UNSET: &'static str = "bookmarks = []\n# bookmarks = [\n#     \"/home/user/projects\",\n#     \"/home/user/documents\",\n# ]\n";

/// What comes between the bookmarks and the first colour's value.
pub const TOML_COLORS_HEAD: &'static str = "\n# Colors: black, red, green, yellow, blue, magenta, cyan, gray,\n#         dark_gray, light_red, light_green, light_yellow,\n#         light_blue, light_magenta, light_cyan, white,\n#         or rgb(r,g,b) e.g. rgb(255,0,255)\n[colors]\nbackground = \"";

/// The tail of a configuration file, after the last colour's value: the
/// commented key overrides.
pub const TOML_TAIL: &'static str = "\"\n\n# Optional keybinding overrides.\n# Use a single character or special name: enter, esc, backspace.\n[keys]\n# quit = \"q\"\n# up = \"k\"\n# down = \"j\"\n# left = \"h\"\n# right = \"l\"\n# top = \"g\"\n# bottom = \"G\"\n# home = \"~\"\n# toggle_hidden = \".\"\n# copy = \"c\"\n# move = \"m\"\n# delete = \"d\"\n# rename = \"r\"\n# search = \"/\"\n# confirm = \"y\"\n# cancel = \"n\"\n";

/// The active theme's line.
pub open spec fn theme_line(active: Option<Seq<char>>) -> Seq<char> {
    match active {
        Some(t) => "active_theme = \""@ + t + "\"\n"@,
        None => TOML_THEME_UNSET@,
    }
}

/// A bookmark as an entry of the bookmarks array.
pub open spec fn quoted_bookmark(b: Seq<char>) -> Seq<char> {
    "    \""@ + b + "\""@
}

/// The entries of the bookmarks array, one per line, separated by commas.
pub open spec fn bookmark_entries(bs: Seq<Seq<char>>) -> Seq<char>
    decreases bs.len(),
{
    if bs.len() == 0 {
        Seq::empty()
    } else if bs.len() == 1 {
        quoted_bookmark(bs[0])
    } else {
        bookmark_entries(bs.drop_last()) + ",\n"@ + quoted_bookmark(bs.last())
    }
}

/// The bookmarks part of a configuration file.
pub open spec fn bookmarks_text(bs: Seq<Seq<char>>) -> Seq<char> {
    if bs.len() == 0 {
        TOML_BOOKMARKS_UNSET@
    } else {
        "bookmarks = [\n"@ + bookmark_entries(bs) + "\n]\n"@
    }
}

/// The views of a list of strings.
pub open spec fn string_views(v: Seq<String>) -> Seq<Seq<char>> {
    v.map_values(|s: String| s@)
}

/// A configuration as its file is written: the active theme and the bookmarks
/// (top-level keys, so before any table), the colours, and the key overrides
/// as comments.
pub open spec fn toml_text(c: Config) -> Seq<char> {
    TOML_HEAD@ + theme_line(opt_chars(c.active_theme)) + TOML_BOOKMARKS_INTRO@ + bookmarks_text(
        string_views(c.bookmarks@),
    ) + TOML_COLORS_HEAD@ + c.colors.background@ + "\"\nforeground = \""@ + c.colors.foreground@
        + "\"\nhighlight_bg = \""@ + c.colors.highlight_bg@ + "\"\nhighlight_fg = \""@
        + c.colors.highlight_fg@ + "\"\ndirectory = \""@ + c.colors.directory@
        + "\"\nfile = \""@ + c.colors.file@ + "\"\nborder = \""@ + c.colors.border@
        + "\"\nstatus = \""@ + c.colors.status@ + TOML_TAIL@
}

fn push_bookmarks(s: &mut String, bookmarks: &Vec<String>)
    ensures
        final(s)@ == old(s)@ + bookmarks_text(string_views(bookmarks@)),
{
    if bookmarks.len() == 0 {
        s.append(TOML_BOOKMARKS_UNSET);
        return;
    }
    let ghost bs = string_views(bookmarks@);
    let ghost start = s@;
    s.append("bookmarks = [\n");
    let ghost head = s@;
    let mut i: usize = 0;
    while i < bookmarks.len()
        invariant
            i <= bookmarks.len(),
            bs == string_views(bookmarks@),
            s@ == head + bookmark_entries(bs.subrange(0, i as int)),
        decreases bookmarks.len() - i,
    {
        let ghost prev = s@;
        if i > 0 {
            s.append(",\n");
        }
        s.append("    \"");
        s.append(bookmarks[i].as_str());
        s.append("\"");
        proof {
            let sub = bs.subrange(0, i + 1);
            assert(sub.drop_last() =~= bs.subrange(0, i as int));
            assert(sub.last() == bookmarks@[i as int]@);
            if i == 0 {
                assert(bs.subrange(0, 0) =~= Seq::<Seq<char>>::empty());
                assert(s@ =~= head + bookmark_entries(sub));
            } else {
                assert(s@ =~= head + bookmark_entries(sub));
            }
        }
        i = i + 1;
    }
    s.append("\n]\n");
    assert(bs.subrange(0, bookmarks.len() as int) =~= bs);
    assert(s@ =~= start + bookmarks_text(bs));
}

impl Config {
    /// The configuration as its file is written.
    pub fn to_toml(&self) -> (r: String)
        ensures
            r@ == toml_text(*self),
    {
        let mut s = String::from_str(TOML_HEAD);
        match &self.active_theme {
            Some(t) => {
                s.append("active_theme = \"");
                s.append(t.as_str());
                s.append("\"\n");
            },
            None => {
                s.append(TOML_THEME_UNSET);
            },
        }
        s.append(TOML_BOOKMARKS_INTRO);
        push_bookmarks(&mut s, &self.bookmarks);
        s.append(TOML_COLORS_HEAD);
        s.append(self.colors.background.as_str());
        s.append("\"\nforeground = \"");
        s.append(self.colors.foreground.as_str());
        s.append("\"\nhighlight_bg = \"");
        s.append(self.colors.highlight_bg.as_str());
        s.append("\"\nhighlight_fg = \"");
        s.append(self.colors.highlight_fg.as_str());
        s.append("\"\ndirectory = \"");
        s.append(self.colors.directory.as_str());
        s.append("\"\nfile = \"");
        s.append(self.colors.file.as_str());
        s.append("\"\nborder = \"");
        s.append(self.colors.border.as_str());
        s.append("\"\nstatus = \"");
        s.append(self.colors.status.as_str());
        s.append(TOML_TAIL);
        s
    }
}

} // verus!

verus! {

/// What `str::parse::<u8>` gives: an optional `+` followed by one or more ASCII
/// digits whose value is at most 255; `None` for anything else.
pub open spec fn parse_u8_of(s: Seq<char>) -> Option<u8> {
    let body = unsigned_body(s);
    if body.len() > 0 && all_ascii_digits(body) && digits_value(body) <= 255 {
        Some(digits_value(body) as u8)
    } else {
        None
    }
}

/// `str::parse::<u8>`, with the error as `None`.
pub fn parse_u8(s: &Vec<char>) -> (r: Option<u8>)
    ensures
        r == parse_u8_of(s@),
{
    match parse_usize(s) {
        Some(n) => {
            if n <= 255 {
                Some(n as u8)
            } else {
                None
            }
        },
        None => None,
    }
}

/// The colour of a lower-cased name; white for any name not known.
pub open spec fn named_color(t: Seq<char>) -> Color {
    if t == "black"@ {
        Color::Black
    } else if t == "red"@ {
        Color::Red
    } else if t == "green"@ {
        Color::Green
    } else if t == "yellow"@ {
        Color::Yellow
    } else if t == "blue"@ {
        Color::Blue
    } else if t == "magenta"@ {
        Color::Magenta
    } else if t == "cyan"@ {
        Color::Cyan
    } else if t == "gray"@ || t == "grey"@ {
        Color::Gray
    } else if t == "dark_gray"@ || t == "dark_grey"@ {
        Color::DarkGray
    } else if t == "light_red"@ {
        Color::LightRed
    } else if t == "light_green"@ {
        Color::LightGreen
    } else if t == "light_yellow"@ {
        Color::LightYellow
    } else if t == "light_blue"@ {
        Color::LightBlue
    } else if t == "light_magenta"@ {
        Color::LightMagenta
    } else if t == "light_cyan"@ {
        Color::LightCyan
    } else {
        Color::White
    }
}

/// The colour of a lower-cased `rgb(r,g,b)`, each component (trimmed) a `u8`.
pub open spec fn rgb_color(t: Seq<char>) -> Option<Color> {
    if t.len() >= 5 && t.subrange(0, 4) == "rgb("@ && t.last() == ')' {
        let parts = split_on(t.subrange(4, t.len() - 1), ',');
        if parts.len() == 3 {
            match (
                parse_u8_of(trim_ws(parts[0])),
                parse_u8_of(trim_ws(parts[1])),
                parse_u8_of(trim_ws(parts[2])),
            ) {
                (Some(r), Some(g), Some(b)) => Some(Color::Rgb(r, g, b)),
                _ => None,
            }
        } else {
            None
        }
    } else {
        None
    }
}

/// The colour a configuration's colour name stands for: trimmed and lower-cased
/// (ASCII), either `rgb(r,g,b)` or one of the sixteen names; white otherwise.
pub open spec fn color_of_name(s: Seq<char>) -> Color {
    let t = ascii_lower_seq(trim_ws(s));
    match rgb_color(t) {
        Some(c) => c,
        None => named_color(t),
    }
}

fn rgb_color_exec(t: &Vec<char>) -> (r: Option<Color>)
    ensures
        r == rgb_color(t@),
{
    let n = t.len();
    if n >= 5 && t[0] == 'r' && t[1] == 'g' && t[2] == 'b' && t[3] == '(' && t[n - 1] == ')' {
        proof {
            reveal_strlit("rgb(");
            assert(t@.subrange(0, 4) =~= "rgb("@);
        }
        let inner = subrange_chars(t, 4, n - 1);
        let parts = split_chars(&inner, ',');
        if parts.len() == 3 {
            let r = parse_u8(&trim_chars(&parts[0]));
            let g = parse_u8(&trim_chars(&parts[1]));
            let b = parse_u8(&trim_chars(&parts[2]));
            assert(views(parts@)[0] == parts@[0]@);
            assert(views(parts@)[1] == parts@[1]@);
            assert(views(parts@)[2] == parts@[2]@);
            match (r, g, b) {
                (Some(r), Some(g), Some(b)) => Some(Color::Rgb(r, g, b)),
                _ => None,
            }
        } else {
            None
        }
    } else {
        proof {
            reveal_strlit("rgb(");
            if n >= 5 && t@.subrange(0, 4) == "rgb("@ {
                assert(t@.subrange(0, 4)[0] == t@[0]);
                assert(t@.subrange(0, 4)[1] == t@[1]);
                assert(t@.subrange(0, 4)[2] == t@[2]);
                assert(t@.subrange(0, 4)[3] == t@[3]);
            }
        }
        None
    }
}

/// The colour a configuration's colour name stands for.
pub fn parse_color(s: &str) -> (c: Color)
    ensures
        c == color_of_name(s@),
{
    let cs = chars_of(s);
    let trimmed = trim_chars(&cs);
    let t = ascii_lower_vec(&trimmed);
    if let Some(c) = rgb_color_exec(&t) {
        return c;
    }
    let ts = string_of(&t);
    let n = ts.as_str();
    if eq_str(n, "black") {
        Color::Black
    } else if eq_str(n, "red") {
        Color::Red
    } else if eq_str(n, "green") {
        Color::Green
    } else if eq_str(n, "yellow") {
        Color::Yellow
    } else if eq_str(n, "blue") {
        Color::Blue
    } else if eq_str(n, "magenta") {
        Color::Magenta
    } else if eq_str(n, "cyan") {
        Color::Cyan
    } else if eq_str(n, "gray") || eq_str(n, "grey") {
        Color::Gray
    } else if eq_str(n, "dark_gray") || eq_str(n, "dark_grey") {
        Color::DarkGray
    } else if eq_str(n, "light_red") {
        Color::LightRed
    } else if eq_str(n, "light_green") {
        Color::LightGreen
    } else if eq_str(n, "light_yellow") {
        Color::LightYellow
    } else if eq_str(n, "light_blue") {
        Color::LightBlue
    } else if eq_str(n, "light_magenta") {
        Color::LightMagenta
    } else if eq_str(n, "light_cyan") {
        Color::LightCyan
    } else {
        Color::White
    }
}

} // verus!

verus! {

/// The index of the first theme named `name`, or -1.
pub open spec fn first_theme_index(names: Seq<Seq<char>>, name: Seq<char>) -> int
    decreases names.len(),
{
    if names.len() == 0 {
        -1
    } else {
        let k = first_theme_index(names.drop_last(), name);
        if k >= 0 {
            k
        } else if names.last() == name {
            names.len() - 1
        } else {
            -1
        }
    }
}

pub proof fn lemma_first_theme_index(names: Seq<Seq<char>>, name: Seq<char>)
    ensures
        -1 <= first_theme_index(names, name) < names.len(),
        first_theme_index(names, name) >= 0 ==> names[first_theme_index(names, name)] == name,
        first_theme_index(names, name) >= 0 ==> forall|j: int|
            0 <= j < first_theme_index(names, name) ==> names[j] != name,
        first_theme_index(names, name) == -1 ==> forall|j: int| 0 <= j < names.len() ==> names[j] != name,
    decreases names.len(),
{
    if names.len() > 0 {
        let init = names.drop_last();
        lemma_first_theme_index(init, name);
        assert forall|j: int| 0 <= j < init.len() implies init[j] == names[j] by {}
    }
}

/// The names of a list of themes.
pub open spec fn theme_names(themes: Seq<(String, Config)>) -> Seq<Seq<char>> {
    themes.map_values(|t: (String, Config)| t.0@)
}

fn find_theme(themes: &Vec<(String, Config)>, name: &str) -> (r: Option<usize>)
    ensures
        match r {
            Some(i) => i < themes@.len() && i == first_theme_index(theme_names(themes@), name@),
            None => first_theme_index(theme_names(themes@), name@) == -1,
        },
{
    let ghost names = theme_names(themes@);
    proof {
        lemma_first_theme_index(names, name@);
    }
    let mut i: usize = 0;
    while i < themes.len()
        invariant
            i <= themes.len(),
            names == theme_names(themes@),
            forall|j: int| 0 <= j < i ==> names[j] != name@,
            -1 <= first_theme_index(names, name@) < names.len(),
            first_theme_index(names, name@) >= 0 ==> names[first_theme_index(names, name@)] == name@,
            first_theme_index(names, name@) >= 0 ==> forall|j: int|
                0 <= j < first_theme_index(names, name@) ==> names[j] != name@,
            first_theme_index(names, name@) == -1 ==> forall|j: int|
                0 <= j < names.len() ==> names[j] != name@,
        decreases themes.len() - i,
    {
        assert(names[i as int] == themes@[i as int].0@);
        if eq_str(themes[i].0.as_str(), name) {
            return Some(i);
        }
        i = i + 1;
    }
    None
}

/// Takes the colours of the configuration's active theme, if it names one of
/// `themes` (the first of that name); otherwise the configuration is unchanged.
pub fn apply_active_theme(config: &mut Config, themes: &Vec<(String, Config)>)
    ensures
        final(config).keys == old(config).keys,
        final(config).active_theme == old(config).active_theme,
        final(config).bookmarks == old(config).bookmarks,
        color_fields(final(config).colors) == match old(config).active_theme {
            Some(name) => {
                let k = first_theme_index(theme_names(themes@), name@);
                if k >= 0 {
                    color_fields(themes@[k].1.colors)
                } else {
                    color_fields(old(config).colors)
                }
            },
            None => color_fields(old(config).colors),
        },
{
    let found = match &config.active_theme {
        Some(name) => find_theme(themes, name.as_str()),
        None => None,
    };
    if let Some(i) = found {
        config.colors = themes[i].1.colors.clone();
    }
}

/// The name a theme file gives its theme: the stem of a `.toml` file (or
/// "unknown" where it has none). `None` for other files, and for a name that
/// one of `themes` already has.
pub open spec fn theme_file_name(path: Seq<char>, names: Seq<Seq<char>>) -> Option<Seq<char>> {
    if extension_of(path) == Some("toml"@) {
        let name = match file_stem_of(path) {
            Some(s) => s,
            None => "unknown"@,
        };
        if names.contains(name) {
            None
        } else {
            Some(name)
        }
    } else {
        None
    }
}

/// The name of the theme a file in the themes directory adds, if it adds one.
pub fn theme_name_for(path: &str, themes: &Vec<(String, Config)>) -> (r: Option<String>)
    ensures
        opt_chars(r) == theme_file_name(path@, theme_names(themes@)),
{
    let toml = match extension(path) {
        Some(e) => eq_str(e.as_str(), "toml"),
        None => false,
    };
    if !toml {
        return None;
    }
    let name = match file_stem(path) {
        Some(s) => s,
        None => String::from_str("unknown"),
    };
    proof {
        lemma_first_theme_index(theme_names(themes@), name@);
    }
    match find_theme(themes, name.as_str()) {
        Some(i) => {
            assert(theme_names(themes@)[i as int] == name@);
            None
        },
        None => Some(name),
    }
}

/// The sample theme written into a new themes directory. It holds every key a
/// configuration file must have (no bookmarks, an empty `[keys]` table), so it
/// loads as a theme.
pub const NEON_DREAM_THEME: &'static str = "# Neon Dream theme for VHS-86\nbookmarks = []\n\n[colors]\nbackground = \"black\"\nforeground = \"rgb(200,200,255)\"\nhighlight_bg = \"rgb(255,0,255)\"\nhighlight_fg = \"black\"\ndirectory = \"rgb(0,255,255)\"\nfile = \"rgb(200,200,255)\"\nborder = \"rgb(255,0,255)\"\nstatus = \"rgb(255,255,0)\"\n\n[keys]\n";

/// `dirs::config_dir`, as text. It depends on the environment, so nothing is
/// stated of it.
#[verifier::external_body]
pub(crate) fn user_config_dir() -> Option<String> {
    dirs::config_dir().map(|p| p.to_string_lossy().to_string())
}

/// Where the configuration file is under a configuration directory.
pub fn config_path_in(config_dir: Option<String>) -> (r: Option<String>)
    ensures
        opt_chars(r) == match config_dir {
            Some(d) => Some(join_paths(join_paths(d@, "vhs-86"@), "config.toml"@)),
            None => None,
        },
{
    match config_dir {
        Some(d) => {
            let app_dir = join(d.as_str(), "vhs-86");
            Some(join(app_dir.as_str(), "config.toml"))
        },
        None => None,
    }
}

/// Where the themes directory is under a configuration directory.
pub fn themes_dir_in(config_dir: Option<String>) -> (r: Option<String>)
    ensures
        opt_chars(r) == match config_dir {
            Some(d) => Some(join_paths(join_paths(d@, "vhs-86"@), "themes"@)),
            None => None,
        },
{
    match config_dir {
        Some(d) => {
            let app_dir = join(d.as_str(), "vhs-86");
            Some(join(app_dir.as_str(), "themes"))
        },
        None => None,
    }
}

/// The configuration file of this user: `vhs-86/config.toml` under the user's
/// configuration directory, if there is one.
pub fn config_path() -> (r: Option<String>)
    ensures
        r is Some ==> exists|d: Seq<char>|
            opt_chars(r) == Some(join_paths(join_paths(d, "vhs-86"@), "config.toml"@)),
{
    let dir = user_config_dir();
    let ghost dv = dir;
    let r = config_path_in(dir);
    proof {
        if let Some(d) = dv {
            assert(opt_chars(r) == Some(join_paths(join_paths(d@, "vhs-86"@), "config.toml"@)));
        }
    }
    r
}

/// The themes directory of this user: `vhs-86/themes` under the user's
/// configuration directory, if there is one.
pub fn themes_dir() -> (r: Option<String>)
    ensures
        r is Some ==> exists|d: Seq<char>|
            opt_chars(r) == Some(join_paths(join_paths(d, "vhs-86"@), "themes"@)),
{
    let dir = user_config_dir();
    let ghost dv = dir;
    let r = themes_dir_in(dir);
    proof {
        if let Some(d) = dv {
            assert(opt_chars(r) == Some(join_paths(join_paths(d@, "vhs-86"@), "themes"@)));
        }
    }
    r
}

} // verus!

verus! {

/// `rgb(r,g,b)` with the components in decimal, as a configuration writes a
/// 24-bit colour.
pub open spec fn rgb_text(r: u8, g: u8, b: u8) -> Seq<char> {
    "rgb("@ + decimal(r as nat) + seq![','] + decimal(g as nat) + seq![','] + decimal(b as nat) + seq![')']
}

proof fn lemma_decimal_digits(n: nat)
    ensures
        decimal(n).len() > 0,
        all_ascii_digits(decimal(n)),
        digits_value(decimal(n)) == n,
    decreases n,
{
    let s = decimal(n);
    if n < 10 {
        assert(s == seq![digit_char(n)]);
        assert(s.drop_last() =~= Seq::<char>::empty());
        assert(s.last() == digit_char(n));
        assert((digit_char(n) as u32) - 48 == n);
        assert(digits_value(s) == digits_value(s.drop_last()) * 10 + ((s.last() as u32) - 48) as nat);
        assert(digits_value(s.drop_last()) == 0);
    } else {
        lemma_decimal_digits(n / 10);
        assert(s == radix_digits(n / 10, 10).push(digit_char(n % 10)));
        assert(s.drop_last() =~= decimal(n / 10));
        assert(s.last() == digit_char(n % 10));
        assert((digit_char(n % 10) as u32) - 48 == n % 10);
        assert(n == (n / 10) * 10 + n % 10) by (nonlinear_arith);
        assert(digits_value(s) == digits_value(s.drop_last()) * 10 + ((s.last() as u32) - 48) as nat);
        assert forall|i: int| 0 <= i < s.len() implies is_ascii_digit(#[trigger] s[i]) by {
            if i < s.len() - 1 {
                assert(s[i] == decimal(n / 10)[i]);
            }
        }
    }
}

proof fn lemma_trim_plain(s: Seq<char>)
    requires
        s.len() > 0,
        !is_white_space(s[0]),
        !is_white_space(s.last()),
    ensures
        trim_ws(s) == s,
{
}

proof fn lemma_parse_u8_decimal(n: u8)
    ensures
        parse_u8_of(decimal(n as nat)) == Some(n),
        trim_ws(decimal(n as nat)) == decimal(n as nat),
        !decimal(n as nat).contains(','),
{
    let s = decimal(n as nat);
    lemma_decimal_digits(n as nat);
    assert(is_ascii_digit(s[0]));
    assert(is_ascii_digit(s[s.len() - 1]));
    lemma_trim_plain(s);
    assert(unsigned_body(s) == s);
    if s.contains(',') {
        let k = choose|k: int| 0 <= k < s.len() && s[k] == ',';
        assert(is_ascii_digit(s[k]));
    }
}

/// Each colour name reads as the colour it names, whatever its case and
/// surrounding white space: `black`, `red`, `green`, `yellow`, `blue`,
/// `magenta`, `cyan`, `gray`/`grey`, `dark_gray`/`dark_grey`, the six
/// `light_` colours, and `white`.
pub proof fn law_color_names(s: Seq<char>)
    ensures
        ascii_lower_seq(trim_ws(s)) == seq!['b', 'l', 'a', 'c', 'k'] ==> color_of_name(s) == Color::Black,
        ascii_lower_seq(trim_ws(s)) == seq!['r', 'e', 'd'] ==> color_of_name(s) == Color::Red,
        ascii_lower_seq(trim_ws(s)) == seq!['g', 'r', 'e', 'e', 'n'] ==> color_of_name(s) == Color::Green,
        ascii_lower_seq(trim_ws(s)) == seq!['y', 'e', 'l', 'l', 'o', 'w'] ==> color_of_name(s) == Color::Yellow,
        ascii_lower_seq(trim_ws(s)) == seq!['b', 'l', 'u', 'e'] ==> color_of_name(s) == Color::Blue,
        ascii_lower_seq(trim_ws(s)) == seq!['m', 'a', 'g', 'e', 'n', 't', 'a'] ==> color_of_name(s) == Color::Magenta,
        ascii_lower_seq(trim_ws(s)) == seq!['c', 'y', 'a', 'n'] ==> color_of_name(s) == Color::Cyan,
        ascii_lower_seq(trim_ws(s)) == seq!['g', 'r', 'a', 'y'] ==> color_of_name(s) == Color::Gray,
        ascii_lower_seq(trim_ws(s)) == seq!['g', 'r', 'e', 'y'] ==> color_of_name(s) == Color::Gray,
        ascii_lower_seq(trim_ws(s)) == seq!['d', 'a', 'r', 'k', '_', 'g', 'r', 'a', 'y'] ==> color_of_name(s) == Color::DarkGray,
        ascii_lower_seq(trim_ws(s)) == seq!['d', 'a', 'r', 'k', '_', 'g', 'r', 'e', 'y'] ==> color_of_name(s) == Color::DarkGray,
        ascii_lower_seq(trim_ws(s)) == seq!['l', 'i', 'g', 'h', 't', '_', 'r', 'e', 'd'] ==> color_of_name(s) == Color::LightRed,
        ascii_lower_seq(trim_ws(s)) == seq!['l', 'i', 'g', 'h', 't', '_', 'g', 'r', 'e', 'e', 'n'] ==> color_of_name(s) == Color::LightGreen,
        ascii_lower_seq(trim_ws(s)) == seq!['l', 'i', 'g', 'h', 't', '_', 'y', 'e', 'l', 'l', 'o', 'w'] ==> color_of_name(s) == Color::LightYellow,
        ascii_lower_seq(trim_ws(s)) == seq!['l', 'i', 'g', 'h', 't', '_', 'b', 'l', 'u', 'e'] ==> color_of_name(s) == Color::LightBlue,
        ascii_lower_seq(trim_ws(s)) == seq!['l', 'i', 'g', 'h', 't', '_', 'm', 'a', 'g', 'e', 'n', 't', 'a'] ==> color_of_name(s) == Color::LightMagenta,
        ascii_lower_seq(trim_ws(s)) == seq!['l', 'i', 'g', 'h', 't', '_', 'c', 'y', 'a', 'n'] ==> color_of_name(s) == Color::LightCyan,
        ascii_lower_seq(trim_ws(s)) == seq!['w', 'h', 'i', 't', 'e'] ==> color_of_name(s) == Color::White,
{
    reveal_strlit("rgb(");
    reveal_strlit("black");
    reveal_strlit("red");
    reveal_strlit("green");
    reveal_strlit("yellow");
    reveal_strlit("blue");
    reveal_strlit("magenta");
    reveal_strlit("cyan");
    reveal_strlit("gray");
    reveal_strlit("grey");
    reveal_strlit("dark_gray");
    reveal_strlit("dark_grey");
    reveal_strlit("light_red");
    reveal_strlit("light_green");
    reveal_strlit("light_yellow");
    reveal_strlit("light_blue");
    reveal_strlit("light_magenta");
    reveal_strlit("light_cyan");
    assert("black"@ =~= seq!['b', 'l', 'a', 'c', 'k']);
    assert("red"@ =~= seq!['r', 'e', 'd']);
    assert("green"@ =~= seq!['g', 'r', 'e', 'e', 'n']);
    assert("yellow"@ =~= seq!['y', 'e', 'l', 'l', 'o', 'w']);
    assert("blue"@ =~= seq!['b', 'l', 'u', 'e']);
    assert("magenta"@ =~= seq!['m', 'a', 'g', 'e', 'n', 't', 'a']);
    assert("cyan"@ =~= seq!['c', 'y', 'a', 'n']);
    assert("gray"@ =~= seq!['g', 'r', 'a', 'y']);
    assert("grey"@ =~= seq!['g', 'r', 'e', 'y']);
    assert("dark_gray"@ =~= seq!['d', 'a', 'r', 'k', '_', 'g', 'r', 'a', 'y']);
    assert("dark_grey"@ =~= seq!['d', 'a', 'r', 'k', '_', 'g', 'r', 'e', 'y']);
    assert("light_red"@ =~= seq!['l', 'i', 'g', 'h', 't', '_', 'r', 'e', 'd']);
    assert("light_green"@ =~= seq!['l', 'i', 'g', 'h', 't', '_', 'g', 'r', 'e', 'e', 'n']);
    assert("light_yellow"@ =~= seq!['l', 'i', 'g', 'h', 't', '_', 'y', 'e', 'l', 'l', 'o', 'w']);
    assert("light_blue"@ =~= seq!['l', 'i', 'g', 'h', 't', '_', 'b', 'l', 'u', 'e']);
    assert("light_magenta"@ =~= seq!['l', 'i', 'g', 'h', 't', '_', 'm', 'a', 'g', 'e', 'n', 't', 'a']);
    assert("light_cyan"@ =~= seq!['l', 'i', 'g', 'h', 't', '_', 'c', 'y', 'a', 'n']);
    assert(seq!['r', 'g', 'b', '('] =~= "rgb("@);
}

/// A 24-bit colour written as `rgb(r,g,b)` reads back as that colour.
pub proof fn law_rgb_text_round_trip(r: u8, g: u8, b: u8)
    ensures
        color_of_name(rgb_text(r, g, b)) == Color::Rgb(r, g, b),
{
    reveal_strlit("rgb(");
    let t = rgb_text(r, g, b);
    let (dr, dg, db) = (decimal(r as nat), decimal(g as nat), decimal(b as nat));
    lemma_parse_u8_decimal(r);
    lemma_parse_u8_decimal(g);
    lemma_parse_u8_decimal(b);
    lemma_decimal_digits(r as nat);
    lemma_decimal_digits(g as nat);
    lemma_decimal_digits(b as nat);
    assert(t[0] == 'r');
    assert(t.last() == ')');
    lemma_trim_plain(t);
    assert forall|i: int| 0 <= i < t.len() implies !('A' <= #[trigger] t[i] && t[i] <= 'Z') by {
        let a = 4 + dr.len();
        let c = a + 1 + dg.len();
        let d = c + 1 + db.len();
        if 4 <= i < a {
            assert(t[i] == dr[i - 4]);
            assert(is_ascii_digit(dr[i - 4]));
        } else if a + 1 <= i < c {
            assert(t[i] == dg[i - a - 1]);
            assert(is_ascii_digit(dg[i - a - 1]));
        } else if c + 1 <= i < d {
            assert(t[i] == db[i - c - 1]);
            assert(is_ascii_digit(db[i - c - 1]));
        }
    }
    assert(ascii_lower_seq(t) =~= t);
    let inner = t.subrange(4, t.len() - 1);
    assert(inner =~= dr + seq![','] + dg + seq![','] + db);
    assert(t.subrange(0, 4) =~= "rgb("@);
    lemma_split_on_no_sep(dr, ',');
    lemma_split_on_sep_then(dr, dg, ',');
    lemma_split_on_sep_then(dr + seq![','] + dg, db, ',');
    assert(split_on(inner, ',') =~= seq![dr, dg, db]);
}

} // verus!

verus! {

/// The sixteen colour names a configuration may use.
pub open spec fn is_color_name(s: Seq<char>) -> bool {
    s == "black"@ || s == "red"@ || s == "green"@ || s == "yellow"@ || s == "blue"@ || s == "magenta"@
        || s == "cyan"@ || s == "gray"@ || s == "dark_gray"@ || s == "light_red"@ || s == "light_green"@
        || s == "light_yellow"@ || s == "light_blue"@ || s == "light_magenta"@ || s == "light_cyan"@
        || s == "white"@
}

/// A colour text is one of the sixteen names or `rgb(r,g,b)` with each
/// component a byte.
pub open spec fn is_color_text(s: Seq<char>) -> bool {
    is_color_name(s) || exists|r: u8, g: u8, b: u8| s == #[trigger] rgb_text(r, g, b)
}

proof fn lemma_decimal_small(n: nat)
    requires
        n < 1000,
    ensures
        n < 10 ==> decimal(n) == seq![digit_char(n)],
        10 <= n < 100 ==> decimal(n) == seq![digit_char(n / 10), digit_char(n % 10)],
        100 <= n ==> decimal(n) == seq![digit_char(n / 100), digit_char((n / 10) % 10), digit_char(n % 10)],
{
    if n >= 10 {
        assert(decimal(n) == radix_digits(n / 10, 10).push(digit_char(n % 10)));
        if n >= 100 {
            assert(radix_digits(n / 10, 10) == radix_digits(n / 10 / 10, 10).push(digit_char((n / 10) % 10)));
            assert(n / 10 / 10 == n / 100);
            assert(radix_digits(n / 100, 10) == seq![digit_char(n / 100)]);
            assert(decimal(n) =~= seq![digit_char(n / 100), digit_char((n / 10) % 10), digit_char(n % 10)]);
        } else {
            assert(radix_digits(n / 10, 10) == seq![digit_char(n / 10)]);
            assert(decimal(n) =~= seq![digit_char(n / 10), digit_char(n % 10)]);
        }
    }
}

proof fn lemma_rgb_literals()
    ensures
        "rgb(200,220,200)"@ == rgb_text(200, 220, 200),
        "rgb(0,128,128)"@ == rgb_text(0, 128, 128),
        "rgb(0,200,150)"@ == rgb_text(0, 200, 150),
        "rgb(100,200,100)"@ == rgb_text(100, 200, 100),
        "rgb(255,176,0)"@ == rgb_text(255, 176, 0),
        "rgb(255,200,50)"@ == rgb_text(255, 200, 50),
        "rgb(200,140,0)"@ == rgb_text(200, 140, 0),
        "rgb(255,220,80)"@ == rgb_text(255, 220, 80),
{
    reveal_strlit("rgb(");
    reveal_strlit("rgb(200,220,200)");
    reveal_strlit("rgb(0,128,128)");
    reveal_strlit("rgb(0,200,150)");
    reveal_strlit("rgb(100,200,100)");
    reveal_strlit("rgb(255,176,0)");
    reveal_strlit("rgb(255,200,50)");
    reveal_strlit("rgb(200,140,0)");
    reveal_strlit("rgb(255,220,80)");
    lemma_decimal_small(0);
    lemma_decimal_small(50);
    lemma_decimal_small(80);
    lemma_decimal_small(100);
    lemma_decimal_small(128);
    lemma_decimal_small(140);
    lemma_decimal_small(150);
    lemma_decimal_small(176);
    lemma_decimal_small(200);
    lemma_decimal_small(220);
    lemma_decimal_small(255);
    assert("rgb(200,220,200)"@ =~= rgb_text(200, 220, 200));
    assert("rgb(0,128,128)"@ =~= rgb_text(0, 128, 128));
    assert("rgb(0,200,150)"@ =~= rgb_text(0, 200, 150));
    assert("rgb(100,200,100)"@ =~= rgb_text(100, 200, 100));
    assert("rgb(255,176,0)"@ =~= rgb_text(255, 176, 0));
    assert("rgb(255,200,50)"@ =~= rgb_text(255, 200, 50));
    assert("rgb(200,140,0)"@ =~= rgb_text(200, 140, 0));
    assert("rgb(255,220,80)"@ =~= rgb_text(255, 220, 80));
}

/// The built-in themes have distinct names, override no key, hold no
/// bookmarks and each name themselves as active theme; the first
/// (synthwave-84) has the default colours; every colour text of every theme
/// is one of the sixteen colour names or `rgb(r,g,b)`.
pub proof fn law_builtin_themes(themes: Seq<(String, Config)>)
    requires
        themes.len() == 3,
        forall|i: int| 0 <= i < 3 ==> is_builtin_theme(#[trigger] themes[i], builtin_theme_names()[i], builtin_theme_colors()[i]),
    ensures
        forall|i: int, j: int| 0 <= i < j < 3 ==> (#[trigger] themes[i]).0@ != (#[trigger] themes[j]).0@,
        forall|i: int|
            0 <= i < 3 ==> keys_unset((#[trigger] themes[i]).1.keys) && themes[i].1.bookmarks@.len() == 0
                && opt_chars(themes[i].1.active_theme) == Some(themes[i].0@),
        color_fields(themes[0].1.colors) == synthwave_color_names(),
        forall|i: int, k: int| 0 <= i < 3 && 0 <= k < 8 ==> is_color_text(#[trigger] color_fields(themes[i].1.colors)[k]),
{
    reveal_strlit("synthwave-84");
    reveal_strlit("midnight-green");
    reveal_strlit("amber-crt");
    assert(is_builtin_theme(themes[0], builtin_theme_names()[0], builtin_theme_colors()[0]));
    assert(is_builtin_theme(themes[1], builtin_theme_names()[1], builtin_theme_colors()[1]));
    assert(is_builtin_theme(themes[2], builtin_theme_names()[2], builtin_theme_colors()[2]));
    assert(themes[0].0@.len() == 12);
    assert(themes[1].0@.len() == 14);
    assert(themes[2].0@.len() == 9);
    lemma_rgb_literals();
    assert forall|i: int, k: int| 0 <= i < 3 && 0 <= k < 8 implies is_color_text(
        #[trigger] color_fields(themes[i].1.colors)[k],
    ) by {
        let s = color_fields(themes[i].1.colors)[k];
        assert(s == builtin_theme_colors()[i][k]);
        if s == rgb_text(200, 220, 200) {
        } else if s == rgb_text(0, 128, 128) {
        } else if s == rgb_text(0, 200, 150) {
        } else if s == rgb_text(100, 200, 100) {
        } else if s == rgb_text(255, 176, 0) {
        } else if s == rgb_text(255, 200, 50) {
        } else if s == rgb_text(200, 140, 0) {
        } else if s == rgb_text(255, 220, 80) {
        } else {
            assert(is_color_name(s));
        }
    }
}

} // verus!
