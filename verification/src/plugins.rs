//! The plugin registry: which WASM plugins are loaded, and which plugin calls
//! a hook or a run makes.
use vstd::prelude::*;
use crate::config::user_config_dir;
use crate::pathname::{extension, extension_of, file_stem, file_stem_of, join, join_paths};
use crate::text::{eq_str, opt_chars};

verus! {

/// A loaded plugin: its name (the file stem of its `.wasm` file) and what it
/// says it does.
#[derive(Debug, Clone)]
pub struct Plugin {
    pub name: String,
    pub description: String,
}

/// The loaded plugins, one per name, and the directory they are loaded from.
#[derive(Debug)]
pub struct PluginManager {
    plugins: Vec<Plugin>,
    plugin_dir: String,
}

/// A call of a plugin function: the module file, the function, its input.
#[derive(Debug, Clone)]
pub struct PluginCall {
    pub wasm_path: String,
    pub func: String,
    pub input: String,
}

/// The names of a list of plugins.
pub open spec fn plugin_names(ps: Seq<Plugin>) -> Seq<Seq<char>> {
    ps.map_values(|p: Plugin| p.name@)
}

/// No name occurs twice.
pub open spec fn unique_names(names: Seq<Seq<char>>) -> bool {
    forall|i: int, j: int| 0 <= i < j < names.len() ==> names[i] != names[j]
}

/// The directory plugins are loaded from, under a configuration directory
/// (`~/.config` when there is none).
pub open spec fn plugin_dir_of(config_dir: Option<Seq<char>>) -> Seq<char> {
    let base = match config_dir {
        Some(d) => d,
        None => "~/.config"@,
    };
    join_paths(join_paths(base, "vhs-86"@), "plugins"@)
}

/// The name a file in the plugin directory loads as: the stem of a `.wasm` file.
pub open spec fn plugin_file_name(path: Seq<char>) -> Option<Seq<char>> {
    if extension_of(path) == Some("wasm"@) {
        file_stem_of(path)
    } else {
        None
    }
}

/// The description of a plugin that gives none.
pub open spec fn default_description(name: Seq<char>) -> Seq<char> {
    "WASM plugin: "@ + name
}

/// The plugins after registering `p`: it replaces the plugin of the same name
/// where there is one, and is added at the end otherwise.
pub open spec fn registered(loaded: Seq<Plugin>, p: Plugin) -> Seq<Plugin> {
    if exists|k: int| 0 <= k < loaded.len() && loaded[k].name@ == p.name@ {
        let k = choose|k: int| 0 <= k < loaded.len() && loaded[k].name@ == p.name@;
        loaded.update(k, p)
    } else {
        loaded.push(p)
    }
}

impl PluginManager {
    #[verifier::type_invariant]
    closed spec fn names_unique(self) -> bool {
        unique_names(plugin_names(self.plugins@))
    }

    /// The loaded plugins, in the order they are listed.
    pub closed spec fn loaded(&self) -> Seq<Plugin> {
        self.plugins@
    }

    /// The directory plugins are loaded from.
    pub closed spec fn dir(&self) -> Seq<char> {
        self.plugin_dir@
    }

    /// No plugins, loaded from `dir`.
    pub fn with_dir(dir: String) -> (m: Self)
        ensures
            m.loaded().len() == 0,
            m.dir() == dir@,
    {
        PluginManager { plugins: Vec::new(), plugin_dir: dir }
    }

    /// No plugins, loaded from `vhs-86/plugins` under the user's configuration
    /// directory (or under `~/.config`).
    pub fn new() -> (m: Self)
        ensures
            m.loaded().len() == 0,
            exists|d: Option<Seq<char>>| m.dir() == plugin_dir_of(d),
    {
        let base = match user_config_dir() {
            Some(d) => d,
            None => String::from_str("~/.config"),
        };
        let app_dir = join(base.as_str(), "vhs-86");
        let dir = join(app_dir.as_str(), "plugins");
        let m = PluginManager::with_dir(dir);
        proof {
            if base@ == "~/.config"@ {
                assert(m.dir() == plugin_dir_of(None));
            } else {
                assert(m.dir() == plugin_dir_of(Some(base@)));
            }
        }
        m
    }

    /// The directory plugins are loaded from.
    pub fn plugin_dir(&self) -> (r: &str)
        ensures
            r@ == self.dir(),
    {
        self.plugin_dir.as_str()
    }

    /// Forgets every plugin.
    pub fn clear(&mut self)
        ensures
            final(self).loaded().len() == 0,
            final(self).dir() == old(self).dir(),
    {
        self.plugins = Vec::new();
    }

    fn find(&self, name: &str) -> (r: Option<usize>)
        ensures
            match r {
                Some(i) => i < self.loaded().len() && self.loaded()[i as int].name@ == name@,
                None => forall|j: int| 0 <= j < self.loaded().len() ==> self.loaded()[j].name@ != name@,
            },
    {
        let mut i: usize = 0;
        while i < self.plugins.len()
            invariant
                i <= self.plugins.len(),
                forall|j: int| 0 <= j < i ==> self.plugins@[j].name@ != name@,
            decreases self.plugins.len() - i,
        {
            if eq_str(self.plugins[i].name.as_str(), name) {
                return Some(i);
            }
            i = i + 1;
        }
        None
    }

    /// Adds a plugin, replacing a loaded one of the same name.
    pub fn register(&mut self, plugin: Plugin)
        ensures
            final(self).dir() == old(self).dir(),
            final(self).loaded() == registered(old(self).loaded(), plugin),
            unique_names(plugin_names(final(self).loaded())),
    {
        proof {
            use_type_invariant(&*self);
        }
        let ghost old_loaded = self.plugins@;
        match self.find(plugin.name.as_str()) {
            Some(i) => {
                proof {
                    let k = choose|k: int| 0 <= k < old_loaded.len() && old_loaded[k].name@ == plugin.name@;
                    let names = plugin_names(old_loaded);
                    assert(names[k] == names[i as int]);
                }
                let mut ps = Vec::new();
                std::mem::swap(&mut ps, &mut self.plugins);
                ps.set(i, plugin);
                proof {
                    assert(plugin_names(ps@) =~= plugin_names(old_loaded).update(i as int, ps@[i as int].name@));
                }
                self.plugins = ps;
            },
            None => {
                assert(forall|j: int| 0 <= j < self.loaded().len() ==> self.loaded()[j].name@ != plugin.name@);
                assert(self.loaded() == old_loaded);
                let mut ps = Vec::new();
                std::mem::swap(&mut ps, &mut self.plugins);
                ps.push(plugin);
                proof {
                    let names = plugin_names(old_loaded);
                    assert(plugin_names(ps@) =~= names.push(ps@.last().name@));
                    assert forall|j: int| 0 <= j < names.len() implies names[j] != ps@.last().name@ by {
                        assert(old_loaded[j].name@ != plugin.name@);
                    }
                }
                self.plugins = ps;
            },
        }
    }

    /// The plugin named `name`, if loaded.
    pub fn get_plugin(&self, name: &str) -> (r: Option<&Plugin>)
        ensures
            unique_names(plugin_names(self.loaded())),
            match r {
                Some(p) => exists|k: int|
                    0 <= k < self.loaded().len() && self.loaded()[k] == *p && p.name@ == name@,
                None => forall|j: int| 0 <= j < self.loaded().len() ==> self.loaded()[j].name@ != name@,
            },
    {
        proof {
            use_type_invariant(self);
        }
        match self.find(name) {
            Some(i) => Some(&self.plugins[i]),
            None => None,
        }
    }

    /// The loaded plugins.
    pub fn list_plugins(&self) -> (r: Vec<&Plugin>)
        ensures
            r@.len() == self.loaded().len(),
            forall|i: int| 0 <= i < r@.len() ==> *r@[i] == self.loaded()[i],
    {
        let mut out: Vec<&Plugin> = Vec::new();
        let mut i: usize = 0;
        while i < self.plugins.len()
            invariant
                i <= self.plugins.len(),
                out@.len() == i,
                forall|j: int| 0 <= j < i ==> *out@[j] == self.plugins@[j],
            decreases self.plugins.len() - i,
        {
            out.push(&self.plugins[i]);
            i = i + 1;
        }
        out
    }

    /// How many plugins are loaded.
    pub fn count(&self) -> (r: usize)
        ensures
            r == self.loaded().len(),
    {
        self.plugins.len()
    }

    /// The module file of a plugin: `<name>.wasm` in the plugin directory.
    pub fn wasm_path(&self, name: &str) -> (r: String)
        ensures
            r@ == join_paths(self.dir(), name@ + ".wasm"@),
    {
        let mut file = String::from_str(name);
        file.append(".wasm");
        join(self.plugin_dir.as_str(), file.as_str())
    }

    /// The call that runs `func` of the plugin `name` on `input`; none when no
    /// such plugin is loaded.
    pub fn run(&self, name: &str, func: &str, input: &str) -> (r: Option<PluginCall>)
        ensures
            match r {
                Some(c) => {
                    &&& exists|k: int| 0 <= k < self.loaded().len() && self.loaded()[k].name@ == name@
                    &&& c.wasm_path@ == join_paths(self.dir(), name@ + ".wasm"@)
                    &&& c.func@ == func@
                    &&& c.input@ == input@
                },
                None => forall|j: int| 0 <= j < self.loaded().len() ==> self.loaded()[j].name@ != name@,
            },
    {
        match self.find(name) {
            Some(_) => Some(
                PluginCall {
                    wasm_path: self.wasm_path(name),
                    func: String::from_str(func),
                    input: String::from_str(input),
                },
            ),
            None => None,
        }
    }

    /// The calls a hook makes, in order, one per loaded plugin: the hook's
    /// function of each plugin on the path.
    pub fn hook_calls(&self, hook: &str, path: &str) -> (r: Vec<PluginCall>)
        ensures
            r@.len() == self.loaded().len(),
            forall|i: int|
                0 <= i < r@.len() ==> {
                    &&& (#[trigger] r@[i]).wasm_path@ == join_paths(
                        self.dir(),
                        self.loaded()[i].name@ + ".wasm"@,
                    )
                    &&& r@[i].func@ == hook@
                    &&& r@[i].input@ == path@
                },
    {
        let mut out: Vec<PluginCall> = Vec::new();
        let mut i: usize = 0;
        while i < self.plugins.len()
            invariant
                i <= self.plugins.len(),
                out@.len() == i,
                forall|j: int|
                    0 <= j < i ==> {
                        &&& (#[trigger] out@[j]).wasm_path@ == join_paths(
                            self.plugin_dir@,
                            self.plugins@[j].name@ + ".wasm"@,
                        )
                        &&& out@[j].func@ == hook@
                        &&& out@[j].input@ == path@
                    },
            decreases self.plugins.len() - i,
        {
            let call = PluginCall {
                wasm_path: self.wasm_path(self.plugins[i].name.as_str()),
                func: String::from_str(hook),
                input: String::from_str(path),
            };
            out.push(call);
            i = i + 1;
        }
        out
    }
}

impl Default for PluginManager {
    fn default() -> (m: Self)
        ensures
            m.loaded().len() == 0,
    {
        PluginManager::new()
    }
}

/// The name of the plugin a file of the plugin directory loads as: the stem of
/// a `.wasm` file; none for other files.
pub fn plugin_name_for(path: &str) -> (r: Option<String>)
    ensures
        opt_chars(r) == plugin_file_name(path@),
{
    let wasm = match extension(path) {
        Some(e) => eq_str(e.as_str(), "wasm"),
        None => false,
    };
    if wasm {
        file_stem(path)
    } else {
        None
    }
}

/// A plugin's description: what its `describe` function gave, or
/// `WASM plugin: <name>` when it gave nothing.
pub fn plugin_description(name: &str, described: Option<String>) -> (r: String)
    ensures
        r@ == match described {
            Some(d) => d@,
            None => default_description(name@),
        },
{
    match described {
        Some(d) => d,
        None => {
            let mut s = String::from_str("WASM plugin: ");
            s.append(name);
            s
        },
    }
}

/// What one plugin call of a hook gave.
#[derive(Debug, Clone)]
pub enum HookOutcome {
    /// The plugin's module could not be read or instantiated.
    Unavailable,
    /// The call failed.
    Failed,
    /// The call returned this text.
    Returned(String),
}

/// Whether a hook stops at the outcome of a plugin call, and with what answer
/// (`Some(answer)` to stop, `None` to try the next plugin): an unavailable
/// plugin ends the hook with nothing; a non-empty text is the answer; failed
/// calls and empty texts are passed over.
pub fn hook_step(outcome: &HookOutcome) -> (r: Option<Option<String>>)
    ensures
        match *outcome {
            HookOutcome::Unavailable => r == Some(None::<String>),
            HookOutcome::Returned(t) => if t@.len() > 0 {
                r matches Some(Some(s)) && s@ == t@
            } else {
                r is None
            },
            HookOutcome::Failed => r is None,
        },
{
    match outcome {
        HookOutcome::Unavailable => Some(None),
        HookOutcome::Returned(t) => if t.as_str().unicode_len() > 0 {
            Some(Some(t.clone()))
        } else {
            None
        },
        HookOutcome::Failed => None,
    }
}

/// Registering a plugin keeps names unique; afterwards the plugin is the only
/// one of its name, every plugin of another name stays where it was, and the
/// number of plugins grows by one exactly when the name was new.
pub proof fn law_register_then_get(loaded: Seq<Plugin>, p: Plugin)
    requires
        unique_names(plugin_names(loaded)),
    ensures
        unique_names(plugin_names(registered(loaded, p))),
        exists|k: int| 0 <= k < registered(loaded, p).len() && registered(loaded, p)[k] == p,
        forall|k: int|
            0 <= k < registered(loaded, p).len() && (#[trigger] registered(loaded, p)[k]).name@ == p.name@
                ==> registered(loaded, p)[k] == p,
        forall|k: int| 0 <= k < loaded.len() && (#[trigger] loaded[k]).name@ != p.name@ ==> registered(loaded, p)[k] == loaded[k],
        registered(loaded, p).len() == loaded.len() + if exists|k: int| 0 <= k < loaded.len() && (#[trigger] loaded[k]).name@ == p.name@ {
            0int
        } else {
            1int
        },
{
    let after = registered(loaded, p);
    let names = plugin_names(loaded);
    if exists|k: int| 0 <= k < loaded.len() && loaded[k].name@ == p.name@ {
        let k = choose|k: int| 0 <= k < loaded.len() && loaded[k].name@ == p.name@;
        assert(after[k] == p);
        assert(plugin_names(after) =~= names.update(k, p.name@));
        assert(names.update(k, p.name@) =~= names);
        assert forall|j: int| 0 <= j < after.len() && (#[trigger] after[j]).name@ == p.name@ implies after[j] == p by {
            if j != k {
                assert(names[j] == names[k]);
            }
        }
    } else {
        assert(after[loaded.len() as int] == p);
        assert(plugin_names(after) =~= names.push(p.name@));
        assert forall|j: int| 0 <= j < names.len() implies names[j] != p.name@ by {
            assert(loaded[j].name@ != p.name@);
        }
        assert forall|j: int| 0 <= j < after.len() && (#[trigger] after[j]).name@ == p.name@ implies after[j] == p by {
            if j < loaded.len() {
                assert(loaded[j].name@ == p.name@);
            }
        }
    }
}

} // verus!
