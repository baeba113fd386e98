//! Which provider is selected and with what key, and where that is kept.
//!
//! The file holding the key is readable by its owner alone, in a directory
//! only the owner can enter, and is put in place by a rename from a temporary
//! file that was created that way.

use vstd::prelude::*;

use crate::proto::optional_secret;
use crate::provider::{entry, lookup, optional_text};
use crate::secret::SecretString;
use crate::text::{decimal, decimal_text, holds, lemma_holds_itself, lemma_parts_hold};

verus! {

/// The selected provider and its key. Nothing is selected to begin with, and
/// nothing is fetched while that is so.
#[derive(Debug, Clone)]
pub struct Config {
    pub provider: Option<String>,
    pub api_key: Option<SecretString>,
}

/// A [`Config`] with its texts as sequences.
pub struct ConfigView {
    pub provider: Option<Seq<char>>,
    pub api_key: Option<Seq<char>>,
}

impl View for Config {
    type V = ConfigView;

    open spec fn view(&self) -> ConfigView {
        ConfigView {
            provider: optional_text(self.provider),
            api_key: optional_secret(self.api_key),
        }
    }
}

impl Default for Config {
    fn default() -> (c: Config)
        ensures
            c@ == (ConfigView { provider: None, api_key: None }),
    {
        Config { provider: None, api_key: None }
    }
}

/// A name within a directory, as a path.
pub open spec fn path_within(dir: Seq<char>, name: Seq<char>) -> Seq<char> {
    if dir.len() == 0 {
        name
    } else if dir.last() == '/' {
        dir + name
    } else {
        dir + "/"@ + name
    }
}

/// A name within a directory, as a path.
pub fn join_path(dir: &str, name: &str) -> (path: String)
    ensures
        path@ == path_within(dir@, name@),
{
    let n: usize = dir.unicode_len();
    let mut path = dir.to_owned();
    if n > 0 {
        let last: char = dir.get_char(n - 1);
        if last != '/' {
            path.append("/");
        }
    }
    path.append(name);
    assert(path@ =~= path_within(dir@, name@));
    path
}

/// Where the configuration is kept: below `XDG_CONFIG_HOME` where that is set
/// and not empty, else below `.config` in `HOME`, else in the current
/// directory.
pub open spec fn config_dir_of(xdg: Option<Seq<char>>, home: Option<Seq<char>>) -> Seq<char> {
    if xdg is Some && xdg->0.len() > 0 {
        path_within(xdg->0, "ticker-follow"@)
    } else {
        let home = if home is Some {
            home->0
        } else {
            "."@
        };
        path_within(path_within(home, ".config"@), "ticker-follow"@)
    }
}

/// The view of an optional `&str`.
pub open spec fn optional_str(text: Option<&str>) -> Option<Seq<char>> {
    match text {
        Some(t) => Some(t@),
        None => None,
    }
}

/// The directory of the configuration, from the values of `XDG_CONFIG_HOME` and
/// `HOME`.
pub fn config_dir(xdg_config_home: Option<&str>, home: Option<&str>) -> (dir: String)
    ensures
        dir@ == config_dir_of(optional_str(xdg_config_home), optional_str(home)),
{
    match xdg_config_home {
        Some(xdg) => {
            if xdg.unicode_len() > 0 {
                return join_path(xdg, "ticker-follow");
            }
        },
        None => {},
    }
    let home = match home {
        Some(home) => home,
        None => ".",
    };
    let base = join_path(home, ".config");
    join_path(base.as_str(), "ticker-follow")
}

/// The path of the credentials file, from the values of `XDG_CONFIG_HOME` and
/// `HOME`.
pub fn config_path(xdg_config_home: Option<&str>, home: Option<&str>) -> (path: String)
    ensures
        path@ == path_within(
            config_dir_of(optional_str(xdg_config_home), optional_str(home)),
            "credentials.json"@,
        ),
{
    let dir = config_dir(xdg_config_home, home);
    join_path(dir.as_str(), "credentials.json")
}

/// A value that replaces another where it is set and not empty.
pub open spec fn override_with(
    stored: Option<Seq<char>>,
    env: Option<Seq<char>>,
) -> Option<Seq<char>> {
    if env is Some && env->0.len() > 0 {
        env
    } else {
        stored
    }
}

/// Whether a key is on file that is not empty.
pub open spec fn has_key(key: Option<Seq<char>>) -> bool {
    key is Some && key->0.len() > 0
}

impl ConfigView {
    /// Whether this can fetch: a known provider is selected and, if it needs a
    /// key, there is one.
    pub open spec fn ready(self) -> bool {
        self.provider is Some && entry(self.provider->0) is Some && (entry(
            self.provider->0,
        )->0.requires_key ==> has_key(self.api_key))
    }
}

/// Whether a permission mode lets anyone but the owner in.
pub open spec fn loose(mode: u32) -> bool {
    mode % 0o100 != 0
}

/// Whether a permission mode lets anyone but the owner in.
pub fn is_loose(mode: u32) -> (b: bool)
    ensures
        b == loose(mode),
{
    mode % 0o100 != 0
}

/// The low bits that say what the group and everyone else may do are what
/// [`loose`] looks at.
pub proof fn loose_is_group_or_world(mode: u32)
    ensures
        loose(mode) <==> mode & 0o077 != 0,
{
    assert((mode % 0o100 != 0) == (mode & 0o077 != 0)) by (bit_vector);
}

/// The mode of a file only its owner may read.
pub const PRIVATE_FILE: u32 = 0o600;

/// The mode of a directory only its owner may enter.
pub const PRIVATE_DIR: u32 = 0o700;

/// What is done to store a configuration, one step after another. A step that
/// fails ends it, but for the making of the directory, which may be there.
#[derive(Debug, Clone)]
pub enum SaveStep {
    /// Make a directory and those above it, with this mode.
    MakeDir { path: String, mode: u32 },
    /// Create a file that must not be there yet, with this mode.
    CreateNew { path: String, mode: u32 },
    /// Write the configuration to the file just created.
    Write { path: String },
    /// Put the file in place; where that fails it is removed.
    Install { from: String, to: String },
}

/// A [`SaveStep`] with its texts as sequences.
pub enum SaveStepView {
    MakeDir { path: Seq<char>, mode: u32 },
    CreateNew { path: Seq<char>, mode: u32 },
    Write { path: Seq<char> },
    Install { from: Seq<char>, to: Seq<char> },
}

impl View for SaveStep {
    type V = SaveStepView;

    open spec fn view(&self) -> SaveStepView {
        match *self {
            SaveStep::MakeDir { path, mode } => SaveStepView::MakeDir { path: path@, mode },
            SaveStep::CreateNew { path, mode } => SaveStepView::CreateNew { path: path@, mode },
            SaveStep::Write { path } => SaveStepView::Write { path: path@ },
            SaveStep::Install { from, to } => SaveStepView::Install { from: from@, to: to@ },
        }
    }
}

impl SaveStepView {
    /// What is said when this step fails; nothing where a failure is passed
    /// over.
    pub open spec fn failure_text(self) -> Option<Seq<char>> {
        match self {
            SaveStepView::MakeDir { .. } => None,
            SaveStepView::CreateNew { path, .. } => Some("creating "@ + path),
            SaveStepView::Write { path } => Some("writing "@ + path),
            SaveStepView::Install { to, .. } => Some("installing "@ + to),
        }
    }
}

impl SaveStep {
    /// What is said when this step fails; nothing where a failure is passed
    /// over.
    pub fn failure(&self) -> (message: Option<String>)
        ensures
            optional_text(message) == self@.failure_text(),
    {
        match self {
            SaveStep::MakeDir { .. } => None,
            SaveStep::CreateNew { path, .. } => Some("creating ".to_owned().concat(path.as_str())),
            SaveStep::Write { path } => Some("writing ".to_owned().concat(path.as_str())),
            SaveStep::Install { to, .. } => Some("installing ".to_owned().concat(to.as_str())),
        }
    }
}

/// The name of the temporary file of the process `pid`.
pub open spec fn temporary_name(pid: nat) -> Seq<char> {
    ".credentials."@ + decimal(pid) + ".tmp"@
}

/// The steps that store a configuration in `dir`.
pub open spec fn save_plan(dir: Seq<char>, pid: nat) -> Seq<SaveStepView> {
    let temporary = path_within(dir, temporary_name(pid));
    seq![
        SaveStepView::MakeDir { path: dir, mode: PRIVATE_DIR },
        SaveStepView::CreateNew { path: temporary, mode: PRIVATE_FILE },
        SaveStepView::Write { path: temporary },
        SaveStepView::Install { from: temporary, to: path_within(dir, "credentials.json"@) },
    ]
}

/// The views of the steps.
pub open spec fn step_views(steps: Seq<SaveStep>) -> Seq<SaveStepView> {
    steps.map_values(|s: SaveStep| s@)
}

/// The steps that store a configuration in `dir`, done by the process `pid`.
pub fn save_steps(dir: &str, pid: u32) -> (steps: Vec<SaveStep>)
    ensures
        step_views(steps@) == save_plan(dir@, pid as nat),
{
    let mut name = ".credentials.".to_owned();
    name.append(decimal_text(pid as u64).as_str());
    name.append(".tmp");
    let temporary = join_path(dir, name.as_str());
    let mut steps: Vec<SaveStep> = Vec::new();
    steps.push(SaveStep::MakeDir { path: dir.to_owned(), mode: PRIVATE_DIR });
    steps.push(SaveStep::CreateNew { path: temporary.clone(), mode: PRIVATE_FILE });
    steps.push(SaveStep::Write { path: temporary.clone() });
    steps.push(SaveStep::Install { from: temporary, to: join_path(dir, "credentials.json") });
    assert(step_views(steps@) =~= save_plan(dir@, pid as nat));
    steps
}

/// At no step of a save is there a file or directory that others may open: each
/// is made with a mode that shuts them out, the key is written to no file but
/// one made so, and what is put in place is that file.
pub proof fn saved_key_is_never_exposed(dir: Seq<char>, pid: nat, i: int)
    requires
        0 <= i < save_plan(dir, pid).len(),
    ensures
        match save_plan(dir, pid)[i] {
            SaveStepView::MakeDir { mode, .. } => !loose(mode),
            SaveStepView::CreateNew { mode, .. } => !loose(mode),
            SaveStepView::Write { path } => exists|j: int|
                0 <= j < i && #[trigger] save_plan(dir, pid)[j] == (SaveStepView::CreateNew {
                    path,
                    mode: PRIVATE_FILE,
                }),
            SaveStepView::Install { from, .. } => exists|j: int|
                0 <= j < i && #[trigger] save_plan(dir, pid)[j] == (SaveStepView::CreateNew {
                    path: from,
                    mode: PRIVATE_FILE,
                }),
        },
{
    let plan = save_plan(dir, pid);
    let temporary = path_within(dir, temporary_name(pid));
    assert(plan[1] == (SaveStepView::CreateNew { path: temporary, mode: PRIVATE_FILE }));
}

/// What came of removing the credentials file.
#[derive(Debug, Clone, Copy, PartialEq, Eq, Structural)]
pub enum Removal {
    Removed,
    NotThere,
    Failed,
}

impl Config {
    /// The configuration in force: what is stored, or nothing, with the
    /// environment's provider and key over it where they are set and not
    /// empty.
    pub fn load(
        stored: Option<Config>,
        provider_env: Option<&str>,
        key_env: Option<&str>,
    ) -> (c: Config)
        ensures
            c@ == (ConfigView {
                provider: override_with(
                    match stored {
                        Some(s) => s@.provider,
                        None => None,
                    },
                    optional_str(provider_env),
                ),
                api_key: override_with(
                    match stored {
                        Some(s) => s@.api_key,
                        None => None,
                    },
                    optional_str(key_env),
                ),
            }),
    {
        let mut c = match stored {
            Some(s) => s,
            None => Config { provider: None, api_key: None },
        };
        match provider_env {
            Some(p) => {
                if p.unicode_len() > 0 {
                    c.provider = Some(p.to_owned());
                }
            },
            None => {},
        }
        match key_env {
            Some(k) => {
                if k.unicode_len() > 0 {
                    c.api_key = Some(SecretString::new(k));
                }
            },
            None => {},
        }
        c
    }

    /// What clearing the configuration comes to: a file that was not there is
    /// as good as removed.
    pub fn clear(path: &str, removal: Removal) -> (outcome: Result<(), String>)
        ensures
            match outcome {
                Ok(_) => removal != Removal::Failed,
                Err(message) => removal == Removal::Failed && message@ == "removing "@ + path@,
            },
    {
        match removal {
            Removal::Removed => Ok(()),
            Removal::NotThere => Ok(()),
            Removal::Failed => Err("removing ".to_owned().concat(path)),
        }
    }

    /// Whether there is a key that is not empty.
    pub fn key_on_file(&self) -> (b: bool)
        ensures
            b == has_key(self@.api_key),
    {
        match &self.api_key {
            Some(k) => !k.is_empty(),
            None => false,
        }
    }

    /// Whether this can fetch: a known provider is selected and, if it needs a
    /// key, there is one.
    pub fn is_ready(&self) -> (b: bool)
        ensures
            b == self@.ready(),
    {
        let id = match &self.provider {
            Some(id) => id,
            None => return false,
        };
        let info = match lookup(id.as_str()) {
            Some(info) => info,
            None => return false,
        };
        !info.requires_key || self.key_on_file()
    }
}

/// Nothing selected, or something unknown, is never ready, whatever the key.
pub proof fn unknown_provider_is_never_ready(c: ConfigView)
    requires
        c.provider is None || entry(c.provider->0) is None,
    ensures
        !c.ready(),
{
}

/// What the environment names goes before what is stored, and an empty value
/// names nothing.
pub proof fn environment_goes_first(stored: Option<Seq<char>>, env: Seq<char>)
    ensures
        env.len() > 0 ==> override_with(stored, Some(env)) == Some(env),
        env.len() == 0 ==> override_with(stored, Some(env)) == stored,
        override_with(stored, None) == stored,
{
}

/// A path within a directory begins with the directory and ends with the name;
/// between them stands one slash, unless the directory ends with one or is
/// empty.
pub proof fn paths_are_made_of_directory_and_name(dir: Seq<char>, name: Seq<char>)
    ensures
        path_within(dir, name).take(dir.len() as int) == dir,
        path_within(dir, name).skip(path_within(dir, name).len() - name.len()) == name,
        path_within(dir, name).len() == dir.len() + name.len() + if dir.len() > 0 && dir.last()
            != '/' {
            1int
        } else {
            0int
        },
        dir.len() > 0 && dir.last() != '/' ==> path_within(dir, name)[dir.len() as int] == '/',
{
    reveal_strlit("/");
    let path = path_within(dir, name);
    assert(path.take(dir.len() as int) =~= dir);
    assert(path.skip(path.len() - name.len()) =~= name);
}

/// The configuration is kept below the directory that is set for it, whatever
/// the home is; below the home where none is set, or an empty one.
pub proof fn configurations_are_kept_where_set(
    xdg: Seq<char>,
    home: Option<Seq<char>>,
    other: Option<Seq<char>>,
)
    requires
        xdg.len() > 0,
    ensures
        config_dir_of(Some(xdg), home) == config_dir_of(Some(xdg), other),
        config_dir_of(Some(xdg), home).take(xdg.len() as int) == xdg,
        config_dir_of(Some(seq![]), home) == config_dir_of(None, home),
        home matches Some(h) ==> config_dir_of(None, home).take(h.len() as int) == h,
{
    paths_are_made_of_directory_and_name(xdg, "ticker-follow"@);
    if let Some(h) = home {
        let base = path_within(h, ".config"@);
        paths_are_made_of_directory_and_name(h, ".config"@);
        paths_are_made_of_directory_and_name(base, "ticker-follow"@);
        let dir = path_within(base, "ticker-follow"@);
        assert(dir.take(h.len() as int) =~= dir.take(base.len() as int).take(h.len() as int));
    }
}

/// A save ends with the credentials file in place, and before that the
/// configuration was written to the file that is put there.
pub proof fn saves_end_with_the_file_in_place(dir: Seq<char>, pid: nat)
    ensures
        save_plan(dir, pid).len() > 0,
        save_plan(dir, pid).last() matches SaveStepView::Install { from, to } && to == path_within(
            dir,
            "credentials.json"@,
        ) && exists|i: int|
            0 <= i < save_plan(dir, pid).len() - 1 && #[trigger] save_plan(dir, pid)[i] == (
            SaveStepView::Write { path: from }),
{
    let temporary = path_within(dir, temporary_name(pid));
    assert(save_plan(dir, pid)[2] == (SaveStepView::Write { path: temporary }));
}

/// What is loaded is what the environment sets, and what is stored where the
/// environment sets nothing. The two settings do not mix.
pub proof fn what_is_loaded_is_set_somewhere(
    stored: Option<Config>,
    provider: Option<&str>,
    key: Option<&str>,
    c: Config,
)
    requires
        call_ensures(Config::load, (stored, provider, key), c),
    ensures
        provider is Some && provider->0@.len() > 0 ==> c@.provider == Some(provider->0@),
        key is Some && key->0@.len() > 0 ==> c@.api_key == Some(key->0@),
        provider is None && stored is Some ==> c@.provider == stored->0@.provider,
        key is None && stored is Some ==> c@.api_key == stored->0@.api_key,
        provider is None && stored is None ==> c@.provider is None,
        key is None && stored is None ==> c@.api_key is None,
        provider is Some && provider->0@.len() == 0 ==> c@.provider == if stored is Some {
            stored->0@.provider
        } else {
            None
        },
        key is Some && key->0@.len() == 0 ==> c@.api_key == if stored is Some {
            stored->0@.api_key
        } else {
            None
        },
{
}

/// Erasing what is stored fails only where a file could not be removed: where
/// there was none, nothing is left to do. A failure names the file.
pub proof fn erasing_what_is_gone_succeeds(
    path: &str,
    removal: Removal,
    outcome: Result<(), String>,
)
    requires
        call_ensures(Config::clear, (path, removal), outcome),
    ensures
        outcome is Err <==> removal == Removal::Failed,
        outcome is Err ==> holds(outcome->Err_0@, path@),
{
    broadcast use {lemma_parts_hold, lemma_holds_itself};

}

/// The laws on the stored configuration hold of what is computed.
pub proof fn laws_hold_of_what_is_stored(
    xdg_config_home: Option<&str>,
    home: Option<&str>,
    path: String,
    dir: &str,
    pid: u32,
    steps: Vec<SaveStep>,
    mode: u32,
    config: &Config,
    b: bool,
)
    ensures
        call_ensures(config_path, (xdg_config_home, home), path) ==> path@ == path_within(
            config_dir_of(optional_str(xdg_config_home), optional_str(home)),
            "credentials.json"@,
        ),
        call_ensures(save_steps, (dir, pid), steps) ==> step_views(steps@) == save_plan(
            dir@,
            pid as nat,
        ),
        call_ensures(is_loose, (mode,), b) ==> b == (mode % 64 != 0),
        call_ensures(Config::is_ready, (config,), b) ==> b == config@.ready(),
        call_ensures(Config::key_on_file, (config,), b) ==> b == (config@.api_key is Some
            && config@.api_key->0.len() > 0),
{
}

} // verus!
