//! The launcher's settings and where they and the index live on disk.
use vstd::prelude::*;

use crate::paths::{join, join_path};
use crate::text::{concat, has_suffix, owned};

verus! {

/// The launcher's settings.
pub struct Config {
    /// The vault's root directory.
    pub vault_path: String,
    /// Where the search index lives; `None` means the default place in the
    /// user's cache directory.
    pub index_path: Option<String>,
    /// How many search results to show at most.
    pub max_results: usize,
    /// The global shortcut, such as `Super+Space`.
    pub hotkey: Option<String>,
}

/// The home directory that is used: the one the system reports, else `/tmp`.
pub open spec fn home_path(reported: Option<Seq<char>>) -> Seq<char> {
    match reported {
        Some(h) => h,
        None => "/tmp"@,
    }
}

/// The cache directory that is used: the one the system reports, else
/// `.cache` under the home directory.
pub open spec fn cache_path(reported: Option<Seq<char>>, home: Seq<char>) -> Seq<char> {
    match reported {
        Some(c) => c,
        None => home + "/.cache"@,
    }
}

/// The configuration directory that is used: the one the system reports,
/// else `.config` under the home directory.
pub open spec fn config_path(reported: Option<Seq<char>>, home: Seq<char>) -> Seq<char> {
    match reported {
        Some(c) => c,
        None => home + "/.config"@,
    }
}

/// Where the index lives when the configuration names no place, given the
/// cache directory.
pub open spec fn default_index_path(cache: Seq<char>) -> Seq<char> {
    join_path(join_path(cache, "obsidian-launcher"@), "index"@)
}

/// The launcher's own directory under the configuration directory.
pub open spec fn app_config_dir(config: Seq<char>) -> Seq<char> {
    join_path(config, "obsidian-launcher"@)
}

/// The settings file under the configuration directory.
pub open spec fn config_file_path(config: Seq<char>) -> Seq<char> {
    join_path(app_config_dir(config), "config.toml"@)
}

/// The user's home directory as the system reports it (`dirs::home_dir`),
/// as text (a part that is not UTF-8 is replaced by U+FFFD). Trusted: a
/// reported directory is not empty (`dirs` reports none for an empty
/// `HOME` and an empty home in the password database). Which directory it
/// is depends on the environment and is not stated.
#[verifier::external_body]
fn system_home_dir() -> (r: Option<String>)
    ensures
        r is Some ==> r->0@.len() > 0,
{
    match dirs::home_dir() {
        Some(p) => Some(p.to_string_lossy().into_owned()),
        None => None,
    }
}

/// The user's cache directory as the system reports it (`dirs::cache_dir`),
/// as text (a part that is not UTF-8 is replaced by U+FFFD). Trusted: a
/// reported directory is an absolute `XDG_CACHE_HOME` (it starts with `/`)
/// or `.cache` joined to a non-empty home (it ends with `/.cache`), which is
/// what `dirs` does on Linux. Which directory it is depends on the
/// environment and is not stated.
#[verifier::external_body]
fn system_cache_dir() -> (r: Option<String>)
    ensures
        r is Some ==> r->0@.len() > 0 && (r->0@[0] == '/' || has_suffix(r->0@, "/.cache"@)),
{
    match dirs::cache_dir() {
        Some(p) => Some(p.to_string_lossy().into_owned()),
        None => None,
    }
}

/// The user's configuration directory as the system reports it
/// (`dirs::config_dir`), as text (a part that is not UTF-8 is replaced by
/// U+FFFD). Trusted: a reported directory is an absolute `XDG_CONFIG_HOME`
/// (it starts with `/`) or `.config` joined to a non-empty home (it ends
/// with `/.config`), which is what `dirs` does on Linux. Which directory it
/// is depends on the environment and is not stated.
#[verifier::external_body]
fn system_config_dir() -> (r: Option<String>)
    ensures
        r is Some ==> r->0@.len() > 0 && (r->0@[0] == '/' || has_suffix(r->0@, "/.config"@)),
{
    match dirs::config_dir() {
        Some(p) => Some(p.to_string_lossy().into_owned()),
        None => None,
    }
}

/// The spec view of an optional string.
pub open spec fn opt_seq(o: Option<String>) -> Option<Seq<char>> {
    match o {
        Some(s) => Some(s@),
        None => None,
    }
}

/// The home directory from what the system reported.
pub fn home_dir_from(reported: Option<String>) -> (r: String)
    ensures
        r@ == home_path(opt_seq(reported)),
{
    match reported {
        Some(h) => h,
        None => owned("/tmp"),
    }
}

/// The cache directory from what the system reported for it and for home.
pub fn cache_dir_from(reported: Option<String>, home: &str) -> (r: String)
    ensures
        r@ == cache_path(opt_seq(reported), home@),
{
    match reported {
        Some(c) => c,
        None => concat(home, "/.cache"),
    }
}

/// The configuration directory from what the system reported for it and
/// for home.
pub fn config_dir_from(reported: Option<String>, home: &str) -> (r: String)
    ensures
        r@ == config_path(opt_seq(reported), home@),
{
    match reported {
        Some(c) => c,
        None => concat(home, "/.config"),
    }
}

/// The user's home directory, or `/tmp` when the system reports none: a
/// directory that is not empty. Which one depends on the environment;
/// `home_dir_from` states what is made of a report.
pub fn home_dir() -> (r: String)
    ensures
        r@.len() > 0,
{
    proof {
        reveal_strlit("/tmp");
    }
    home_dir_from(system_home_dir())
}

/// The user's cache directory, or `.cache` under home when the system
/// reports none: a directory that starts with `/` or ends with `/.cache`.
/// Which one depends on the environment; `cache_dir_from` states what is
/// made of the reports.
pub fn cache_dir() -> (r: String)
    ensures
        r@.len() > 0,
        r@[0] == '/' || has_suffix(r@, "/.cache"@),
{
    match system_cache_dir() {
        Some(x) => x,
        None => {
            let home = home_dir();
            let r = cache_dir_from(None, home.as_str());
            proof {
                reveal_strlit("/.cache");
                assert(r@.skip(r@.len() - 7) =~= "/.cache"@);
            }
            r
        },
    }
}

/// The user's configuration directory, or `.config` under home when the
/// system reports none: a directory that starts with `/` or ends with
/// `/.config`. Which one depends on the environment; `config_dir_from`
/// states what is made of the reports.
pub fn config_dir() -> (r: String)
    ensures
        r@.len() > 0,
        r@[0] == '/' || has_suffix(r@, "/.config"@),
{
    match system_config_dir() {
        Some(x) => x,
        None => {
            let home = home_dir();
            let r = config_dir_from(None, home.as_str());
            proof {
                reveal_strlit("/.config");
                assert(r@.skip(r@.len() - 8) =~= "/.config"@);
            }
            r
        },
    }
}

/// The launcher's own directory under a configuration directory.
pub fn app_config_dir_in(config: &str) -> (r: String)
    ensures
        r@ == app_config_dir(config@),
{
    join(config, "obsidian-launcher")
}

/// The settings file under a configuration directory.
pub fn config_file_in(config: &str) -> (r: String)
    ensures
        r@ == config_file_path(config@),
{
    let d = app_config_dir_in(config);
    join(d.as_str(), "config.toml")
}

impl Clone for Config {
    fn clone(&self) -> (r: Self)
        ensures
            r == *self,
    {
        Config {
            vault_path: self.vault_path.clone(),
            index_path: match &self.index_path {
                Some(p) => Some(p.clone()),
                None => None,
            },
            max_results: self.max_results,
            hotkey: match &self.hotkey {
                Some(h) => Some(h.clone()),
                None => None,
            },
        }
    }
}

impl Config {
    /// The settings used when there is no settings file, for a given home
    /// directory: the vault `Obsidian Vault` under home, the default index
    /// place, 50 results and the shortcut `Super+Space`.
    pub fn default_in(home: &str) -> (c: Config)
        ensures
            c.vault_path@ == join_path(home@, "Obsidian Vault"@),
            c.index_path is None,
            c.max_results == 50,
            c.hotkey is Some,
            c.hotkey->0@ == "Super+Space"@,
    {
        Config {
            vault_path: join(home, "Obsidian Vault"),
            index_path: None,
            max_results: 50,
            hotkey: Some(owned("Super+Space")),
        }
    }

    /// Where the index lives, given the cache directory: the configured
    /// place, else `obsidian-launcher/index` under the cache directory.
    pub fn index_path_in(&self, cache: &str) -> (r: String)
        ensures
            r@ == match self.index_path {
                Some(p) => p@,
                None => default_index_path(cache@),
            },
    {
        match &self.index_path {
            Some(p) => p.clone(),
            None => {
                let d = join(cache, "obsidian-launcher");
                join(d.as_str(), "index")
            },
        }
    }

    /// Where the index lives: the configured place, else
    /// `obsidian-launcher/index` under the user's cache directory.
    pub fn index_path(&self) -> (r: String)
        ensures
            self.index_path is Some ==> r@ == self.index_path->0@,
            self.index_path is None ==> exists|c: Seq<char>| r@ == default_index_path(c),
    {
        match &self.index_path {
            Some(p) => p.clone(),
            None => {
                let cache = cache_dir();
                let r = self.index_path_in(cache.as_str());
                assert(r@ == default_index_path(cache@));
                r
            },
        }
    }
}

impl Default for Config {
    fn default() -> (c: Config)
        ensures
            exists|h: Option<Seq<char>>|
                c.vault_path@ == join_path(#[trigger] home_path(h), "Obsidian Vault"@),
            c.index_path is None,
            c.max_results == 50,
            c.hotkey is Some,
            c.hotkey->0@ == "Super+Space"@,
    {
        let home = home_dir();
        let c = Config::default_in(home.as_str());
        assert(home_path(Some(home@)) == home@);
        c
    }
}

} // verus!
