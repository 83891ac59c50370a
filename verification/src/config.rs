//! User-facing configuration (paths, defaults).

use vstd::prelude::*;
use vstd::string::StringExecFns;
use crate::transport::texts;

verus! {

/// The directory that a configuration path starts from.
#[derive(Debug, Clone, Copy, PartialEq, Eq)]
pub enum ConfigBase {
    /// `$XDG_CONFIG_HOME`.
    XdgConfigHome,
    /// `$HOME`.
    Home,
    /// The working directory.
    WorkingDir,
}

/// A path below one of these directories.
#[derive(Debug, Clone, PartialEq, Eq)]
pub struct ConfigPath {
    /// Where it starts.
    pub base: ConfigBase,
    /// The names below it, outermost first.
    pub parts: Vec<String>,
}

/// Where configuration paths start: `$XDG_CONFIG_HOME` where it is set, else
/// `$HOME`, else the working directory.
pub open spec fn base_of(xdg_set: bool, home_set: bool) -> ConfigBase {
    if xdg_set {
        ConfigBase::XdgConfigHome
    } else if home_set {
        ConfigBase::Home
    } else {
        ConfigBase::WorkingDir
    }
}

/// The names below the base of the configuration directory.
pub open spec fn dir_parts(base: ConfigBase) -> Seq<Seq<char>> {
    match base {
        ConfigBase::XdgConfigHome => seq!["p2pchat"@],
        ConfigBase::Home => seq![".config"@, "p2pchat"@],
        ConfigBase::WorkingDir => seq![".p2pchat"@],
    }
}

/// Where the configuration directory is, in each case.
pub proof fn configuration_places(home_set: bool)
    ensures
        base_of(true, home_set) == ConfigBase::XdgConfigHome,
        base_of(false, true) == ConfigBase::Home,
        base_of(false, false) == ConfigBase::WorkingDir,
        dir_parts(base_of(true, home_set)) == seq!["p2pchat"@],
        dir_parts(base_of(false, true)) == seq![".config"@, "p2pchat"@],
        dir_parts(base_of(false, false)) == seq![".p2pchat"@],
{
}

/// Root directory for p2pchat state (`identity.enc`, message db, etc.).
/// Honors `$XDG_CONFIG_HOME` on Linux; falls back to `~/.config/p2pchat`.
pub fn config_dir(xdg_set: bool, home_set: bool) -> (path: ConfigPath)
    ensures
        path.base == base_of(xdg_set, home_set),
        texts(path.parts@) == dir_parts(path.base),
{
    let mut parts: Vec<String> = Vec::new();
    let path = if xdg_set {
        parts.push(String::from_str("p2pchat"));
        ConfigPath { base: ConfigBase::XdgConfigHome, parts }
    } else if home_set {
        parts.push(String::from_str(".config"));
        parts.push(String::from_str("p2pchat"));
        ConfigPath { base: ConfigBase::Home, parts }
    } else {
        parts.push(String::from_str(".p2pchat"));
        ConfigPath { base: ConfigBase::WorkingDir, parts }
    };
    assert(texts(path.parts@) =~= dir_parts(path.base));
    path
}

/// A file in the configuration directory.
fn in_config_dir(xdg_set: bool, home_set: bool, name: &str) -> (path: ConfigPath)
    ensures
        path.base == base_of(xdg_set, home_set),
        texts(path.parts@) == dir_parts(path.base).push(name@),
{
    let mut path = config_dir(xdg_set, home_set);
    let ghost before = path.parts@;
    path.parts.push(String::from_str(name));
    assert(texts(path.parts@) =~= texts(before).push(name@));
    path
}

/// Path to the encrypted identity file.
pub fn identity_path(xdg_set: bool, home_set: bool) -> (path: ConfigPath)
    ensures
        path.base == base_of(xdg_set, home_set),
        texts(path.parts@) == dir_parts(path.base).push("identity.enc"@),
{
    in_config_dir(xdg_set, home_set, "identity.enc")
}

/// Path to the chat database.
pub fn db_path(xdg_set: bool, home_set: bool) -> (path: ConfigPath)
    ensures
        path.base == base_of(xdg_set, home_set),
        texts(path.parts@) == dir_parts(path.base).push("chat.db"@),
{
    in_config_dir(xdg_set, home_set, "chat.db")
}

} // verus!
