//! Where asoby keeps its data (cores, states) and its cache (downloads):
//! a configured directory, else the XDG directory, else the platform's.
use vstd::prelude::*;
use crate::pathname::{join, join_str};
use crate::text::{str_chars, str_equal, chars_range, string_from_chars};

verus! {

/// What the environment says about base directories: the XDG variables,
/// the platform's data and cache directories, and the home directory.
#[derive(Debug)]
pub struct BaseDirs {
    pub xdg_data_home: Option<String>,
    pub xdg_cache_home: Option<String>,
    pub data_local_dir: Option<String>,
    pub cache_dir: Option<String>,
    pub home_dir: Option<String>,
}

pub open spec fn opt_text(o: Option<&str>) -> Option<Seq<char>> {
    match o {
        Some(s) => Some(s@),
        None => None,
    }
}

pub open spec fn opt_string(o: Option<String>) -> Option<Seq<char>> {
    match o {
        Some(s) => Some(s@),
        None => None,
    }
}

/// Whether a configured directory starts at the home directory.
pub open spec fn needs_home(value: Seq<char>) -> bool {
    value == "~"@ || (value.len() >= 2 && value[0] == '~' && value[1] == '/')
}

/// A configured directory with a leading `~` replaced by the home
/// directory.
pub open spec fn expanded(value: Seq<char>, home: Option<Seq<char>>) -> Seq<char> {
    if value == "~"@ {
        home.unwrap()
    } else if value.len() >= 2 && value[0] == '~' && value[1] == '/' {
        join(home.unwrap(), value.skip(2))
    } else {
        value
    }
}

/// Replaces a leading `~` of a configured directory by the home directory,
/// which must be known when the value needs it.
pub fn expand_tilde(value: &str, home: Option<&str>) -> (r: String)
    requires
        needs_home(value@) ==> home is Some,
    ensures
        r@ == expanded(value@, opt_text(home)),
{
    if str_equal(value, "~") {
        return home.unwrap().to_owned();
    }
    let chars = str_chars(value);
    if chars.len() >= 2 && chars[0] == '~' && chars[1] == '/' {
        let rest = string_from_chars(&chars_range(&chars, 2, chars.len()));
        return join_str(home.unwrap(), rest.as_str());
    }
    value.to_owned()
}

/// A base directory: the configured one (with `~` expanded), else
/// `<xdg>/asoby` when the XDG variable is set and not empty, else
/// `<platform>/asoby`.
pub open spec fn base_dir(
    xdg: Option<Seq<char>>,
    configured: Option<Seq<char>>,
    platform: Option<Seq<char>>,
    home: Option<Seq<char>>,
) -> Seq<char> {
    match configured {
        Some(dir) => expanded(dir, home),
        None => match xdg {
            Some(x) if x.len() > 0 => join(x, "asoby"@),
            _ => join(platform.unwrap(), "asoby"@),
        },
    }
}

/// Whether `base_dir` is defined for these inputs: the home directory is
/// known where `~` needs it, and the platform directory where nothing
/// else applies.
pub open spec fn base_dir_known(
    xdg: Option<Seq<char>>,
    configured: Option<Seq<char>>,
    platform: Option<Seq<char>>,
    home: Option<Seq<char>>,
) -> bool {
    match configured {
        Some(dir) => needs_home(dir) ==> home is Some,
        None => match xdg {
            Some(x) if x.len() > 0 => true,
            _ => platform is Some,
        },
    }
}

fn resolve_base(
    xdg: Option<&str>,
    configured: Option<&str>,
    platform: Option<&str>,
    home: Option<&str>,
) -> (r: String)
    requires
        base_dir_known(opt_text(xdg), opt_text(configured), opt_text(platform), opt_text(home)),
    ensures
        r@ == base_dir(opt_text(xdg), opt_text(configured), opt_text(platform), opt_text(home)),
{
    if let Some(dir) = configured {
        return expand_tilde(dir, home);
    }
    if let Some(x) = xdg {
        if !x.is_empty() {
            return join_str(x, "asoby");
        }
    }
    join_str(platform.unwrap(), "asoby")
}

/// The data directory.
pub fn resolve_data_base_from(
    xdg_data_home: Option<&str>,
    config_data_dir: Option<&str>,
    platform: Option<&str>,
    home: Option<&str>,
) -> (r: String)
    requires
        base_dir_known(
            opt_text(xdg_data_home),
            opt_text(config_data_dir),
            opt_text(platform),
            opt_text(home),
        ),
    ensures
        r@ == base_dir(
            opt_text(xdg_data_home),
            opt_text(config_data_dir),
            opt_text(platform),
            opt_text(home),
        ),
{
    resolve_base(xdg_data_home, config_data_dir, platform, home)
}

/// The cache directory.
pub fn resolve_cache_base_from(
    xdg_cache_home: Option<&str>,
    config_cache_dir: Option<&str>,
    platform: Option<&str>,
    home: Option<&str>,
) -> (r: String)
    requires
        base_dir_known(
            opt_text(xdg_cache_home),
            opt_text(config_cache_dir),
            opt_text(platform),
            opt_text(home),
        ),
    ensures
        r@ == base_dir(
            opt_text(xdg_cache_home),
            opt_text(config_cache_dir),
            opt_text(platform),
            opt_text(home),
        ),
{
    resolve_base(xdg_cache_home, config_cache_dir, platform, home)
}

fn as_str_opt(o: &Option<String>) -> (r: Option<&str>)
    ensures
        opt_text(r) == opt_string(*o),
{
    match o {
        Some(s) => Some(s.as_str()),
        None => None,
    }
}

impl BaseDirs {
    /// The data directory under this environment.
    pub open spec fn data_base_of(&self, configured: Option<Seq<char>>) -> Seq<char> {
        base_dir(opt_string(self.xdg_data_home), configured, opt_string(self.data_local_dir), opt_string(self.home_dir))
    }

    /// The cache directory under this environment.
    pub open spec fn cache_base_of(&self, configured: Option<Seq<char>>) -> Seq<char> {
        base_dir(opt_string(self.xdg_cache_home), configured, opt_string(self.cache_dir), opt_string(self.home_dir))
    }

    pub open spec fn data_known(&self, configured: Option<Seq<char>>) -> bool {
        base_dir_known(opt_string(self.xdg_data_home), configured, opt_string(self.data_local_dir), opt_string(self.home_dir))
    }

    pub open spec fn cache_known(&self, configured: Option<Seq<char>>) -> bool {
        base_dir_known(opt_string(self.xdg_cache_home), configured, opt_string(self.cache_dir), opt_string(self.home_dir))
    }

    /// The data directory.
    pub fn data_base(&self, config_data_dir: Option<&str>) -> (r: String)
        requires
            self.data_known(opt_text(config_data_dir)),
        ensures
            r@ == self.data_base_of(opt_text(config_data_dir)),
    {
        resolve_data_base_from(
            as_str_opt(&self.xdg_data_home),
            config_data_dir,
            as_str_opt(&self.data_local_dir),
            as_str_opt(&self.home_dir),
        )
    }

    /// The cache directory.
    pub fn cache_base(&self, config_cache_dir: Option<&str>) -> (r: String)
        requires
            self.cache_known(opt_text(config_cache_dir)),
        ensures
            r@ == self.cache_base_of(opt_text(config_cache_dir)),
    {
        resolve_cache_base_from(
            as_str_opt(&self.xdg_cache_home),
            config_cache_dir,
            as_str_opt(&self.cache_dir),
            as_str_opt(&self.home_dir),
        )
    }
}

/// A configured directory wins: with one configured, the data and cache
/// bases are that directory with `~` expanded, whatever the XDG variables
/// and platform directories say; two environments with the same home
/// directory give the same bases.
pub proof fn lemma_configured_base(a: BaseDirs, b: BaseDirs, dir: Seq<char>)
    requires
        opt_string(a.home_dir) == opt_string(b.home_dir),
    ensures
        a.data_base_of(Some(dir)) == expanded(dir, opt_string(a.home_dir)),
        a.cache_base_of(Some(dir)) == expanded(dir, opt_string(a.home_dir)),
        a.data_base_of(Some(dir)) == b.data_base_of(Some(dir)),
        a.cache_base_of(Some(dir)) == b.cache_base_of(Some(dir)),
{
}

/// Where cores are installed: `cores` under the data directory.
pub fn cores_dir(dirs: &BaseDirs, config_data_dir: Option<&str>) -> (r: String)
    requires
        dirs.data_known(opt_text(config_data_dir)),
    ensures
        r@ == join(dirs.data_base_of(opt_text(config_data_dir)), "cores"@),
{
    join_str(dirs.data_base(config_data_dir).as_str(), "cores")
}

/// Where save states are kept: `states` under the data directory.
pub fn states_dir(dirs: &BaseDirs, config_data_dir: Option<&str>) -> (r: String)
    requires
        dirs.data_known(opt_text(config_data_dir)),
    ensures
        r@ == join(dirs.data_base_of(opt_text(config_data_dir)), "states"@),
{
    join_str(dirs.data_base(config_data_dir).as_str(), "states")
}

/// Where `brew` keeps its downloads: `brew` under the cache directory.
pub fn brew_cache_dir(dirs: &BaseDirs, config_cache_dir: Option<&str>) -> (r: String)
    requires
        dirs.cache_known(opt_text(config_cache_dir)),
    ensures
        r@ == join(dirs.cache_base_of(opt_text(config_cache_dir)), "brew"@),
{
    join_str(dirs.cache_base(config_cache_dir).as_str(), "brew")
}

} // verus!
