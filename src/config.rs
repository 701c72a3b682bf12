//! Server configuration and where configuration and rule files are looked for.
//!
//! Whether a file exists and where the home directory is are found by the
//! caller; the functions here decide what to do with those facts.

use vstd::prelude::*;
use crate::text::{chars_of, copy_strings, starts_with, string_of, strings_view, text_eq, to_owned_string};

verus! {

/// Name of the configuration directory under the home directory.
pub const CONFIG_DIR_NAME: &'static str = ".handy-local-rules";

/// Name of a configuration file.
pub const CONFIG_FILE_NAME: &'static str = "config.json";

/// Name of a rules file.
pub const RULES_FILE_NAME: &'static str = "rules.json";

/// `part` joined to `base` the way `Path::join` does it: an absolute part
/// replaces the base, and one separator goes between them.
pub open spec fn join_path(base: Seq<char>, part: Seq<char>) -> Seq<char> {
    if part.len() > 0 && part[0] == '/' {
        part
    } else if base.len() == 0 {
        part
    } else if base.last() == '/' {
        base + part
    } else {
        base + seq!['/'] + part
    }
}

/// Joins `part` to `base` as a path.
pub fn join(base: &str, part: &str) -> (r: String)
    ensures
        r@ == join_path(base@, part@),
{
    let b = chars_of(base);
    let p = chars_of(part);
    if p.len() > 0 && p[0] == '/' {
        return to_owned_string(part);
    }
    if b.len() == 0 {
        return to_owned_string(part);
    }
    let mut r = to_owned_string(base);
    if b[b.len() - 1] != '/' {
        r.append("/");
        proof {
            reveal_strlit("/");
        }
    }
    r.append(part);
    r
}

/// The configuration directory for a home directory.
pub open spec fn config_dir_spec(home: Seq<char>) -> Seq<char> {
    join_path(home, CONFIG_DIR_NAME@)
}

/// The configuration directory (`~/.handy-local-rules`), given the home directory.
pub fn get_config_dir(home: Option<&str>) -> (r: Option<String>)
    ensures
        r is Some <==> home is Some,
        r matches Some(d) ==> d@ == config_dir_spec(home->0@),
{
    match home {
        Some(h) => Some(join(h, CONFIG_DIR_NAME)),
        None => None,
    }
}

/// The default configuration file (`~/.handy-local-rules/config.json`), given the home directory.
pub fn get_default_config_path(home: Option<&str>) -> (r: Option<String>)
    ensures
        r is Some <==> home is Some,
        r matches Some(p) ==> p@ == join_path(config_dir_spec(home->0@), CONFIG_FILE_NAME@),
{
    match get_config_dir(home) {
        Some(d) => Some(join(d.as_str(), CONFIG_FILE_NAME)),
        None => None,
    }
}

/// The default rules file (`~/.handy-local-rules/rules.json`), given the home directory.
pub fn get_default_rules_path(home: Option<&str>) -> (r: Option<String>)
    ensures
        r is Some <==> home is Some,
        r matches Some(p) ==> p@ == join_path(config_dir_spec(home->0@), RULES_FILE_NAME@),
{
    match get_config_dir(home) {
        Some(d) => Some(join(d.as_str(), RULES_FILE_NAME)),
        None => None,
    }
}

/// Picks the configuration file: the explicit path if it exists, else
/// `config.json` in the working directory if it exists, else the one in the
/// home configuration directory if it exists.
pub fn find_config_file(
    explicit_path: Option<&str>,
    explicit_exists: bool,
    cwd_config_exists: bool,
    home: Option<&str>,
    home_config_exists: bool,
) -> (r: Option<String>)
    ensures
        explicit_path is Some && explicit_exists ==> (r matches Some(p) && p@ == explicit_path->0@),
        !(explicit_path is Some && explicit_exists) && cwd_config_exists ==> (r matches Some(p) && p@ == CONFIG_FILE_NAME@),
        !(explicit_path is Some && explicit_exists) && !cwd_config_exists ==> {
            &&& r is Some <==> (home is Some && home_config_exists)
            &&& r matches Some(p) ==> p@ == join_path(config_dir_spec(home->0@), CONFIG_FILE_NAME@)
        },
{
    if let Some(p) = explicit_path {
        if explicit_exists {
            return Some(to_owned_string(p));
        }
    }
    if cwd_config_exists {
        return Some(to_owned_string(CONFIG_FILE_NAME));
    }
    if home_config_exists {
        return get_default_config_path(home);
    }
    None
}

/// An explicit rules path with a leading `~/` resolved against the home directory.
pub open spec fn expand_home(path: Seq<char>, home: Option<Seq<char>>) -> Seq<char> {
    if path.len() >= 2 && path[0] == '~' && path[1] == '/' && home is Some {
        join_path(home->0, path.subrange(2, path.len() as int))
    } else {
        path
    }
}

/// `s` without repeated entries, each kept where it first occurs.
pub open spec fn dedup(s: Seq<Seq<char>>) -> Seq<Seq<char>>
    decreases s.len(),
{
    if s.len() == 0 {
        s
    } else {
        let d = dedup(s.drop_last());
        if d.contains(s.last()) {
            d
        } else {
            d.push(s.last())
        }
    }
}

/// The places searched when no rules path, or only the default one, is given:
/// `rules.json` here, `~/.handy-local-rules/rules.json`, and every JSON file
/// of `~/.handy-local-rules`, each only where it exists.
pub open spec fn default_rule_places(
    home: Option<Seq<char>>,
    cwd_rules_exists: bool,
    home_rules_exists: bool,
    config_dir_exists: bool,
) -> Seq<Seq<char>> {
    (if cwd_rules_exists { seq![RULES_FILE_NAME@] } else { Seq::empty() })
    + (if home is Some && home_rules_exists {
        seq![join_path(config_dir_spec(home->0), RULES_FILE_NAME@)]
    } else {
        Seq::empty()
    })
    + (if home is Some && config_dir_exists {
        seq![join_path(config_dir_spec(home->0), seq!['*', '.', 'j', 's', 'o', 'n'])]
    } else {
        Seq::empty()
    })
}

/// Whether only default places are searched for rules.
pub open spec fn uses_default_places(explicit: Seq<Seq<char>>) -> bool {
    explicit.len() == 0 || (explicit.len() == 1 && explicit[0] == RULES_FILE_NAME@)
}

/// The rules path specs to load, in order, without repeats.
pub open spec fn rules_paths_spec(
    explicit: Seq<Seq<char>>,
    home: Option<Seq<char>>,
    cwd_rules_exists: bool,
    home_rules_exists: bool,
    config_dir_exists: bool,
) -> Seq<Seq<char>> {
    dedup(
        explicit.map_values(|p: Seq<char>| expand_home(p, home))
        + if uses_default_places(explicit) {
            default_rule_places(home, cwd_rules_exists, home_rules_exists, config_dir_exists)
        } else {
            Seq::empty()
        },
    )
}

fn contains_text(v: &Vec<String>, s: &str) -> (r: bool)
    ensures
        r == strings_view(v@).contains(s@),
{
    let mut i: usize = 0;
    while i < v.len()
        invariant
            i <= v.len(),
            forall|k: int| 0 <= k < i ==> v@[k]@ != s@,
        decreases v.len() - i,
    {
        if text_eq(v[i].as_str(), s) {
            assert(strings_view(v@)[i as int] == s@);
            return true;
        }
        i = i + 1;
    }
    proof {
        if strings_view(v@).contains(s@) {
            let k = choose|k: int| 0 <= k < strings_view(v@).len() && strings_view(v@)[k] == s@;
            assert(v@[k]@ == s@);
        }
    }
    false
}

fn push_unique(out: &mut Vec<String>, s: String)
    ensures
        strings_view(final(out)@) == if strings_view(old(out)@).contains(s@) {
            strings_view(old(out)@)
        } else {
            strings_view(old(out)@).push(s@)
        },
{
    if !contains_text(out, s.as_str()) {
        out.push(s);
        assert(strings_view(out@) =~= strings_view(old(out)@).push(s@));
    }
}

fn expand(path: &str, home: Option<&str>) -> (r: String)
    ensures
        r@ == expand_home(path@, match home { Some(h) => Some(h@), None => None }),
{
    let cs = chars_of(path);
    if cs.len() >= 2 && cs[0] == '~' && cs[1] == '/' {
        if let Some(h) = home {
            let mut rest: Vec<char> = Vec::new();
            let mut i: usize = 2;
            while i < cs.len()
                invariant
                    2 <= i <= cs.len(),
                    rest@ == cs@.subrange(2, i as int),
                decreases cs.len() - i,
            {
                rest.push(cs[i]);
                assert(rest@ =~= cs@.subrange(2, i + 1));
                i = i + 1;
            }
            let tail = string_of(&rest);
            return join(h, tail.as_str());
        }
    }
    to_owned_string(path)
}

/// The rules path specs to load: the explicit paths with `~/` resolved, then,
/// when none or only `rules.json` was given, the default places that exist;
/// each path once, where it first occurs.
pub fn find_rules_paths(
    explicit_paths: &Vec<String>,
    home: Option<&str>,
    cwd_rules_exists: bool,
    home_rules_exists: bool,
    config_dir_exists: bool,
) -> (r: Vec<String>)
    ensures
        strings_view(r@) == rules_paths_spec(
            strings_view(explicit_paths@),
            match home { Some(h) => Some(h@), None => None },
            cwd_rules_exists,
            home_rules_exists,
            config_dir_exists,
        ),
{
    let ghost h = match home { Some(h) => Some(h@), None => None };
    let ghost explicit = strings_view(explicit_paths@);
    let ghost expanded = explicit.map_values(|p: Seq<char>| expand_home(p, h));
    let mut candidates: Vec<String> = Vec::new();
    let mut i: usize = 0;
    while i < explicit_paths.len()
        invariant
            i <= explicit_paths.len(),
            explicit == strings_view(explicit_paths@),
            expanded == explicit.map_values(|p: Seq<char>| expand_home(p, h)),
            h == match home { Some(h) => Some(h@), None => None },
            candidates.len() == i,
            strings_view(candidates@) == expanded.subrange(0, i as int),
        decreases explicit_paths.len() - i,
    {
        let e = expand(explicit_paths[i].as_str(), home);
        assert(expanded[i as int] == expand_home(explicit_paths@[i as int]@, h));
        candidates.push(e);
        assert(strings_view(candidates@) =~= expanded.subrange(0, i + 1));
        i = i + 1;
    }
    assert(expanded.subrange(0, explicit_paths.len() as int) =~= expanded);
    let only_default = explicit_paths.len() == 0 || (explicit_paths.len() == 1 && text_eq(
        explicit_paths[0].as_str(),
        RULES_FILE_NAME,
    ));
    if only_default {
        let ghost before = strings_view(candidates@);
        if cwd_rules_exists {
            candidates.push(to_owned_string(RULES_FILE_NAME));
        }
        let dir = get_config_dir(home);
        if let Some(d) = &dir {
            if home_rules_exists {
                candidates.push(join(d.as_str(), RULES_FILE_NAME));
            }
            if config_dir_exists {
                let pattern = "*.json";
                proof {
                    reveal_strlit("*.json");
                    assert(pattern@ =~= seq!['*', '.', 'j', 's', 'o', 'n']);
                }
                candidates.push(join(d.as_str(), pattern));
            }
        }
        assert(strings_view(candidates@) =~= before + default_rule_places(
            h,
            cwd_rules_exists,
            home_rules_exists,
            config_dir_exists,
        ));
    } else {
        assert(strings_view(candidates@) =~= expanded + Seq::<Seq<char>>::empty());
    }
    let ghost all = strings_view(candidates@);
    let mut out: Vec<String> = Vec::new();
    let mut k: usize = 0;
    while k < candidates.len()
        invariant
            k <= candidates.len(),
            all == strings_view(candidates@),
            strings_view(out@) == dedup(all.subrange(0, k as int)),
        decreases candidates.len() - k,
    {
        assert(all.subrange(0, k + 1).drop_last() =~= all.subrange(0, k as int));
        let s = to_owned_string(candidates[k].as_str());
        push_unique(&mut out, s);
        k = k + 1;
    }
    assert(all.subrange(0, candidates.len() as int) =~= all);
    out
}

/// Rules paths: one path spec or several.
#[derive(Debug, Clone)]
pub enum RulesPaths {
    Single(String),
    Multiple(Vec<String>),
}

impl RulesPaths {
    /// The path specs, in order.
    pub open spec fn paths(&self) -> Seq<Seq<char>> {
        match self {
            RulesPaths::Single(s) => seq![s@],
            RulesPaths::Multiple(v) => strings_view(v@),
        }
    }

    /// The path specs as a list.
    pub fn to_vec(&self) -> (r: Vec<String>)
        ensures
            strings_view(r@) == self.paths(),
    {
        match self {
            RulesPaths::Single(s) => {
                let mut v: Vec<String> = Vec::new();
                v.push(to_owned_string(s.as_str()));
                assert(strings_view(v@) =~= seq![s@]);
                v
            },
            RulesPaths::Multiple(v) => copy_strings(v),
        }
    }
}

impl Default for RulesPaths {
    fn default() -> (r: RulesPaths)
        ensures
            r.paths() == seq![RULES_FILE_NAME@],
    {
        RulesPaths::Single(to_owned_string(RULES_FILE_NAME))
    }
}

/// Server configuration.
#[derive(Debug, Clone)]
pub struct Config {
    /// Host to bind to.
    pub host: String,
    /// Port to listen on.
    pub port: u16,
    /// Rules files, directories or glob patterns.
    pub rules_paths: RulesPaths,
    /// API key for authentication.
    pub api_key: Option<String>,
    /// Log level (trace, debug, info, warn, error).
    pub log_level: String,
    /// Maximum transformation log entries to keep.
    pub max_log_entries: usize,
    /// Whether cross-origin requests are allowed.
    pub cors_enabled: bool,
    /// Whether shell rules run their commands.
    pub enable_shell_rules: bool,
}

/// Default host.
pub fn default_host() -> (r: String)
    ensures
        r@ == "127.0.0.1"@,
{
    to_owned_string("127.0.0.1")
}

/// Default port.
pub fn default_port() -> (r: u16)
    ensures
        r == 8080,
{
    8080
}

/// Default rules paths: `rules.json`.
pub fn default_rules_paths() -> (r: RulesPaths)
    ensures
        r.paths() == seq![RULES_FILE_NAME@],
{
    RulesPaths::default()
}

/// Default log level.
pub fn default_log_level() -> (r: String)
    ensures
        r@ == "info"@,
{
    to_owned_string("info")
}

/// Default number of transformation log entries kept.
pub fn default_max_log_entries() -> (r: usize)
    ensures
        r == 1000,
{
    1000
}

/// Cross-origin requests are allowed by default.
pub fn default_cors_enabled() -> (r: bool)
    ensures
        r,
{
    true
}

impl Config {
    /// Whether this is the default configuration.
    pub open spec fn is_default(&self) -> bool {
        &&& self.host@ == "127.0.0.1"@
        &&& self.port == 8080
        &&& self.rules_paths.paths() == seq![RULES_FILE_NAME@]
        &&& self.api_key is None
        &&& self.log_level@ == "info"@
        &&& self.max_log_entries == 1000
        &&& self.cors_enabled
        &&& !self.enable_shell_rules
    }

    /// The loaded configuration, or the default one when loading failed.
    pub fn load_or_default(loaded: Option<Config>) -> (r: Config)
        ensures
            loaded matches Some(c) ==> r == c,
            loaded is None ==> r.is_default(),
    {
        match loaded {
            Some(c) => c,
            None => Config::default(),
        }
    }

    /// The rules path specs.
    pub fn get_rules_paths(&self) -> (r: Vec<String>)
        ensures
            strings_view(r@) == self.rules_paths.paths(),
    {
        self.rules_paths.to_vec()
    }

    /// Overrides settings with the command-line values that were given; a
    /// rules path is put in front of the configured ones.
    pub fn merge_with_args(
        self,
        host: Option<String>,
        port: Option<u16>,
        rules: Option<String>,
        api_key: Option<String>,
        log_level: Option<String>,
    ) -> (r: Config)
        ensures
            r.host == match host { Some(h) => h, None => self.host },
            r.port == match port { Some(p) => p, None => self.port },
            r.rules_paths.paths() == match rules {
                Some(p) => seq![p@] + self.rules_paths.paths(),
                None => self.rules_paths.paths(),
            },
            r.api_key == match api_key { Some(k) => Some(k), None => self.api_key },
            r.log_level == match log_level { Some(l) => l, None => self.log_level },
            r.max_log_entries == self.max_log_entries,
            r.cors_enabled == self.cors_enabled,
            r.enable_shell_rules == self.enable_shell_rules,
    {
        let mut c = self;
        if let Some(h) = host {
            c.host = h;
        }
        if let Some(p) = port {
            c.port = p;
        }
        if let Some(first) = rules {
            let ghost old_paths = c.rules_paths.paths();
            let rest = c.rules_paths.to_vec();
            let mut paths: Vec<String> = Vec::new();
            let ghost first_view = first@;
            paths.push(first);
            assert(strings_view(paths@) =~= seq![first_view] + old_paths.subrange(0, 0));
            let mut i: usize = 0;
            while i < rest.len()
                invariant
                    i <= rest.len(),
                    strings_view(rest@) == old_paths,
                    paths.len() == i + 1,
                    strings_view(paths@) == seq![first_view] + old_paths.subrange(0, i as int),
                decreases rest.len() - i,
            {
                assert(old_paths[i as int] == rest@[i as int]@);
                let next = to_owned_string(rest[i].as_str());
                let ghost pv = strings_view(paths@);
                paths.push(next);
                assert(strings_view(paths@) =~= pv.push(old_paths[i as int]));
                assert(strings_view(paths@) =~= seq![first_view] + old_paths.subrange(0, i + 1));
                i = i + 1;
            }
            assert(old_paths.subrange(0, rest.len() as int) =~= old_paths);
            c.rules_paths = RulesPaths::Multiple(paths);
        }
        if api_key.is_some() {
            c.api_key = api_key;
        }
        if let Some(l) = log_level {
            c.log_level = l;
        }
        c
    }
}

impl Default for Config {
    fn default() -> (r: Config)
        ensures
            r.is_default(),
    {
        Config {
            host: default_host(),
            port: default_port(),
            rules_paths: default_rules_paths(),
            api_key: None,
            log_level: default_log_level(),
            max_log_entries: default_max_log_entries(),
            cors_enabled: default_cors_enabled(),
            enable_shell_rules: false,
        }
    }
}

} // verus!
