//! Configuration: sources, targets, exclusions and the library location, with
//! the checks that reject a configuration before the pipeline runs.
use vstd::prelude::*;
use crate::paths::{components, is_abs, join, join_path, path_components, render, render_path, texts};
use crate::skill::SkillName;
use crate::text::{concat2, concat3};

verus! {

/// How skills are found in a source.
#[derive(Clone, Copy, Debug, PartialEq, Eq, Structural)]
pub enum SourceType {
    /// An `installed_plugins.json` file lists plugin install paths; each holds `skills/*`.
    ClaudePlugins,
    /// Immediate subdirectories holding a manifest file are skills.
    Directory,
}

/// A configured origin of skills. Earlier sources win name conflicts.
#[derive(Debug)]
pub struct Source {
    pub name: String,
    pub path: String,
    pub source_type: SourceType,
}

/// How a target receives skills; each method carries the path it needs.
#[derive(Debug)]
pub enum TargetMethod {
    /// Mirror the library's links into `skills_dir`.
    Symlink { skills_dir: String },
    /// Register a tool server in the JSON document at `mcp_config`.
    Mcp { mcp_config: String },
}

/// One distribution target.
#[derive(Debug)]
pub struct TargetConfig {
    pub enabled: bool,
    pub method: TargetMethod,
}

/// Which of the known targets a configured target is; a configuration file
/// names each by its variant's name in lower case.
#[derive(Clone, Copy, Debug, PartialEq, Eq, Structural)]
pub enum TargetKey {
    Antigravity,
    Claude,
    Codex,
    Openclaw,
}

/// The known targets, each configured or not.
#[derive(Debug)]
pub struct Targets {
    pub antigravity: Option<TargetConfig>,
    pub claude: Option<TargetConfig>,
    pub codex: Option<TargetConfig>,
    pub openclaw: Option<TargetConfig>,
}

/// The whole configuration.
#[derive(Debug)]
pub struct Config {
    /// Where the consolidated library lives.
    pub library_dir: String,
    /// Skill names never to consolidate.
    pub exclude: Vec<SkillName>,
    /// Sources in priority order.
    pub sources: Vec<Source>,
    pub targets: Targets,
}

/// The method named in a configuration file.
#[derive(Clone, Copy, Debug, PartialEq, Eq, Structural)]
pub enum DistributionMethod {
    Symlink,
    Mcp,
}

/// A target as written in a configuration file: a method and optional paths.
#[derive(Debug)]
pub struct RawTargetConfig {
    pub enabled: bool,
    pub method: DistributionMethod,
    pub skills_dir: Option<String>,
    pub mcp_config: Option<String>,
}

/// The targets as written in a configuration file.
#[derive(Debug)]
pub struct RawTargets {
    pub antigravity: Option<RawTargetConfig>,
    pub claude: Option<RawTargetConfig>,
    pub codex: Option<RawTargetConfig>,
    pub openclaw: Option<RawTargetConfig>,
}

/// What is at a path on disk.
#[derive(Clone, Copy, Debug, PartialEq, Eq, Structural)]
pub enum PathState {
    Missing,
    Directory,
    /// Something that is not a directory.
    NotDirectory,
}

/// A configuration that cannot be used.
#[derive(Debug, PartialEq, Eq)]
pub enum ConfigError {
    /// A symlink target without `skills_dir`; `target` says which, when known.
    MissingSkillsDir { target: Option<TargetKey> },
    /// An mcp target without `mcp_config`; `target` says which, when known.
    MissingMcpConfig { target: Option<TargetKey> },
    LibraryDirNotDirectory { path: String },
    EmptySourceName,
    DuplicateSourceName { name: String },
    NoHomeDirectory,
    ConfigFileNotFound { path: String },
}

/// The description of a configuration error.
pub open spec fn config_error_text(e: ConfigError) -> Seq<char> {
    match e {
        ConfigError::MissingSkillsDir { target: Some(_) } => "target uses symlink method but skills_dir is not set"@,
        ConfigError::MissingSkillsDir { target: None } => "symlink target requires skills_dir"@,
        ConfigError::MissingMcpConfig { target: Some(_) } => "target uses mcp method but mcp_config is not set"@,
        ConfigError::MissingMcpConfig { target: None } => "mcp target requires mcp_config"@,
        ConfigError::LibraryDirNotDirectory { path } => "library_dir exists but is not a directory: "@ + path@,
        ConfigError::EmptySourceName => "source name cannot be empty"@,
        ConfigError::DuplicateSourceName { name } => "duplicate source name: '"@ + name@ + "'"@,
        ConfigError::NoHomeDirectory => "could not determine home directory"@,
        ConfigError::ConfigFileNotFound { path } => "config file not found: "@ + path@,
    }
}

impl ConfigError {
    /// A human-readable description.
    pub fn message(&self) -> (r: String)
        ensures
            r@ == config_error_text(*self),
    {
        match self {
            ConfigError::MissingSkillsDir { target: Some(_) } => "target uses symlink method but skills_dir is not set".to_owned(),
            ConfigError::MissingSkillsDir { target: None } => "symlink target requires skills_dir".to_owned(),
            ConfigError::MissingMcpConfig { target: Some(_) } => "target uses mcp method but mcp_config is not set".to_owned(),
            ConfigError::MissingMcpConfig { target: None } => "mcp target requires mcp_config".to_owned(),
            ConfigError::LibraryDirNotDirectory { path } => concat2(
                "library_dir exists but is not a directory: ",
                path.as_str(),
            ),
            ConfigError::EmptySourceName => "source name cannot be empty".to_owned(),
            ConfigError::DuplicateSourceName { name } => concat3(
                "duplicate source name: '",
                name.as_str(),
                "'",
            ),
            ConfigError::NoHomeDirectory => "could not determine home directory".to_owned(),
            ConfigError::ConfigFileNotFound { path } => concat2("config file not found: ", path.as_str()),
        }
    }
}

/// The path a target method carries.
pub open spec fn method_path(m: TargetMethod) -> Seq<char> {
    match m {
        TargetMethod::Symlink { skills_dir } => skills_dir@,
        TargetMethod::Mcp { mcp_config } => mcp_config@,
    }
}

pub open spec fn opt_entry(key: TargetKey, o: Option<TargetConfig>) -> Seq<(TargetKey, TargetConfig)> {
    match o {
        Some(c) => seq![(key, c)],
        None => Seq::empty(),
    }
}

/// The configured targets with their keys, in a fixed order.
pub open spec fn configured(t: Targets) -> Seq<(TargetKey, TargetConfig)> {
    opt_entry(TargetKey::Antigravity, t.antigravity) + opt_entry(TargetKey::Claude, t.claude) + opt_entry(
        TargetKey::Codex,
        t.codex,
    ) + opt_entry(TargetKey::Openclaw, t.openclaw)
}

pub open spec fn named_view<'a>(v: Seq<(TargetKey, &'a TargetConfig)>) -> Seq<(TargetKey, TargetConfig)> {
    v.map_values(|p: (TargetKey, &'a TargetConfig)| (p.0, *p.1))
}

fn push_named<'a>(v: &mut Vec<(TargetKey, &'a TargetConfig)>, key: TargetKey, o: &'a Option<TargetConfig>)
    ensures
        named_view(final(v)@) == named_view(old(v)@) + opt_entry(key, *o),
{
    let ghost before = named_view(v@);
    if let Some(c) = o {
        v.push((key, c));
    }
    assert(named_view(v@) =~= before + opt_entry(key, *o));
}

impl Targets {
    /// The configured targets as (key, config) pairs, in the order of the
    /// variants of [`TargetKey`].
    pub fn iter(&self) -> (r: Vec<(TargetKey, &TargetConfig)>)
        ensures
            named_view(r@) == configured(*self),
    {
        let mut v: Vec<(TargetKey, &TargetConfig)> = Vec::new();
        assert(named_view(v@) =~= Seq::<(TargetKey, TargetConfig)>::empty());
        push_named(&mut v, TargetKey::Antigravity, &self.antigravity);
        push_named(&mut v, TargetKey::Claude, &self.claude);
        push_named(&mut v, TargetKey::Codex, &self.codex);
        push_named(&mut v, TargetKey::Openclaw, &self.openclaw);
        assert(named_view(v@) =~= configured(*self));
        v
    }

    /// No target configured.
    pub fn none() -> (r: Targets)
        ensures
            r.antigravity is None,
            r.claude is None,
            r.codex is None,
            r.openclaw is None,
    {
        Targets { antigravity: None, claude: None, codex: None, openclaw: None }
    }
}

impl TargetConfig {
    /// The skills directory of a symlink target.
    pub fn skills_dir(&self) -> (r: Option<&str>)
        ensures
            self.method is Symlink ==> (r matches Some(d) && d@ == method_path(self.method)),
            self.method is Mcp ==> r is None,
    {
        match &self.method {
            TargetMethod::Symlink { skills_dir } => Some(skills_dir.as_str()),
            TargetMethod::Mcp { .. } => None,
        }
    }

    /// The JSON document path of an mcp target.
    pub fn mcp_config(&self) -> (r: Option<&str>)
        ensures
            self.method is Mcp ==> (r matches Some(d) && d@ == method_path(self.method)),
            self.method is Symlink ==> r is None,
    {
        match &self.method {
            TargetMethod::Mcp { mcp_config } => Some(mcp_config.as_str()),
            TargetMethod::Symlink { .. } => None,
        }
    }

    /// Builds a target from its file form. The method decides which path is
    /// required; the other one is ignored.
    pub fn try_from_raw(raw: RawTargetConfig) -> (r: Result<TargetConfig, ConfigError>)
        ensures
            raw.method == DistributionMethod::Symlink ==> match raw.skills_dir {
                Some(d) => (r matches Ok(t) && t.enabled == raw.enabled && (t.method matches TargetMethod::Symlink { skills_dir } && skills_dir@ == d@)),
                None => r == Err::<TargetConfig, ConfigError>(ConfigError::MissingSkillsDir { target: None }),
            },
            raw.method == DistributionMethod::Mcp ==> match raw.mcp_config {
                Some(p) => (r matches Ok(t) && t.enabled == raw.enabled && (t.method matches TargetMethod::Mcp { mcp_config } && mcp_config@ == p@)),
                None => r == Err::<TargetConfig, ConfigError>(ConfigError::MissingMcpConfig { target: None }),
            },
    {
        match raw.method {
            DistributionMethod::Symlink => match raw.skills_dir {
                Some(skills_dir) => Ok(TargetConfig { enabled: raw.enabled, method: TargetMethod::Symlink { skills_dir } }),
                None => Err(ConfigError::MissingSkillsDir { target: None }),
            },
            DistributionMethod::Mcp => match raw.mcp_config {
                Some(mcp_config) => Ok(TargetConfig { enabled: raw.enabled, method: TargetMethod::Mcp { mcp_config } }),
                None => Err(ConfigError::MissingMcpConfig { target: None }),
            },
        }
    }

    /// The file form of this target: the method and the one path it carries.
    pub fn to_raw(&self) -> (r: RawTargetConfig)
        ensures
            r.enabled == self.enabled,
            self.method is Symlink ==> r.method == DistributionMethod::Symlink && r.mcp_config is None
                && (r.skills_dir matches Some(d) && d@ == method_path(self.method)),
            self.method is Mcp ==> r.method == DistributionMethod::Mcp && r.skills_dir is None
                && (r.mcp_config matches Some(p) && p@ == method_path(self.method)),
    {
        match &self.method {
            TargetMethod::Symlink { skills_dir } => RawTargetConfig {
                enabled: self.enabled,
                method: DistributionMethod::Symlink,
                skills_dir: Some(skills_dir.clone()),
                mcp_config: None,
            },
            TargetMethod::Mcp { mcp_config } => RawTargetConfig {
                enabled: self.enabled,
                method: DistributionMethod::Mcp,
                skills_dir: None,
                mcp_config: Some(mcp_config.clone()),
            },
        }
    }
}

/// Whether a target in file form lacks the path its method requires.
pub open spec fn raw_is_incomplete(o: Option<RawTargetConfig>) -> bool {
    match o {
        Some(raw) => match raw.method {
            DistributionMethod::Symlink => raw.skills_dir is None,
            DistributionMethod::Mcp => raw.mcp_config is None,
        },
        None => false,
    }
}

/// `t` is the target that `raw` describes: same enabled flag, same method,
/// and the path that the method needs.
pub open spec fn converted(raw: Option<RawTargetConfig>, t: Option<TargetConfig>) -> bool {
    match (raw, t) {
        (None, None) => true,
        (Some(rc), Some(c)) => {
            &&& c.enabled == rc.enabled
            &&& match rc.method {
                DistributionMethod::Symlink => c.method is Symlink && (rc.skills_dir matches Some(d) && d@ == method_path(c.method)),
                DistributionMethod::Mcp => c.method is Mcp && (rc.mcp_config matches Some(d) && d@ == method_path(c.method)),
            }
        },
        _ => false,
    }
}

/// The error for the first incomplete target, in the order of the variants of
/// [`TargetKey`]: it names the target and the missing path.
pub open spec fn incomplete_error(key: TargetKey, raw: Option<RawTargetConfig>, e: ConfigError) -> bool {
    match raw {
        Some(rc) => match rc.method {
            DistributionMethod::Symlink => e == ConfigError::MissingSkillsDir { target: Some(key) },
            DistributionMethod::Mcp => e == ConfigError::MissingMcpConfig { target: Some(key) },
        },
        None => false,
    }
}

fn named_target(
    key: TargetKey,
    raw: Option<RawTargetConfig>,
) -> (r: Result<Option<TargetConfig>, ConfigError>)
    ensures
        r is Err <==> raw_is_incomplete(raw),
        r matches Ok(o) ==> (o is Some <==> raw is Some) && converted(raw, o),
        r matches Err(e) ==> incomplete_error(key, raw, e),
{
    match raw {
        None => Ok(None),
        Some(raw) => {
            let method = raw.method;
            match TargetConfig::try_from_raw(raw) {
                Ok(t) => Ok(Some(t)),
                Err(_) => {
                    if method == DistributionMethod::Symlink {
                        Err(ConfigError::MissingSkillsDir { target: Some(key) })
                    } else {
                        Err(ConfigError::MissingMcpConfig { target: Some(key) })
                    }
                },
            }
        },
    }
}

impl Targets {
    /// Builds the targets from their file form, rejecting the first target (in
    /// the order of the variants of [`TargetKey`]) whose method lacks its path.
    pub fn try_from_raw(raw: RawTargets) -> (r: Result<Targets, ConfigError>)
        ensures
            r is Ok <==> !raw_is_incomplete(raw.antigravity) && !raw_is_incomplete(raw.claude)
                && !raw_is_incomplete(raw.codex) && !raw_is_incomplete(raw.openclaw),
            r matches Ok(t) ==> converted(raw.antigravity, t.antigravity) && converted(raw.claude, t.claude)
                && converted(raw.codex, t.codex) && converted(raw.openclaw, t.openclaw),
            r matches Err(e) ==> if raw_is_incomplete(raw.antigravity) {
                incomplete_error(TargetKey::Antigravity, raw.antigravity, e)
            } else if raw_is_incomplete(raw.claude) {
                incomplete_error(TargetKey::Claude, raw.claude, e)
            } else if raw_is_incomplete(raw.codex) {
                incomplete_error(TargetKey::Codex, raw.codex, e)
            } else {
                incomplete_error(TargetKey::Openclaw, raw.openclaw, e)
            },
    {
        let antigravity = named_target(TargetKey::Antigravity, raw.antigravity)?;
        let claude = named_target(TargetKey::Claude, raw.claude)?;
        let codex = named_target(TargetKey::Codex, raw.codex)?;
        let openclaw = named_target(TargetKey::Openclaw, raw.openclaw)?;
        Ok(Targets { antigravity, claude, codex, openclaw })
    }
}

/// Some source has an empty name.
pub open spec fn has_empty_name(s: Seq<Source>) -> bool {
    exists|i: int| 0 <= i < s.len() && (#[trigger] s[i]).name@.len() == 0
}

/// The source at `j` repeats the name of an earlier one.
pub open spec fn repeats_name(s: Seq<Source>, j: int) -> bool {
    exists|i: int| 0 <= i < j && (#[trigger] s[i]).name@ == s[j].name@
}

pub open spec fn has_duplicate(s: Seq<Source>) -> bool {
    exists|j: int| 0 <= j < s.len() && #[trigger] repeats_name(s, j)
}

impl Config {
    /// Rejects a configuration that cannot be used: a library path occupied by
    /// something other than a directory (`library_dir_state` is what is at
    /// `library_dir`), an empty source name, or a source name used twice.
    /// For a repeated name the error names the first source, in order, whose
    /// name was already taken.
    pub fn validate(&self, library_dir_state: PathState) -> (r: Result<(), ConfigError>)
        ensures
            library_dir_state == PathState::NotDirectory ==> (r matches Err(ConfigError::LibraryDirNotDirectory { path }) && path@ == self.library_dir@),
            library_dir_state != PathState::NotDirectory && has_empty_name(self.sources@) ==> r == Err::<(), ConfigError>(ConfigError::EmptySourceName),
            library_dir_state != PathState::NotDirectory && !has_empty_name(self.sources@) && has_duplicate(self.sources@)
                ==> (r matches Err(ConfigError::DuplicateSourceName { name }) && exists|j: int| 0 <= j < self.sources@.len()
                && #[trigger] repeats_name(self.sources@, j) && name@ == self.sources@[j].name@
                && forall|k: int| 0 <= k < j ==> !repeats_name(self.sources@, k)),
            library_dir_state != PathState::NotDirectory && !has_empty_name(self.sources@) && !has_duplicate(self.sources@)
                ==> r is Ok,
    {
        if library_dir_state == PathState::NotDirectory {
            return Err(ConfigError::LibraryDirNotDirectory { path: self.library_dir.clone() });
        }
        let n = self.sources.len();
        let mut i: usize = 0;
        while i < n
            invariant
                n == self.sources@.len(),
                i <= n,
                library_dir_state != PathState::NotDirectory,
                forall|k: int| 0 <= k < i ==> (#[trigger] self.sources@[k]).name@.len() != 0,
            decreases n - i,
        {
            if self.sources[i].name.unicode_len() == 0 {
                assert(self.sources@[i as int].name@.len() == 0);
                return Err(ConfigError::EmptySourceName);
            }
            i = i + 1;
        }
        assert(!has_empty_name(self.sources@));
        let mut j: usize = 0;
        while j < n
            invariant
                n == self.sources@.len(),
                j <= n,
                library_dir_state != PathState::NotDirectory,
                !has_empty_name(self.sources@),
                forall|k: int| 0 <= k < j ==> !#[trigger] repeats_name(self.sources@, k),
            decreases n - j,
        {
            let mut i: usize = 0;
            while i < j
                invariant
                    n == self.sources@.len(),
                    i <= j < n,
                    library_dir_state != PathState::NotDirectory,
                    !has_empty_name(self.sources@),
                    forall|k: int| 0 <= k < j ==> !#[trigger] repeats_name(self.sources@, k),
                    forall|k: int| 0 <= k < i ==> (#[trigger] self.sources@[k]).name@ != self.sources@[j as int].name@,
                decreases j - i,
            {
                if self.sources[i].name == self.sources[j].name {
                    assert(repeats_name(self.sources@, j as int));
                    return Err(ConfigError::DuplicateSourceName { name: self.sources[j].name.clone() });
                }
                i = i + 1;
            }
            assert(!repeats_name(self.sources@, j as int));
            j = j + 1;
        }
        assert(!has_duplicate(self.sources@));
        Ok(())
    }
}

/// `~` and what follows it, when a path starts with a `~` component.
pub open spec fn tilde_rest(p: Seq<char>) -> Option<Seq<Seq<char>>> {
    if !is_abs(p) && components(p).len() > 0 && components(p)[0] == seq!['~'] {
        Some(components(p).drop_first())
    } else {
        None
    }
}

/// A path with a leading `~` component replaced by `home`.
pub open spec fn tilde_expanded(p: Seq<char>, home: Seq<char>) -> Seq<char> {
    match tilde_rest(p) {
        Some(rest) => join(home, render(false, rest)),
        None => p,
    }
}

/// Replaces a leading `~` component of `path` with the home directory. Paths
/// that do not start with `~` are returned as they are; a path that does needs
/// a home directory.
pub fn expand_tilde(path: &str, home: Option<&str>) -> (r: Result<String, ConfigError>)
    ensures
        tilde_rest(path@) is None ==> (r matches Ok(s) && s@ == path@),
        tilde_rest(path@) is Some ==> match home {
            Some(h) => (r matches Ok(s) && s@ == tilde_expanded(path@, h@)),
            None => r == Err::<String, ConfigError>(ConfigError::NoHomeDirectory),
        },
{
    let mut cs = path_components(path);
    let tilde = !crate::paths::is_absolute(path) && cs.len() > 0 && cs[0].unicode_len() == 1
        && cs[0].as_str().get_char(0) == '~';
    proof {
        if cs@.len() > 0 && cs@[0]@.len() == 1 && cs@[0]@[0] == '~' {
            assert(cs@[0]@ =~= seq!['~']);
        }
        if cs@.len() > 0 {
            assert(texts(cs@)[0] == cs@[0]@);
        }
    }
    if !tilde {
        return Ok(path.to_owned());
    }
    match home {
        None => Err(ConfigError::NoHomeDirectory),
        Some(h) => {
            let ghost before = texts(cs@);
            cs.remove(0);
            assert(texts(cs@) =~= before.drop_first());
            let rest = render_path(false, &cs);
            Ok(join_path(h, rest.as_str()))
        },
    }
}

/// The default library location under `home` (under `~` when no home is known).
pub open spec fn default_library(home: Option<Seq<char>>) -> Seq<char> {
    match home {
        Some(h) => join(h, ".local/share/tome/skills"@),
        None => join("~"@, ".local/share/tome/skills"@),
    }
}

/// The default library location.
pub fn default_library_dir(home: Option<&str>) -> (r: String)
    ensures
        r@ == default_library(match home {
            Some(h) => Some(h@),
            None => None,
        }),
{
    match home {
        Some(h) => join_path(h, ".local/share/tome/skills"),
        None => join_path("~", ".local/share/tome/skills"),
    }
}

/// The default configuration file: `~/.config/tome/config.toml`.
pub fn default_config_path(home: Option<&str>) -> (r: Result<String, ConfigError>)
    ensures
        home matches Some(h) ==> (r matches Ok(p) && p@ == join(h@, ".config/tome/config.toml"@)),
        home is None ==> r == Err::<String, ConfigError>(ConfigError::NoHomeDirectory),
{
    match home {
        Some(h) => Ok(join_path(h, ".config/tome/config.toml")),
        None => Err(ConfigError::NoHomeDirectory),
    }
}

/// Chooses the configuration file: the one given on the command line, or the
/// default one. A given file may be missing (a first run), but a missing file
/// in a missing directory is taken for a typo and refused.
pub fn resolve_config_path(
    cli_path: Option<&str>,
    cli_path_exists: bool,
    cli_parent_exists: bool,
    home: Option<&str>,
) -> (r: Result<String, ConfigError>)
    ensures
        cli_path matches Some(p) ==> (!cli_path_exists && !cli_parent_exists ==> (r matches Err(ConfigError::ConfigFileNotFound { path }) && path@ == p@)),
        cli_path matches Some(p) ==> (cli_path_exists || cli_parent_exists ==> (r matches Ok(c) && c@ == p@)),
        cli_path is None ==> (home matches Some(h) ==> (r matches Ok(c) && c@ == join(h@, ".config/tome/config.toml"@))),
        cli_path is None && home is None ==> r == Err::<String, ConfigError>(ConfigError::NoHomeDirectory),
{
    match cli_path {
        Some(p) => {
            if !cli_path_exists && !cli_parent_exists {
                Err(ConfigError::ConfigFileNotFound { path: p.to_owned() })
            } else {
                Ok(p.to_owned())
            }
        },
        None => default_config_path(home),
    }
}

impl Default for Config {
    /// An empty configuration: no exclusions, sources or targets, and the
    /// library in its default place, written under `~` so that
    /// [`Config::expand_tildes`] places it in the home directory it is given.
    fn default() -> (r: Config)
        ensures
            r.library_dir@ == default_library(None),
            r.exclude@.len() == 0,
            r.sources@.len() == 0,
            r.targets.antigravity is None && r.targets.claude is None && r.targets.codex is None && r.targets.openclaw is None,
    {
        Config { library_dir: default_library_dir(None), exclude: Vec::new(), sources: Vec::new(), targets: Targets::none() }
    }
}

pub open spec fn expanded_opt(p: Seq<char>, home: Option<Seq<char>>) -> Option<Seq<char>> {
    match tilde_rest(p) {
        None => Some(p),
        Some(_) => match home {
            Some(h) => Some(tilde_expanded(p, h)),
            None => None,
        },
    }
}

/// Whether the path of a target needs a home directory that is not known.
pub open spec fn target_blocked(t: Option<TargetConfig>, home: Option<Seq<char>>) -> bool {
    match t {
        Some(c) => expanded_opt(method_path(c.method), home) is None,
        None => false,
    }
}

/// Whether some path of the configuration starts with `~` while no home
/// directory is known.
pub open spec fn needs_home(c: Config, home: Option<Seq<char>>) -> bool {
    ||| expanded_opt(c.library_dir@, home) is None
    ||| exists|i: int| 0 <= i < c.sources@.len() && expanded_opt((#[trigger] c.sources@[i]).path@, home) is None
    ||| target_blocked(c.targets.antigravity, home)
    ||| target_blocked(c.targets.claude, home)
    ||| target_blocked(c.targets.codex, home)
    ||| target_blocked(c.targets.openclaw, home)
}

/// `after` is `before` with `~` expanded in its path.
pub open spec fn target_expanded(before: Option<TargetConfig>, after: Option<TargetConfig>, home: Option<Seq<char>>) -> bool {
    match (before, after) {
        (Some(a), Some(b)) => b.enabled == a.enabled && (a.method is Symlink <==> b.method is Symlink)
            && expanded_opt(method_path(a.method), home) == Some(method_path(b.method)),
        (None, None) => true,
        _ => false,
    }
}

fn expand_target(t: &mut Option<TargetConfig>, home: Option<&str>) -> (r: Result<(), ConfigError>)
    ensures
        r is Ok ==> target_expanded(*old(t), *final(t), match home { Some(h) => Some(h@), None => None }),
        r is Err <==> target_blocked(*old(t), match home { Some(h) => Some(h@), None => None }),
{
    match t {
        None => Ok(()),
        Some(tc) => {
            match &mut tc.method {
                TargetMethod::Symlink { skills_dir } => {
                    let p = expand_tilde(skills_dir.as_str(), home)?;
                    *skills_dir = p;
                },
                TargetMethod::Mcp { mcp_config } => {
                    let p = expand_tilde(mcp_config.as_str(), home)?;
                    *mcp_config = p;
                },
            }
            Ok(())
        },
    }
}

impl Config {
    /// Replaces a leading `~` in every path of the configuration (the library,
    /// each source, each target) with `home`. Fails when such a path needs a
    /// home directory and none is known.
    pub fn expand_tildes(&mut self, home: Option<&str>) -> (r: Result<(), ConfigError>)
        ensures
            r is Ok ==> expanded_opt(old(self).library_dir@, match home { Some(h) => Some(h@), None => None }) == Some(final(self).library_dir@),
            r is Ok ==> final(self).sources@.len() == old(self).sources@.len() && forall|i: int| 0 <= i < old(self).sources@.len()
                ==> expanded_opt(#[trigger] old(self).sources@[i].path@, match home { Some(h) => Some(h@), None => None })
                == Some(final(self).sources@[i].path@) && final(self).sources@[i].name@ == old(self).sources@[i].name@
                && final(self).sources@[i].source_type == old(self).sources@[i].source_type,
            r is Ok ==> target_expanded(old(self).targets.antigravity, final(self).targets.antigravity, match home { Some(h) => Some(h@), None => None })
                && target_expanded(old(self).targets.claude, final(self).targets.claude, match home { Some(h) => Some(h@), None => None })
                && target_expanded(old(self).targets.codex, final(self).targets.codex, match home { Some(h) => Some(h@), None => None })
                && target_expanded(old(self).targets.openclaw, final(self).targets.openclaw, match home { Some(h) => Some(h@), None => None }),
            final(self).exclude@ == old(self).exclude@,
            r is Err <==> needs_home(*old(self), match home { Some(h) => Some(h@), None => None }),
    {
        let ghost h = match home { Some(h) => Some(h@), None => None::<Seq<char>> };
        let ghost excluded = self.exclude@;
        let lib = expand_tilde(self.library_dir.as_str(), home)?;
        self.library_dir = lib;
        let mut sources: Vec<Source> = Vec::new();
        let n = self.sources.len();
        let mut i: usize = 0;
        while i < n
            invariant
                n == self.sources@.len(),
                i <= n,
                h == match home { Some(h) => Some(h@), None => None::<Seq<char>> },
                self.exclude@ == excluded,
                old(self).exclude@ == excluded,
                self.sources@ == old(self).sources@,
                self.targets == old(self).targets,
                expanded_opt(old(self).library_dir@, h) is Some,
                sources@.len() == i,
                forall|k: int| 0 <= k < i ==> expanded_opt(#[trigger] self.sources@[k].path@, h) == Some(sources@[k].path@)
                    && sources@[k].name@ == self.sources@[k].name@ && sources@[k].source_type == self.sources@[k].source_type,
            decreases n - i,
        {
            let s = &self.sources[i];
            let p = match expand_tilde(s.path.as_str(), home) {
                Ok(p) => p,
                Err(e) => {
                    assert(expanded_opt(old(self).sources@[i as int].path@, h) is None);
                    return Err(e);
                },
            };
            sources.push(Source { name: s.name.clone(), path: p, source_type: s.source_type });
            i = i + 1;
        }
        self.sources = sources;
        expand_target(&mut self.targets.antigravity, home)?;
        expand_target(&mut self.targets.claude, home)?;
        expand_target(&mut self.targets.codex, home)?;
        expand_target(&mut self.targets.openclaw, home)?;
        Ok(())
    }
}

} // verus!
