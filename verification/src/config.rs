//! The configuration as the launcher reads it, and the aliases of the providers.

use crate::model::pair_views;
use crate::rank::text_of;
use crate::search::{alias_target, alias_target_of};
use crate::text::{
    ascii_lowercase, chars_of, string_of, strip_start, strip_start_chars, to_ascii_lowercase,
    trim_chars, trimmed, CharClass,
};
use vstd::prelude::*;
use vstd::string::StringExecFns;

verus! {

#[derive(Debug, Clone)]
pub struct LoadedConfig {
    pub config: Config,
    pub path: Option<String>,
}

#[derive(Debug, Clone)]
pub struct Config {
    pub providers: ProvidersConfig,
    pub ranking: RankingConfig,
    pub commands: Vec<CommandConfig>,
}

#[derive(Debug, Clone)]
pub struct ProvidersConfig {
    pub config: ConfigProviderConfig,
    pub artisan: ArtisanProviderConfig,
    pub composer: ComposerProviderConfig,
    pub justfile: JustfileProviderConfig,
}

#[derive(Debug, Clone)]
pub struct RankingConfig {
    pub usage_enabled: bool,
    pub usage_weight: i64,
}

#[derive(Debug, Clone)]
pub struct ConfigProviderConfig {
    pub enabled: bool,
    pub alias: Option<String>,
}

#[derive(Debug, Clone)]
pub struct ArtisanProviderConfig {
    pub enabled: bool,
    pub alias: Option<String>,
}

#[derive(Debug, Clone)]
pub struct ComposerProviderConfig {
    pub enabled: bool,
    pub alias: Option<String>,
}

#[derive(Debug, Clone)]
pub struct JustfileProviderConfig {
    pub enabled: bool,
    pub path: String,
    pub options: Vec<String>,
    pub alias: Option<String>,
}

#[derive(Debug, Clone)]
pub struct CommandConfig {
    pub name: String,
    pub run: String,
    pub description: Option<String>,
    pub scopes: Vec<String>,
    pub params: Vec<ParamConfig>,
    pub working_dir: Option<String>,
}

#[derive(Debug, Clone, Copy, PartialEq, Eq)]
pub enum ParamTypeConfig {
    Value,
    Flag,
}

#[derive(Debug, Clone)]
pub enum ParamLiteralConfig {
    String(String),
    Bool(bool),
}

#[derive(Debug, Clone)]
pub struct ParamConfig {
    pub name: String,
    pub kind: ParamTypeConfig,
    pub prompt: Option<String>,
    pub placeholder: Option<String>,
    pub default: Option<ParamLiteralConfig>,
    pub value: Option<ParamLiteralConfig>,
    pub required: bool,
}

/// The weight of one recorded run where the configuration sets none.
pub const DEFAULT_USAGE_WEIGHT: i64 = 8000;

/// The default of a setting that is on unless switched off.
pub fn default_true() -> (r: bool)
    ensures
        r,
{
    true
}

/// The default of a setting that is off unless switched on.
pub fn default_false() -> (r: bool)
    ensures
        !r,
{
    false
}

/// The weight of one recorded run where none is set.
pub fn default_usage_weight() -> (r: i64)
    ensures
        r == DEFAULT_USAGE_WEIGHT,
{
    DEFAULT_USAGE_WEIGHT
}

/// The name of the justfile where none is set.
pub fn default_justfile_path() -> (r: String)
    ensures
        r@ == "justfile"@,
{
    "justfile".to_owned()
}

impl Default for RankingConfig {
    fn default() -> (r: Self)
        ensures
            r.usage_enabled,
            r.usage_weight == DEFAULT_USAGE_WEIGHT,
    {
        RankingConfig { usage_enabled: true, usage_weight: default_usage_weight() }
    }
}

impl Default for ConfigProviderConfig {
    fn default() -> (r: Self)
        ensures
            !r.enabled,
            r.alias is None,
    {
        ConfigProviderConfig { enabled: false, alias: None }
    }
}

impl Default for ArtisanProviderConfig {
    fn default() -> (r: Self)
        ensures
            !r.enabled,
            r.alias is None,
    {
        ArtisanProviderConfig { enabled: false, alias: None }
    }
}

impl Default for ComposerProviderConfig {
    fn default() -> (r: Self)
        ensures
            !r.enabled,
            r.alias is None,
    {
        ComposerProviderConfig { enabled: false, alias: None }
    }
}

impl Default for JustfileProviderConfig {
    fn default() -> (r: Self)
        ensures
            !r.enabled,
            r.path@ == "justfile"@,
            r.options@.len() == 0,
            r.alias is None,
    {
        JustfileProviderConfig {
            enabled: false,
            path: default_justfile_path(),
            options: Vec::new(),
            alias: None,
        }
    }
}

impl Default for ProvidersConfig {
    fn default() -> (r: Self)
        ensures
            !r.config.enabled && r.config.alias is None,
            !r.artisan.enabled && r.artisan.alias is None,
            !r.composer.enabled && r.composer.alias is None,
            !r.justfile.enabled && r.justfile.alias is None,
            r.justfile.path@ == "justfile"@,
            r.justfile.options@.len() == 0,
    {
        ProvidersConfig {
            config: ConfigProviderConfig { enabled: false, alias: None },
            artisan: ArtisanProviderConfig { enabled: false, alias: None },
            composer: ComposerProviderConfig { enabled: false, alias: None },
            justfile: JustfileProviderConfig {
                enabled: false,
                path: default_justfile_path(),
                options: Vec::new(),
                alias: None,
            },
        }
    }
}

impl Default for Config {
    fn default() -> (r: Self)
        ensures
            r.commands@.len() == 0,
            r.ranking.usage_enabled,
            r.ranking.usage_weight == DEFAULT_USAGE_WEIGHT,
            !r.providers.config.enabled && r.providers.config.alias is None,
            !r.providers.artisan.enabled && r.providers.artisan.alias is None,
            !r.providers.composer.enabled && r.providers.composer.alias is None,
            !r.providers.justfile.enabled && r.providers.justfile.alias is None,
    {
        Config {
            providers: ProvidersConfig {
                config: ConfigProviderConfig { enabled: false, alias: None },
                artisan: ArtisanProviderConfig { enabled: false, alias: None },
                composer: ComposerProviderConfig { enabled: false, alias: None },
                justfile: JustfileProviderConfig {
                    enabled: false,
                    path: default_justfile_path(),
                    options: Vec::new(),
                    alias: None,
                },
            },
            ranking: RankingConfig { usage_enabled: true, usage_weight: default_usage_weight() },
            commands: Vec::new(),
        }
    }
}

/// The names under which a configuration file is looked for in the working
/// directory, in this order.
pub fn local_config_names() -> (names: Vec<&'static str>)
    ensures
        names@.len() == 2,
        names@[0]@ == "fzc.toml"@,
        names@[1]@ == ".fzc.toml"@,
{
    let mut names: Vec<&'static str> = Vec::new();
    names.push("fzc.toml");
    names.push(".fzc.toml");
    names
}

/// The configuration in force: that of the first file that was found,
/// with its path, or the defaults without a path.
pub fn load(found: Option<(String, Config)>) -> (loaded: LoadedConfig)
    ensures
        match found {
            Some((path, config)) => loaded.config == config && loaded.path == Some(path),
            None => loaded.path is None && loaded.config.commands@.len() == 0
                && loaded.config.ranking.usage_enabled && loaded.config.ranking.usage_weight
                == DEFAULT_USAGE_WEIGHT && !loaded.config.providers.config.enabled
                && !loaded.config.providers.artisan.enabled
                && !loaded.config.providers.composer.enabled
                && !loaded.config.providers.justfile.enabled,
        },
{
    match found {
        Some((path, config)) => LoadedConfig { config, path: Some(path) },
        None => LoadedConfig { config: Config::default(), path: None },
    }
}

// ---------------------------------------------------------------------------
// Aliases
// ---------------------------------------------------------------------------

/// Why the aliases of a configuration are refused.
#[derive(Debug, Clone)]
pub enum AliasError {
    /// The alias of this provider has no character left once it is cleaned.
    Empty { provider: String },
    /// Two providers have the same alias.
    Duplicate { alias: String, existing: String, provider: String },
}

/// An alias error as plain values.
pub enum AliasErrorView {
    Empty { provider: Seq<char> },
    Duplicate { alias: Seq<char>, existing: Seq<char>, provider: Seq<char> },
}

impl AliasError {
    pub open spec fn view(self) -> AliasErrorView {
        match self {
            AliasError::Empty { provider } => AliasErrorView::Empty { provider: provider@ },
            AliasError::Duplicate { alias, existing, provider } => AliasErrorView::Duplicate {
                alias: alias@,
                existing: existing@,
                provider: provider@,
            },
        }
    }

    /// The error in words.
    pub open spec fn text(self) -> Seq<char> {
        match self {
            AliasError::Empty { provider } => "provider alias for '"@ + provider@
                + "' cannot be empty"@,
            AliasError::Duplicate { alias, existing, provider } => "provider alias ':"@ + alias@
                + "' is duplicated between '"@ + existing@ + "' and '"@ + provider@ + "'"@,
        }
    }

    /// The error in words.
    pub fn message(&self) -> (out: String)
        ensures
            out@ == self.text(),
    {
        match self {
            AliasError::Empty { provider } => {
                let mut out = "provider alias for '".to_owned();
                out.append(provider.as_str());
                out.append("' cannot be empty");
                out
            },
            AliasError::Duplicate { alias, existing, provider } => {
                let mut out = "provider alias ':".to_owned();
                out.append(alias.as_str());
                out.append("' is duplicated between '");
                out.append(existing.as_str());
                out.append("' and '");
                out.append(provider.as_str());
                out.append("'");
                out
            },
        }
    }
}

/// An alias as it is compared: trimmed, without leading colons, in ASCII
/// lowercase.
pub open spec fn normalized_alias(alias: Seq<char>) -> Seq<char> {
    ascii_lowercase(strip_start(trimmed(alias), CharClass::Is(':')))
}

/// The provider that an alias stands for in a list of plain values.
pub open spec fn target_in(pairs: Seq<(Seq<char>, Seq<char>)>, alias: Seq<char>) -> Option<Seq<char>>
    decreases pairs.len(),
{
    if pairs.len() == 0 {
        None
    } else if pairs[0].0 == alias {
        Some(pairs[0].1)
    } else {
        target_in(pairs.drop_first(), alias)
    }
}

/// Looking an alias up gives the same in a list and in its plain values.
pub proof fn lemma_target_in_views(aliases: Seq<(String, String)>, alias: Seq<char>)
    ensures
        alias_target(aliases, alias) == target_in(pair_views(aliases), alias),
    decreases aliases.len(),
{
    if aliases.len() > 0 {
        assert(pair_views(aliases)[0] == (aliases[0].0@, aliases[0].1@));
        assert(pair_views(aliases).drop_first() =~= pair_views(aliases.drop_first()));
        lemma_target_in_views(aliases.drop_first(), alias);
    }
}

/// The aliases after the alias of one more provider, or the error that
/// refuses it: an alias that is empty once cleaned, or one that is in use.
pub open spec fn alias_added(
    aliases: Seq<(Seq<char>, Seq<char>)>,
    provider: Seq<char>,
    alias: Option<Seq<char>>,
) -> Result<Seq<(Seq<char>, Seq<char>)>, AliasErrorView> {
    match alias {
        None => Ok(aliases),
        Some(a) => {
            let clean = normalized_alias(a);
            if clean.len() == 0 {
                Err(AliasErrorView::Empty { provider })
            } else {
                match target_in(aliases, clean) {
                    Some(existing) => Err(
                        AliasErrorView::Duplicate { alias: clean, existing, provider },
                    ),
                    None => Ok(aliases.push((clean, provider))),
                }
            }
        },
    }
}

/// `alias_added` behind a step that may have failed already.
pub open spec fn alias_then(
    so_far: Result<Seq<(Seq<char>, Seq<char>)>, AliasErrorView>,
    provider: Seq<char>,
    alias: Option<Seq<char>>,
) -> Result<Seq<(Seq<char>, Seq<char>)>, AliasErrorView> {
    match so_far {
        Ok(aliases) => alias_added(aliases, provider, alias),
        Err(e) => Err(e),
    }
}

/// The aliases of a configuration: those of config, artisan, composer and
/// justfile, added in this order, or the first error.
pub open spec fn alias_table(providers: ProvidersConfig) -> Result<
    Seq<(Seq<char>, Seq<char>)>,
    AliasErrorView,
> {
    alias_then(
        alias_then(
            alias_then(
                alias_added(Seq::empty(), "config"@, text_of(providers.config.alias)),
                "artisan"@,
                text_of(providers.artisan.alias),
            ),
            "composer"@,
            text_of(providers.composer.alias),
        ),
        "justfile"@,
        text_of(providers.justfile.alias),
    )
}

/// Adds the alias of a provider, where it has one.
pub fn insert_alias(aliases: &mut Vec<(String, String)>, provider_name: &str, alias: &Option<String>) -> (r:
    Result<(), AliasError>)
    ensures
        match alias_added(pair_views(old(aliases)@), provider_name@, text_of(*alias)) {
            Ok(after) => r is Ok && pair_views(final(aliases)@) == after,
            Err(error) => r matches Err(e) && e.view() == error && final(aliases)@ == old(aliases)@,
        },
{
    let raw = match alias {
        Some(a) => chars_of(a.as_str()),
        None => {
            return Ok(());
        },
    };
    let inner = trim_chars(&raw);
    let bare = strip_start_chars(&inner, CharClass::Is(':'));
    let clean = to_ascii_lowercase(&bare);
    if clean.len() == 0 {
        return Err(AliasError::Empty { provider: provider_name.to_owned() });
    }
    proof {
        lemma_target_in_views(aliases@, clean@);
    }
    match alias_target_of(aliases, &clean) {
        Some(existing) => {
            return Err(
                AliasError::Duplicate {
                    alias: string_of(&clean),
                    existing: string_of(&existing),
                    provider: provider_name.to_owned(),
                },
            );
        },
        None => {},
    }
    let ghost before = pair_views(aliases@);
    aliases.push((string_of(&clean), provider_name.to_owned()));
    assert(pair_views(aliases@) =~= before.push((clean@, provider_name@)));
    Ok(())
}

impl ProvidersConfig {
    /// The aliases of the providers, each with the name of its provider, or
    /// the error that refuses the configuration.
    pub fn alias_map(&self) -> (r: Result<Vec<(String, String)>, AliasError>)
        ensures
            match r {
                Ok(aliases) => alias_table(*self) == Ok::<
                    Seq<(Seq<char>, Seq<char>)>,
                    AliasErrorView,
                >(pair_views(aliases@)),
                Err(e) => alias_table(*self) == Err::<Seq<(Seq<char>, Seq<char>)>, AliasErrorView>(
                    e.view(),
                ),
            },
    {
        let mut aliases: Vec<(String, String)> = Vec::new();
        assert(pair_views(aliases@) =~= Seq::empty());
        match insert_alias(&mut aliases, "config", &self.config.alias) {
            Err(e) => {
                return Err(e);
            },
            Ok(()) => {},
        }
        match insert_alias(&mut aliases, "artisan", &self.artisan.alias) {
            Err(e) => {
                return Err(e);
            },
            Ok(()) => {},
        }
        match insert_alias(&mut aliases, "composer", &self.composer.alias) {
            Err(e) => {
                return Err(e);
            },
            Ok(()) => {},
        }
        match insert_alias(&mut aliases, "justfile", &self.justfile.alias) {
            Err(e) => {
                return Err(e);
            },
            Ok(()) => {},
        }
        Ok(aliases)
    }
}

} // verus!
