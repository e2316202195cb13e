//! The settings of a session and how they are resolved from a git
//! configuration.
//!
//! Every setting is looked up under a key of its own. A key that is absent
//! gives the default; a value that is present but cannot be read as what the
//! key asks for is an error, never the default.

use vstd::prelude::*;
use vstd::string::StringExecFns;
use crate::store::{setting_of, text_setting_of};
use crate::text::{decimal, integer_to_string};

verus! {

/// How the picker is drawn.
#[derive(Debug, Clone, Copy, PartialEq, Eq, Structural)]
pub enum Theme {
    Colorful,
    Simple,
}

/// The settings of one session.
#[derive(Debug, Clone, Copy, PartialEq, Eq, Structural)]
pub struct Config {
    pub theme: Theme,
    pub fuzzy: bool,
    pub show_remote_branches: bool,
    pub limit: Option<usize>,
}

impl Config {
    /// A limit, where one is set, is strictly positive.
    pub open spec fn wf(&self) -> bool {
        self.limit matches Some(n) ==> n > 0
    }

    /// The settings that hold where nothing is configured.
    pub open spec fn initial() -> Config {
        Config {
            theme: Theme::Colorful,
            fuzzy: true,
            show_remote_branches: false,
            limit: Some(20usize),
        }
    }
}

impl Default for Config {
    fn default() -> (config: Config)
        ensures
            config == Config::initial(),
    {
        Config { theme: Theme::Colorful, fuzzy: true, show_remote_branches: false, limit: Some(20) }
    }
}

/// A key of the configuration.
#[derive(Debug, Clone, Copy, PartialEq, Eq, Structural)]
pub enum ConfigKey {
    Fuzzy,
    ShowRemoteBranches,
    Theme,
    Limit,
}

impl ConfigKey {
    /// The key as it is written in a git configuration.
    pub open spec fn spec_name(self) -> Seq<char> {
        match self {
            ConfigKey::Fuzzy => "select-branch.fuzzy"@,
            ConfigKey::ShowRemoteBranches => "select-branch.show-remote-branches"@,
            ConfigKey::Theme => "select-branch.theme"@,
            ConfigKey::Limit => "select-branch.limit"@,
        }
    }

    /// The key as it is written in a git configuration.
    pub fn name(&self) -> (text: &'static str)
        ensures
            text@ == self.spec_name(),
    {
        match self {
            ConfigKey::Fuzzy => "select-branch.fuzzy",
            ConfigKey::ShowRemoteBranches => "select-branch.show-remote-branches",
            ConfigKey::Theme => "select-branch.theme",
            ConfigKey::Limit => "select-branch.limit",
        }
    }
}

/// What a key's value was to be read as.
#[derive(Debug, Clone, Copy, PartialEq, Eq, Structural)]
pub enum ValueKind {
    Boolean,
    Text,
    Integer,
}

impl ValueKind {
    /// The kind as an error message calls it.
    pub open spec fn spec_name(self) -> Seq<char> {
        match self {
            ValueKind::Boolean => "boolean"@,
            ValueKind::Text => "string"@,
            ValueKind::Integer => "integer"@,
        }
    }

    /// The kind as an error message calls it.
    pub fn name(&self) -> (text: &'static str)
        ensures
            text@ == self.spec_name(),
    {
        match self {
            ValueKind::Boolean => "boolean",
            ValueKind::Text => "string",
            ValueKind::Integer => "integer",
        }
    }
}

/// Why the settings could not be resolved.
#[derive(Debug, PartialEq, Eq)]
pub enum ConfigError {
    /// The value under `key` could not be read as `kind`.
    Malformed { key: ConfigKey, kind: ValueKind, cause: String },
    /// The theme is none of the known ones.
    UnknownTheme { name: String },
    /// The limit is an integer, but not a positive one.
    InvalidLimit { value: i64 },
    /// The limit is positive, but too large to count branches with.
    LimitOutOfRange { value: i64 },
}

/// The mathematical content of a [`ConfigError`].
pub ghost enum ConfigFault {
    Malformed { key: ConfigKey, kind: ValueKind, cause: Seq<char> },
    UnknownTheme { name: Seq<char> },
    InvalidLimit { value: int },
    LimitOutOfRange { value: int },
}

impl View for ConfigError {
    type V = ConfigFault;

    open spec fn view(&self) -> ConfigFault {
        match self {
            ConfigError::Malformed { key, kind, cause } => ConfigFault::Malformed {
                key: *key,
                kind: *kind,
                cause: cause@,
            },
            ConfigError::UnknownTheme { name } => ConfigFault::UnknownTheme { name: name@ },
            ConfigError::InvalidLimit { value } => ConfigFault::InvalidLimit { value: *value as int },
            ConfigError::LimitOutOfRange { value } => ConfigFault::LimitOutOfRange {
                value: *value as int,
            },
        }
    }
}

/// What a value under `key` may be, as an error message says it.
pub open spec fn accepted_forms(key: ConfigKey) -> Seq<char> {
    match key {
        ConfigKey::Fuzzy => "The value must be either \"true\" or \"false\"."@,
        ConfigKey::ShowRemoteBranches => "The value must be either \"true\" or \"false\"."@,
        ConfigKey::Theme => "The value must be either \"colorful\" or \"simple\"."@,
        ConfigKey::Limit => "The value must be either a positive integer, or \"none\". e.g.:\n> git config --global select-branch.limit none\nor\n> git config --global select-branch.limit 20"@,
    }
}

/// The message that rejects `value` under `key`.
pub open spec fn rejection(value: Seq<char>, key: ConfigKey) -> Seq<char> {
    "\""@ + value + "\" is not a valid \""@ + key.spec_name() + "\" value.\n"@ + accepted_forms(
        key,
    )
}

/// `text` holds `part` as a run of consecutive characters.
pub open spec fn mentions(text: Seq<char>, part: Seq<char>) -> bool {
    exists|from: int, to: int|
        0 <= from <= to <= text.len() && #[trigger] text.subrange(from, to) == part
}

/// `text` ends in `part`.
pub open spec fn ends_in(text: Seq<char>, part: Seq<char>) -> bool {
    part.len() <= text.len() && text.subrange(text.len() - part.len(), text.len() as int) == part
}

impl ConfigFault {
    /// The key whose value is at fault.
    pub open spec fn key(self) -> ConfigKey {
        match self {
            ConfigFault::Malformed { key, .. } => key,
            ConfigFault::UnknownTheme { .. } => ConfigKey::Theme,
            ConfigFault::InvalidLimit { .. } => ConfigKey::Limit,
            ConfigFault::LimitOutOfRange { .. } => ConfigKey::Limit,
        }
    }

    /// The text that describes the fault: what is wrong, under which key,
    /// and what a value under that key may be.
    pub open spec fn message(self) -> Seq<char> {
        match self {
            ConfigFault::Malformed { key, kind, cause } => "Error parsing "@ + kind.spec_name()
                + " value in "@ + key.spec_name() + ": "@ + cause + "\n"@ + accepted_forms(key),
            ConfigFault::UnknownTheme { name } => rejection(name, ConfigKey::Theme),
            ConfigFault::InvalidLimit { value } => rejection(decimal(value), ConfigKey::Limit),
            ConfigFault::LimitOutOfRange { value } => "Can't convert "@ + decimal(value)
                + " to usize: "@ + rejection(decimal(value), ConfigKey::Limit),
        }
    }
}

/// The message of every fault names the key at fault and ends in the forms
/// that a value under that key may take.
pub proof fn lemma_message_names_key_and_forms(fault: ConfigFault)
    ensures
        mentions(fault.message(), fault.key().spec_name()),
        ends_in(fault.message(), accepted_forms(fault.key())),
{
    let text = fault.message();
    let key = fault.key().spec_name();
    let forms = accepted_forms(fault.key());
    let before: Seq<char> = match fault {
        ConfigFault::Malformed { key, kind, cause } => "Error parsing "@ + kind.spec_name()
            + " value in "@,
        ConfigFault::UnknownTheme { name } => "\""@ + name + "\" is not a valid \""@,
        ConfigFault::InvalidLimit { value } => "\""@ + decimal(value) + "\" is not a valid \""@,
        ConfigFault::LimitOutOfRange { value } => "Can't convert "@ + decimal(value)
            + " to usize: "@ + ("\""@ + decimal(value) + "\" is not a valid \""@),
    };
    let between: Seq<char> = match fault {
        ConfigFault::Malformed { key, kind, cause } => ": "@ + cause + "\n"@,
        _ => "\" value.\n"@,
    };
    assert(text =~= before + key + between + forms);
    assert(text.subrange(before.len() as int, (before.len() + key.len()) as int) =~= key);
    assert(text.subrange(text.len() - forms.len(), text.len() as int) =~= forms);
}

/// The message of every fault holds the text that was found at fault: the
/// name that is no theme, the number that is no limit, or what the store
/// said of a value that it could not read.
pub proof fn lemma_message_names_value(fault: ConfigFault)
    ensures
        match fault {
            ConfigFault::Malformed { cause, .. } => mentions(fault.message(), cause),
            ConfigFault::UnknownTheme { name } => mentions(fault.message(), name),
            ConfigFault::InvalidLimit { value } => mentions(fault.message(), decimal(value)),
            ConfigFault::LimitOutOfRange { value } => mentions(fault.message(), decimal(value)),
        },
{
    let text = fault.message();
    let before: Seq<char> = match fault {
        ConfigFault::Malformed { key, kind, cause } => "Error parsing "@ + kind.spec_name()
            + " value in "@ + key.spec_name() + ": "@,
        ConfigFault::LimitOutOfRange { value } => "Can't convert "@,
        _ => "\""@,
    };
    let value: Seq<char> = match fault {
        ConfigFault::Malformed { cause, .. } => cause,
        ConfigFault::UnknownTheme { name } => name,
        ConfigFault::InvalidLimit { value } => decimal(value),
        ConfigFault::LimitOutOfRange { value } => decimal(value),
    };
    let after: Seq<char> = match fault {
        ConfigFault::Malformed { key, .. } => "\n"@ + accepted_forms(key),
        ConfigFault::LimitOutOfRange { value } => " to usize: "@ + rejection(
            decimal(value),
            ConfigKey::Limit,
        ),
        _ => "\" is not a valid \""@ + fault.key().spec_name() + "\" value.\n"@ + accepted_forms(
            fault.key(),
        ),
    };
    assert(text =~= before + value + after);
    assert(text.subrange(before.len() as int, (before.len() + value.len()) as int) =~= value);
}

fn accepted_forms_text(key: ConfigKey) -> (text: &'static str)
    ensures
        text@ == accepted_forms(key),
{
    match key {
        ConfigKey::Fuzzy => "The value must be either \"true\" or \"false\".",
        ConfigKey::ShowRemoteBranches => "The value must be either \"true\" or \"false\".",
        ConfigKey::Theme => "The value must be either \"colorful\" or \"simple\".",
        ConfigKey::Limit => "The value must be either a positive integer, or \"none\". e.g.:\n> git config --global select-branch.limit none\nor\n> git config --global select-branch.limit 20",
    }
}

fn rejection_text(value: &str, key: ConfigKey) -> (text: String)
    ensures
        text@ == rejection(value@, key),
{
    String::from_str("\"").concat(value).concat("\" is not a valid \"").concat(key.name()).concat(
        "\" value.\n",
    ).concat(accepted_forms_text(key))
}

impl ConfigError {
    /// The text that describes the error: what is wrong, under which key,
    /// and what a value under that key may be.
    pub fn message(&self) -> (text: String)
        ensures
            text@ == self@.message(),
    {
        match self {
            ConfigError::Malformed { key, kind, cause } => String::from_str("Error parsing ").concat(
                kind.name(),
            ).concat(" value in ").concat(key.name()).concat(": ").concat(cause.as_str()).concat(
                "\n",
            ).concat(accepted_forms_text(*key)),
            ConfigError::UnknownTheme { name } => rejection_text(name.as_str(), ConfigKey::Theme),
            ConfigError::InvalidLimit { value } => rejection_text(
                integer_to_string(*value).as_str(),
                ConfigKey::Limit,
            ),
            ConfigError::LimitOutOfRange { value } => {
                let number = integer_to_string(*value);
                String::from_str("Can't convert ").concat(number.as_str()).concat(
                    " to usize: ",
                ).concat(rejection_text(number.as_str(), ConfigKey::Limit).as_str())
            },
        }
    }
}

/// The outcome of looking one key up.
#[derive(Debug, PartialEq, Eq)]
pub enum Setting<T> {
    /// The key is not configured.
    Absent,
    /// The key is configured and its value could be read.
    Present(T),
    /// The key is configured, but its value could not be read; the text says why.
    Malformed(String),
}

/// The mathematical content of a [`Setting`].
pub ghost enum Lookup<V> {
    Absent,
    Present(V),
    Malformed(Seq<char>),
}

impl<T: View> View for Setting<T> {
    type V = Lookup<T::V>;

    open spec fn view(&self) -> Lookup<T::V> {
        match self {
            Setting::Absent => Lookup::Absent,
            Setting::Present(value) => Lookup::Present(value@),
            Setting::Malformed(cause) => Lookup::Malformed(cause@),
        }
    }
}

/// The theme that goes by `name`, if there is one.
pub open spec fn theme_named(name: Seq<char>) -> Option<Theme> {
    if name == "colorful"@ {
        Some(Theme::Colorful)
    } else if name == "simple"@ {
        Some(Theme::Simple)
    } else {
        None
    }
}

/// The value of a setting that has a default.
pub open spec fn settled<V>(
    lookup: Lookup<V>,
    key: ConfigKey,
    kind: ValueKind,
    default: V,
) -> Result<V, ConfigFault> {
    match lookup {
        Lookup::Absent => Ok(default),
        Lookup::Present(value) => Ok(value),
        Lookup::Malformed(cause) => Err(ConfigFault::Malformed { key, kind, cause }),
    }
}

/// The theme that a lookup of the theme key gives.
pub open spec fn settled_theme(lookup: Lookup<Seq<char>>) -> Result<Theme, ConfigFault> {
    match lookup {
        Lookup::Absent => Ok(Theme::Colorful),
        Lookup::Present(name) => match theme_named(name) {
            Some(theme) => Ok(theme),
            None => Err(ConfigFault::UnknownTheme { name }),
        },
        Lookup::Malformed(cause) => Err(
            ConfigFault::Malformed { key: ConfigKey::Theme, kind: ValueKind::Text, cause },
        ),
    }
}

/// The limit that the two readings of the limit key give: as a text, which
/// may be the word `none`, and as an integer.
pub open spec fn settled_limit(text: Lookup<Seq<char>>, number: Lookup<i64>) -> Result<
    Option<usize>,
    ConfigFault,
> {
    match text {
        Lookup::Malformed(cause) => Err(
            ConfigFault::Malformed { key: ConfigKey::Limit, kind: ValueKind::Text, cause },
        ),
        Lookup::Present(word) if word == "none"@ => Ok(None),
        _ => match number {
            Lookup::Malformed(cause) => Err(
                ConfigFault::Malformed { key: ConfigKey::Limit, kind: ValueKind::Integer, cause },
            ),
            Lookup::Absent => Ok(Some(20usize)),
            Lookup::Present(n) => if n <= 0 {
                Err(ConfigFault::InvalidLimit { value: n as int })
            } else if n > usize::MAX {
                Err(ConfigFault::LimitOutOfRange { value: n as int })
            } else {
                Ok(Some(n as usize))
            },
        },
    }
}

/// The settings that five lookups give, or the first fault among them, in
/// the order fuzzy matching, remote branches, theme, limit.
pub open spec fn resolved(
    fuzzy: Lookup<bool>,
    show_remote_branches: Lookup<bool>,
    theme: Lookup<Seq<char>>,
    limit_text: Lookup<Seq<char>>,
    limit_number: Lookup<i64>,
) -> Result<Config, ConfigFault> {
    match settled(fuzzy, ConfigKey::Fuzzy, ValueKind::Boolean, true) {
        Err(fault) => Err(fault),
        Ok(fuzzy) => match settled(
            show_remote_branches,
            ConfigKey::ShowRemoteBranches,
            ValueKind::Boolean,
            false,
        ) {
            Err(fault) => Err(fault),
            Ok(show_remote_branches) => match settled_theme(theme) {
                Err(fault) => Err(fault),
                Ok(theme) => match settled_limit(limit_text, limit_number) {
                    Err(fault) => Err(fault),
                    Ok(limit) => Ok(Config { theme, fuzzy, show_remote_branches, limit }),
                },
            },
        },
    }
}

/// A result with the error replaced by its mathematical content.
pub open spec fn fault_view<T>(outcome: Result<T, ConfigError>) -> Result<T, ConfigFault> {
    match outcome {
        Ok(value) => Ok(value),
        Err(error) => Err(error@),
    }
}

/// Whether two texts hold the same characters.
fn same_text(a: &str, b: &str) -> (same: bool)
    ensures
        same == (a@ == b@),
{
    String::from_str(a) == String::from_str(b)
}

/// The theme that goes by `theme_name`.
pub fn match_theme_config(theme_name: &str) -> (r: Result<Theme, ConfigError>)
    ensures
        fault_view(r) == settled_theme(Lookup::Present(theme_name@)),
{
    if same_text(theme_name, "colorful") {
        Ok(Theme::Colorful)
    } else if same_text(theme_name, "simple") {
        Ok(Theme::Simple)
    } else {
        Err(ConfigError::UnknownTheme { name: String::from_str(theme_name) })
    }
}

fn settle_flag(setting: Setting<bool>, key: ConfigKey, default: bool) -> (r: Result<
    bool,
    ConfigError,
>)
    ensures
        fault_view(r) == settled(setting@, key, ValueKind::Boolean, default),
{
    match setting {
        Setting::Absent => Ok(default),
        Setting::Present(value) => Ok(value),
        Setting::Malformed(cause) => Err(
            ConfigError::Malformed { key, kind: ValueKind::Boolean, cause },
        ),
    }
}

fn settle_theme(setting: Setting<String>) -> (r: Result<Theme, ConfigError>)
    ensures
        fault_view(r) == settled_theme(setting@),
{
    match setting {
        Setting::Absent => Ok(Theme::Colorful),
        Setting::Present(name) => match_theme_config(name.as_str()),
        Setting::Malformed(cause) => Err(
            ConfigError::Malformed { key: ConfigKey::Theme, kind: ValueKind::Text, cause },
        ),
    }
}

fn settle_limit(text: Setting<String>, number: Setting<i64>) -> (r: Result<
    Option<usize>,
    ConfigError,
>)
    ensures
        fault_view(r) == settled_limit(text@, number@),
{
    let unlimited = match text {
        Setting::Malformed(cause) => {
            return Err(
                ConfigError::Malformed { key: ConfigKey::Limit, kind: ValueKind::Text, cause },
            );
        },
        Setting::Present(word) => same_text(word.as_str(), "none"),
        Setting::Absent => false,
    };
    if unlimited {
        return Ok(None);
    }
    match number {
        Setting::Malformed(cause) => Err(
            ConfigError::Malformed { key: ConfigKey::Limit, kind: ValueKind::Integer, cause },
        ),
        Setting::Absent => Ok(Some(20)),
        Setting::Present(limit) => {
            if limit <= 0 {
                Err(ConfigError::InvalidLimit { value: limit })
            } else if limit as u64 > usize::MAX as u64 {
                Err(ConfigError::LimitOutOfRange { value: limit })
            } else {
                Ok(Some(limit as usize))
            }
        },
    }
}

impl Config {
    /// Reads the settings from a snapshot of a git configuration: looks up
    /// the four keys, the limit both as a text and as an integer, and
    /// resolves what came back with [`Config::resolve`].
    ///
    /// What the store answers is not known here, so the contract says what
    /// holds of every answer: the outcome is the resolution of some five
    /// lookups, and a limit that comes out is positive.
    pub fn from_git_config(git_config: &git2::Config) -> (r: Result<Config, ConfigError>)
        ensures
            exists|
                fuzzy: Lookup<bool>,
                show_remote_branches: Lookup<bool>,
                theme: Lookup<Seq<char>>,
                limit_text: Lookup<Seq<char>>,
                limit_number: Lookup<i64>,
            |
                fault_view(r) == #[trigger] resolved(
                    fuzzy,
                    show_remote_branches,
                    theme,
                    limit_text,
                    limit_number,
                ),
            r matches Ok(config) ==> config.wf(),
    {
        let fuzzy = setting_of(git_config.get_bool(ConfigKey::Fuzzy.name()));
        let show_remote_branches = setting_of(
            git_config.get_bool(ConfigKey::ShowRemoteBranches.name()),
        );
        let theme = text_setting_of(git_config.get_str(ConfigKey::Theme.name()));
        let limit_text = text_setting_of(git_config.get_str(ConfigKey::Limit.name()));
        let limit_number = setting_of(git_config.get_i64(ConfigKey::Limit.name()));
        let ghost witness = resolved(
            fuzzy@,
            show_remote_branches@,
            theme@,
            limit_text@,
            limit_number@,
        );
        let r = Config::resolve(fuzzy, show_remote_branches, theme, limit_text, limit_number);
        assert(fault_view(r) == witness);
        r
    }

    /// Resolves the settings from the outcomes of the five lookups. The first
    /// fault, in the order fuzzy matching, remote branches, theme, limit, is
    /// the error; without one, each key that is absent has its default.
    pub fn resolve(
        fuzzy: Setting<bool>,
        show_remote_branches: Setting<bool>,
        theme: Setting<String>,
        limit_text: Setting<String>,
        limit_number: Setting<i64>,
    ) -> (r: Result<Config, ConfigError>)
        ensures
            fault_view(r) == resolved(
                fuzzy@,
                show_remote_branches@,
                theme@,
                limit_text@,
                limit_number@,
            ),
            r matches Ok(config) ==> config.wf(),
    {
        let fuzzy = match settle_flag(fuzzy, ConfigKey::Fuzzy, true) {
            Ok(value) => value,
            Err(error) => { return Err(error); },
        };
        let show_remote_branches = match settle_flag(
            show_remote_branches,
            ConfigKey::ShowRemoteBranches,
            false,
        ) {
            Ok(value) => value,
            Err(error) => { return Err(error); },
        };
        let theme = match settle_theme(theme) {
            Ok(value) => value,
            Err(error) => { return Err(error); },
        };
        let limit = match settle_limit(limit_text, limit_number) {
            Ok(value) => value,
            Err(error) => { return Err(error); },
        };
        Ok(Config { theme, fuzzy, show_remote_branches, limit })
    }
}

} // verus!
