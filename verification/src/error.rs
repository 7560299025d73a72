//! Errors raised while reading, checking and using the server configuration.
use vstd::prelude::*;
use vstd::string::StringExecFns;

verus! {

/// What can go wrong with the configuration or with a path it names.
#[derive(Debug, Clone)]
pub enum ConfigError {
    /// The file defines no `[[servers]]` entry.
    NoServers,
    /// A server's name is blank.
    EmptyServerName,
    /// The named server has a blank host.
    MissingHost { name: String },
    /// The named server has a blank user.
    MissingUser { name: String },
    /// The named server has a password made only of whitespace.
    EmptyPassword { name: String },
    /// The named server has an alias that is blank once normalized.
    EmptyAlias { name: String },
    /// A name or alias that another entry already claims.
    DuplicateName { candidate: String },
    /// No server answers to the query.
    ServerNotFound { query: String },
    /// The home directory is unknown, so the default path cannot be built.
    HomeDirUnavailable,
    /// The home directory is unknown, so a leading `~` cannot be expanded.
    TildeUnexpanded,
    /// A configuration path, given by `source`, names no file.
    MissingFile { source: String, path: String },
}

/// The mathematical model of a [`ConfigError`]: strings become character sequences.
pub enum ConfigErrorModel {
    NoServers,
    EmptyServerName,
    MissingHost(Seq<char>),
    MissingUser(Seq<char>),
    EmptyPassword(Seq<char>),
    EmptyAlias(Seq<char>),
    DuplicateName(Seq<char>),
    ServerNotFound(Seq<char>),
    HomeDirUnavailable,
    TildeUnexpanded,
    MissingFile(Seq<char>, Seq<char>),
}

impl View for ConfigError {
    type V = ConfigErrorModel;

    open spec fn view(&self) -> ConfigErrorModel {
        match self {
            ConfigError::NoServers => ConfigErrorModel::NoServers,
            ConfigError::EmptyServerName => ConfigErrorModel::EmptyServerName,
            ConfigError::MissingHost { name } => ConfigErrorModel::MissingHost(name@),
            ConfigError::MissingUser { name } => ConfigErrorModel::MissingUser(name@),
            ConfigError::EmptyPassword { name } => ConfigErrorModel::EmptyPassword(name@),
            ConfigError::EmptyAlias { name } => ConfigErrorModel::EmptyAlias(name@),
            ConfigError::DuplicateName { candidate } => ConfigErrorModel::DuplicateName(candidate@),
            ConfigError::ServerNotFound { query } => ConfigErrorModel::ServerNotFound(query@),
            ConfigError::HomeDirUnavailable => ConfigErrorModel::HomeDirUnavailable,
            ConfigError::TildeUnexpanded => ConfigErrorModel::TildeUnexpanded,
            ConfigError::MissingFile { source, path } => ConfigErrorModel::MissingFile(
                source@,
                path@,
            ),
        }
    }
}

/// The model of a result that carries a string.
pub open spec fn string_result(r: Result<String, ConfigError>) -> Result<Seq<char>, ConfigErrorModel> {
    match r {
        Ok(v) => Ok(v@),
        Err(e) => Err(e@),
    }
}

/// The text shown to the user for an error.
pub open spec fn config_error_message(e: ConfigErrorModel) -> Seq<char> {
    match e {
        ConfigErrorModel::NoServers => "config does not define any [[servers]] entries"@,
        ConfigErrorModel::EmptyServerName => "server name cannot be empty"@,
        ConfigErrorModel::MissingHost(name) => "server `"@ + name + "` is missing host"@,
        ConfigErrorModel::MissingUser(name) => "server `"@ + name + "` is missing user"@,
        ConfigErrorModel::EmptyPassword(name) => "server `"@ + name
            + "` contains an empty password"@,
        ConfigErrorModel::EmptyAlias(name) => "server `"@ + name + "` contains an empty alias"@,
        ConfigErrorModel::DuplicateName(c) => "duplicate server name or alias `"@ + c + "`"@,
        ConfigErrorModel::ServerNotFound(q) => "server `"@ + q + "` not found"@,
        ConfigErrorModel::HomeDirUnavailable => "could not determine the home directory"@,
        ConfigErrorModel::TildeUnexpanded => "could not expand `~` to the home directory"@,
        ConfigErrorModel::MissingFile(source, path) => source + " points to a missing file: "@
            + path,
    }
}

/// `"prefix" + middle + "suffix"` as a fresh string.
pub fn surround(prefix: &str, middle: &str, suffix: &str) -> (r: String)
    ensures
        r@ == prefix@ + middle@ + suffix@,
{
    let mut out = String::from_str(prefix);
    out.append(middle);
    out.append(suffix);
    out
}

impl ConfigError {
    /// The message shown to the user.
    pub fn message(&self) -> (r: String)
        ensures
            r@ == config_error_message(self@),
    {
        match self {
            ConfigError::NoServers => String::from_str(
                "config does not define any [[servers]] entries",
            ),
            ConfigError::EmptyServerName => String::from_str("server name cannot be empty"),
            ConfigError::MissingHost { name } => surround(
                "server `",
                name.as_str(),
                "` is missing host",
            ),
            ConfigError::MissingUser { name } => surround(
                "server `",
                name.as_str(),
                "` is missing user",
            ),
            ConfigError::EmptyPassword { name } => surround(
                "server `",
                name.as_str(),
                "` contains an empty password",
            ),
            ConfigError::EmptyAlias { name } => surround(
                "server `",
                name.as_str(),
                "` contains an empty alias",
            ),
            ConfigError::DuplicateName { candidate } => surround(
                "duplicate server name or alias `",
                candidate.as_str(),
                "`",
            ),
            ConfigError::ServerNotFound { query } => surround(
                "server `",
                query.as_str(),
                "` not found",
            ),
            ConfigError::HomeDirUnavailable => String::from_str(
                "could not determine the home directory",
            ),
            ConfigError::TildeUnexpanded => String::from_str(
                "could not expand `~` to the home directory",
            ),
            ConfigError::MissingFile { source, path } => surround(
                source.as_str(),
                " points to a missing file: ",
                path.as_str(),
            ),
        }
    }
}

} // verus!
