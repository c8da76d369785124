//! Where the settings live and what they hold.

use vstd::prelude::*;
use vstd::string::StringExecFns;
use crate::text::{join_path, join_spec};

verus! {

/// The application's fixed configuration: where its settings file is.
#[derive(Debug)]
pub struct Configuration {
    pub settings_file_path: String,
}

#[derive(Debug, Clone, Copy, PartialEq, Eq, Structural)]
pub enum ConfigurationError {
    /// Neither an override nor a platform settings directory is known.
    SettingsPathResolution,
}

/// The user's settings: where session directories are made.
#[derive(Debug)]
pub struct Settings {
    pub session_base_dir: String,
}

/// The settings file's name inside the settings directory.
pub open spec fn settings_file_text() -> Seq<char> {
    seq!['h', 'a', 'm', 's', 'h', 'a', 'r', 'k', '.', 't', 'o', 'm', 'l']
}

/// The directory under the user's documents that holds sessions.
pub open spec fn application_text() -> Seq<char> {
    seq!['H', 'a', 'm', 's', 'h', 'a', 'r', 'k']
}

/// Relies on `directories::ProjectDirs::from` and `ProjectDirs::config_dir`:
/// the platform's configuration directory for the named application, where
/// the platform has one and its path is UTF-8.
#[verifier::external_body]
fn platform_config_dir(qualifier: &str, organization: &str, application: &str) -> (r: Option<
    String,
>) {
    match directories::ProjectDirs::from(qualifier, organization, application) {
        Some(dirs) => dirs.config_dir().to_str().map(String::from),
        None => None,
    }
}

impl Configuration {
    /// The settings file inside the override directory when one is given,
    /// else inside the platform directory; `SettingsPathResolution` when
    /// neither is known.
    pub fn from_locations(override_dir: Option<String>, platform_dir: Option<String>) -> (r: Result<
        Configuration,
        ConfigurationError,
    >)
        ensures
            r is Ok <==> (override_dir is Some || platform_dir is Some),
            r matches Ok(c) ==> c.settings_file_path@ == join_spec(
                if override_dir is Some { override_dir->0@ } else { platform_dir->0@ },
                settings_file_text(),
            ),
    {
        proof { reveal_strlit("hamshark.toml"); }
        match override_dir {
            Some(d) => Ok(Configuration { settings_file_path: join_path(d.as_str(), "hamshark.toml") }),
            None => match platform_dir {
                Some(d) => Ok(Configuration { settings_file_path: join_path(d.as_str(), "hamshark.toml") }),
                None => Err(ConfigurationError::SettingsPathResolution),
            },
        }
    }

    /// The configuration for an optional override directory (as read from
    /// the environment), falling back on the platform's configuration
    /// directory.
    pub fn resolve(override_dir: Option<String>) -> (r: Result<Configuration, ConfigurationError>)
        ensures
            override_dir matches Some(d) ==> (r matches Ok(c) && c.settings_file_path@ == join_spec(
                d@,
                settings_file_text(),
            )),
            override_dir is None ==> (r matches Ok(c) ==> exists|d: Seq<char>|
                c.settings_file_path@ == join_spec(d, settings_file_text())),
    {
        match override_dir {
            Some(d) => Configuration::from_locations(Some(d), None),
            None => Configuration::from_locations(
                None,
                platform_config_dir("com", "JeffTickle", "Hamshark"),
            ),
        }
    }
}

impl Settings {
    /// `<documents>/Hamshark`, for the user's documents directory.
    pub fn determine_session_base_dir(documents: &str) -> (r: String)
        ensures
            r@ == join_spec(documents@, application_text()),
    {
        proof { reveal_strlit("Hamshark"); }
        join_path(documents, "Hamshark")
    }

    /// Settings whose sessions go under `<documents>/Hamshark`.
    pub fn from_sensible_defaults(documents: &str) -> (r: Settings)
        ensures
            r.session_base_dir@ == join_spec(documents@, application_text()),
    {
        Settings { session_base_dir: Settings::determine_session_base_dir(documents) }
    }
}

} // verus!
