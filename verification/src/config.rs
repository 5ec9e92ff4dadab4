//! The settings of a run, from a TOML file, the environment and defaults.
use vstd::prelude::*;

use crate::errors::{message, MigrationError};
use crate::text::{blank, concat, is_blank, opt_view, owned};

verus! {

/// The settings a run uses.
#[derive(Debug, Clone)]
pub struct Config {
    pub clockify_api_key: String,
    pub solidtime_api_token: String,
    pub clockify_base_url: String,
    pub solidtime_base_url: String,
    pub clockify_workspace_id: Option<String>,
    pub solidtime_organization_id: Option<String>,
}

/// The settings that a configuration file gives; each may be absent.
#[derive(Debug)]
pub struct FileConfig {
    pub clockify_api_key: Option<String>,
    pub solidtime_api_token: Option<String>,
    pub clockify_base_url: Option<String>,
    pub solidtime_base_url: Option<String>,
    pub clockify_workspace_id: Option<String>,
    pub solidtime_organization_id: Option<String>,
}

impl Default for FileConfig {
    fn default() -> (f: FileConfig)
        ensures
            f.clockify_api_key is None,
            f.solidtime_api_token is None,
            f.clockify_base_url is None,
            f.solidtime_base_url is None,
            f.clockify_workspace_id is None,
            f.solidtime_organization_id is None,
    {
        FileConfig {
            clockify_api_key: None,
            solidtime_api_token: None,
            clockify_base_url: None,
            solidtime_base_url: None,
            clockify_workspace_id: None,
            solidtime_organization_id: None,
        }
    }
}

/// The values of the environment variables `CLOCKIFY_API_KEY`,
/// `SOLIDTIME_API_TOKEN`, `CLOCKIFY_BASE_URL`, `SOLIDTIME_BASE_URL`,
/// `CLOCKIFY_WORKSPACE_ID` and `SOLIDTIME_ORGANIZATION_ID`, where set.
#[derive(Debug)]
pub struct EnvConfig {
    pub clockify_api_key: Option<String>,
    pub solidtime_api_token: Option<String>,
    pub clockify_base_url: Option<String>,
    pub solidtime_base_url: Option<String>,
    pub clockify_workspace_id: Option<String>,
    pub solidtime_organization_id: Option<String>,
}

/// A value that counts as given: present and not blank.
pub open spec fn given(v: Option<Seq<char>>) -> Option<Seq<char>> {
    match v {
        Some(t) => if is_blank(t) { None } else { Some(t) },
        None => None,
    }
}

/// A setting: the first value given, the file's before the environment's; a
/// blank value counts as absent, so a blank value in the file leaves the
/// environment's in force.
pub open spec fn setting(file_value: Option<Seq<char>>, env_value: Option<Seq<char>>) -> Option<Seq<char>> {
    match given(file_value) {
        Some(f) => Some(f),
        None => given(env_value),
    }
}

fn given_value(v: Option<String>) -> (r: Option<String>)
    ensures
        opt_view(r) == given(opt_view(v)),
{
    match v {
        Some(t) => if blank(t.as_str()) { None } else { Some(t) },
        None => None,
    }
}

/// A setting from the file or, when the file gives none, the environment; a
/// blank value counts as absent.
pub fn optional_value(file_value: Option<String>, env_value: Option<String>) -> (r: Option<String>)
    ensures
        opt_view(r) == setting(opt_view(file_value), opt_view(env_value)),
{
    match given_value(file_value) {
        Some(f) => Some(f),
        None => given_value(env_value),
    }
}

/// The message for a required setting that is missing.
pub open spec fn required_message(env_key: Seq<char>) -> Seq<char> {
    env_key + " is required"@
}

/// A required setting; its absence is an error that names the variable.
pub fn value(file_value: Option<String>, env_value: Option<String>, env_key: &str) -> (r: Result<String, MigrationError>)
    ensures
        match setting(opt_view(file_value), opt_view(env_value)) {
            Some(v) => r matches Ok(s) && s@ == v,
            None => r matches Err(e) && e@ == required_message(env_key@),
        },
{
    match optional_value(file_value, env_value) {
        Some(v) => Ok(v),
        None => Err(message(concat(env_key, " is required").as_str())),
    }
}

/// A setting with a default.
pub open spec fn or_default(v: Option<Seq<char>>, default: Seq<char>) -> Seq<char> {
    match v {
        Some(t) => t,
        None => default,
    }
}

/// The settings of a run: the file's values before the environment's, the
/// service URLs defaulting to the public services; the API key and token are
/// required, the key first.
pub fn resolve_config(file: FileConfig, env: EnvConfig) -> (r: Result<Config, MigrationError>)
    ensures
        ({
            let key = setting(opt_view(file.clockify_api_key), opt_view(env.clockify_api_key));
            let token = setting(opt_view(file.solidtime_api_token), opt_view(env.solidtime_api_token));
            match key {
                None => r matches Err(e) && e@ == required_message("CLOCKIFY_API_KEY"@),
                Some(k) => match token {
                    None => r matches Err(e) && e@ == required_message("SOLIDTIME_API_TOKEN"@),
                    Some(t) => r matches Ok(c) && c.clockify_api_key@ == k && c.solidtime_api_token@ == t
                        && c.clockify_base_url@ == or_default(
                        setting(opt_view(file.clockify_base_url), opt_view(env.clockify_base_url)),
                        "https://api.clockify.me/api/v1"@,
                    ) && c.solidtime_base_url@ == or_default(
                        setting(opt_view(file.solidtime_base_url), opt_view(env.solidtime_base_url)),
                        "https://app.solidtime.io/api"@,
                    ) && opt_view(c.clockify_workspace_id) == setting(
                        opt_view(file.clockify_workspace_id),
                        opt_view(env.clockify_workspace_id),
                    ) && opt_view(c.solidtime_organization_id) == setting(
                        opt_view(file.solidtime_organization_id),
                        opt_view(env.solidtime_organization_id),
                    ),
                },
            }
        }),
{
    let clockify_api_key = value(file.clockify_api_key, env.clockify_api_key, "CLOCKIFY_API_KEY")?;
    let solidtime_api_token = value(file.solidtime_api_token, env.solidtime_api_token, "SOLIDTIME_API_TOKEN")?;
    let clockify_base_url = match optional_value(file.clockify_base_url, env.clockify_base_url) {
        Some(u) => u,
        None => owned("https://api.clockify.me/api/v1"),
    };
    let solidtime_base_url = match optional_value(file.solidtime_base_url, env.solidtime_base_url) {
        Some(u) => u,
        None => owned("https://app.solidtime.io/api"),
    };
    Ok(Config {
        clockify_api_key,
        solidtime_api_token,
        clockify_base_url,
        solidtime_base_url,
        clockify_workspace_id: optional_value(file.clockify_workspace_id, env.clockify_workspace_id),
        solidtime_organization_id: optional_value(file.solidtime_organization_id, env.solidtime_organization_id),
    })
}

/// Precedence of settings: a value in the configuration file wins over the
/// environment; the environment fills in what the file lacks or leaves blank;
/// a setting is missing only when no source gives a non-blank value.
pub proof fn file_settings_take_precedence(file_value: Seq<char>, env_value: Option<Seq<char>>, env_only: Seq<char>)
    ensures
        !is_blank(file_value) ==> setting(Some(file_value), env_value) == Some(file_value),
        is_blank(file_value) ==> setting(Some(file_value), env_value) == setting(None, env_value),
        !is_blank(env_only) ==> setting(None, Some(env_only)) == Some(env_only),
        !is_blank(env_only) ==> setting(Some(file_value), Some(env_only)) is Some,
        setting(None, None) is None,
{
}

} // verus!
