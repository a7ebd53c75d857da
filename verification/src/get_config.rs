use vstd::prelude::*;
use vstd::string::StringSliceAdditionalSpecFns;

use crate::encoding::{base64_of_str, spec_base64};
use crate::text::to_owned;

verus! {

#[verifier::external_type_specification]
#[verifier::external_body]
pub struct ExPathBuf(std::path::PathBuf);

/// Where the configuration file is looked for, below the user's
/// configuration directory.
pub const DEFAULT_CONFIG_FILE_PATH: &'static str = "local_jira/local_jira.toml";

/// The name of the database file put beside the configuration file when the
/// configuration names none.
pub const DEFAULT_DB_NAME: &'static str = "local_jira.sqlite";

/// The environment variable that holds the API token when the configuration
/// file does not.
pub const JIRA_API_TOKEN_ENV_VAR: &'static str = "JIRA_API_TOKEN";

/// What the configuration file holds.
pub struct ConfigFile {
    pub server_address: String,
    pub user_login: String,
    pub api_token: Option<String>,
    pub local_database: Option<std::path::PathBuf>,
    pub interesting_projects: Option<Vec<String>>,
    pub max_file_size_to_download: Option<i64>,
    pub mozilla_cookies_db: Option<std::path::PathBuf>,
}

/// The settings the server runs with.
pub struct Config {
    server_address: String,
    user_login: String,
    api_token: String,
    auth_token: String,
    local_database: std::path::PathBuf,
    interesting_projects: Vec<String>,
    mozilla_cookies_db: Option<std::path::PathBuf>,
}

/// The credentials sent to the server: `login:token` in base64.
pub open spec fn spec_auth_token(user_login: Seq<char>, api_token: Seq<char>) -> Seq<char> {
    spec_base64(vstd::utf8::encode_utf8(user_login + ":"@ + api_token))
}

/// The error given when the API token cannot be read from the environment.
pub open spec fn spec_env_token_error(e: Seq<char>) -> Seq<char> {
    "Couldn't get environment variable "@ + JIRA_API_TOKEN_ENV_VAR@ + ": "@ + e
}

/// The error given when there is no API token at all.
pub open spec fn spec_missing_token_error(e: Seq<char>) -> Seq<char> {
    "Config file does not contain an api_token and couldn't get it from environment variable.\nError: "@
        + spec_env_token_error(e)
}

impl Config {
    pub closed spec fn spec_server_address(&self) -> Seq<char> {
        self.server_address@
    }

    pub closed spec fn spec_user_login(&self) -> Seq<char> {
        self.user_login@
    }

    pub closed spec fn spec_api_token(&self) -> Seq<char> {
        self.api_token@
    }

    pub closed spec fn spec_auth_token(&self) -> Seq<char> {
        self.auth_token@
    }

    pub closed spec fn spec_local_database(&self) -> std::path::PathBuf {
        self.local_database
    }

    pub closed spec fn spec_interesting_projects(&self) -> Seq<Seq<char>> {
        self.interesting_projects@.map_values(|p: String| p@)
    }

    pub closed spec fn spec_mozilla_cookies_db(&self) -> Option<std::path::PathBuf> {
        self.mozilla_cookies_db
    }

    /// The settings hang together: the credentials are made of the login
    /// and the token.
    pub closed spec fn wf(&self) -> bool {
        self.auth_token@ == spec_auth_token(self.user_login@, self.api_token@)
    }

    /// The address of the Jira server.
    pub fn server_address(&self) -> (res: &str)
        ensures
            res@ == self.spec_server_address(),
    {
        self.server_address.as_str()
    }

    /// The login of the user, likely an email address.
    pub fn user_login(&self) -> (res: &str)
        ensures
            res@ == self.spec_user_login(),
    {
        self.user_login.as_str()
    }

    /// The API token of the user.
    pub fn api_token(&self) -> (res: &str)
        ensures
            res@ == self.spec_api_token(),
    {
        self.api_token.as_str()
    }

    /// The local database file.
    pub fn local_database(&self) -> (res: &std::path::PathBuf)
        ensures
            *res == self.spec_local_database(),
    {
        &self.local_database
    }

    /// The keys of the projects to keep a copy of.
    pub fn interesting_projects(&self) -> (res: &Vec<String>)
        ensures
            res@.map_values(|p: String| p@) == self.spec_interesting_projects(),
    {
        &self.interesting_projects
    }

    /// The credentials sent with each request: `login:token` in base64.
    pub fn auth_token(&self) -> (res: &str)
        ensures
            res@ == self.spec_auth_token(),
            self.wf() ==> res@ == spec_auth_token(self.spec_user_login(), self.spec_api_token()),
    {
        self.auth_token.as_str()
    }

    /// The Firefox cookie database holding the session cookie, if any.
    pub fn get_mozilla_cookies_db(&self) -> (res: &Option<std::path::PathBuf>)
        ensures
            *res == self.spec_mozilla_cookies_db(),
    {
        &self.mozilla_cookies_db
    }
}

/// The folder part of a path (`Path::parent`), `None` for a root or an
/// empty path.
pub uninterp spec fn spec_path_parent(path: Seq<char>) -> Option<Seq<char>>;

/// `name` put below the folder `base` (`Path::join`).
pub uninterp spec fn spec_path_join(base: Seq<char>, name: Seq<char>) -> Seq<char>;

/// The path that a text names (`PathBuf::from`).
pub uninterp spec fn spec_path_buf(path: Seq<char>) -> std::path::PathBuf;

/// The folder of a path, with `std::path::Path::parent`. What the folder is
/// is not stated beyond its being a function of the path; the result of a
/// text path is text again, so the conversion back loses nothing.
#[verifier::external_body]
fn path_parent(path: &str) -> (res: Option<String>)
    ensures
        match res {
            Some(p) => spec_path_parent(path@) == Some(p@),
            None => spec_path_parent(path@) is None,
        },
{
    match std::path::Path::new(path).parent() {
        Some(p) => Some(p.to_string_lossy().into_owned()),
        None => None,
    }
}

/// A path below a folder, with `std::path::Path::join`. Nothing is stated of
/// the result beyond its being a function of the two texts.
#[verifier::external_body]
fn path_join(base: &str, name: &str) -> (res: String)
    ensures
        res@ == spec_path_join(base@, name@),
{
    std::path::Path::new(base).join(name).to_string_lossy().into_owned()
}

/// The path a text names, with `PathBuf::from`.
#[verifier::external_body]
fn path_buf(path: String) -> (res: std::path::PathBuf)
    ensures
        res == spec_path_buf(path@),
{
    std::path::PathBuf::from(path)
}

/// Where the database goes when the configuration names none: a file named
/// `DEFAULT_DB_NAME` in the configuration file's folder (the path itself
/// when it has no folder part).
pub open spec fn spec_default_database(config_file_path: Seq<char>) -> Seq<char> {
    let folder = match spec_path_parent(config_file_path) {
        Some(p) => p,
        None => config_file_path,
    };
    spec_path_join(folder, DEFAULT_DB_NAME@)
}

/// The database file used when the configuration file at
/// `config_file_path` names none.
pub fn default_database_path(config_file_path: &str) -> (res: std::path::PathBuf)
    ensures
        res == spec_path_buf(spec_default_database(config_file_path@)),
{
    let folder = match path_parent(config_file_path) {
        Some(p) => p,
        None => to_owned(config_file_path),
    };
    path_buf(path_join(folder.as_str(), DEFAULT_DB_NAME))
}

/// The API token read from the environment, or the error saying why it could
/// not be.
pub fn api_token_from_env(env_value: Result<String, String>) -> (res: Result<String, String>)
    ensures
        match env_value {
            Ok(v) => res == Ok::<String, String>(v),
            Err(e) => res matches Err(m) && m@ == spec_env_token_error(e@),
        },
{
    match env_value {
        Ok(v) => Ok(v),
        Err(e) => {
            let mut msg = to_owned("Couldn't get environment variable ");
            msg.append(JIRA_API_TOKEN_ENV_VAR);
            msg.append(": ");
            msg.append(e.as_str());
            Err(msg)
        },
    }
}

/// The settings made from the configuration file found at
/// `config_file_path`: the database defaults to a file named
/// `DEFAULT_DB_NAME` in that file's folder, the token to the environment's,
/// the projects to none; the credentials are derived from the login and the
/// token. Fails exactly when there is no token at all.
pub fn get_config(file: ConfigFile, config_file_path: &str, env_value: Result<String, String>) -> (res: Result<Config, String>)
    ensures
        match res {
            Ok(c) => {
                &&& c.wf()
                &&& c.spec_server_address() == file.server_address@
                &&& c.spec_user_login() == file.user_login@
                &&& c.spec_api_token() == (match file.api_token {
                    Some(t) => t@,
                    None => match env_value {
                        Ok(v) => v@,
                        Err(_) => Seq::empty(),
                    },
                })
                &&& c.spec_local_database() == (match file.local_database {
                    Some(p) => p,
                    None => spec_path_buf(spec_default_database(config_file_path@)),
                })
                &&& (file.api_token is Some || env_value is Ok)
                &&& c.spec_interesting_projects() == (match file.interesting_projects {
                    Some(v) => v@.map_values(|p: String| p@),
                    None => Seq::empty(),
                })
                &&& c.spec_mozilla_cookies_db() == file.mozilla_cookies_db
            },
            Err(m) => file.api_token is None && (env_value matches Err(e) && m@ == spec_missing_token_error(e@)),
        },
{
    let local_database = match file.local_database {
        None => default_database_path(config_file_path),
        Some(v) => v,
    };
    let api_token = match file.api_token {
        None => match api_token_from_env(env_value) {
            Ok(v) => v,
            Err(a) => {
                let mut msg = to_owned(
                    "Config file does not contain an api_token and couldn't get it from environment variable.\nError: ",
                );
                msg.append(a.as_str());
                return Err(msg);
            },
        },
        Some(v) => v,
    };
    let interesting_projects = match file.interesting_projects {
        None => Vec::new(),
        Some(x) => x,
    };
    let mut credentials = file.user_login.clone();
    credentials.append(":");
    credentials.append(api_token.as_str());
    let auth_token = base64_of_str(credentials.as_str());
    proof {
        assert(credentials@ == file.user_login@ + ":"@ + api_token@);
    }
    Ok(Config {
        server_address: file.server_address,
        user_login: file.user_login,
        api_token,
        auth_token,
        local_database,
        interesting_projects,
        mozilla_cookies_db: file.mozilla_cookies_db,
    })
}

} // verus!
