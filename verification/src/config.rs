//! Service configuration and its validation rules.
//!
//! Loading configuration files and environment variables is I/O and happens
//! outside this crate; the raw values are handed to [`Settings::build`],
//! which enforces the rules: server and store settings fall back to
//! defaults, while the oracle account settings are mandatory.

use vstd::prelude::*;

verus! {

/// Where the HTTP facade listens.
pub struct ServerConfig {
    pub host: String,
    pub port: u16,
}

/// How the document store is reached.
pub struct MongoConfig {
    pub uri: String,
    pub database: String,
}

/// The oracle account identity: all four fields are required.
pub struct HoyolabConfig {
    pub region: String,
    pub uid: String,
    pub cookie: String,
    pub user_agent: String,
}

/// The whole service configuration.
pub struct Settings {
    pub server: ServerConfig,
    pub mongodb: MongoConfig,
    pub hoyolab: HoyolabConfig,
}

/// Which mandatory oracle account field is missing.
#[derive(Clone, Copy, PartialEq, Eq, Structural, Debug)]
pub enum SettingsError {
    MissingRegion,
    MissingUid,
    MissingCookie,
}

/// The host the server binds when none is configured.
pub fn default_host() -> (s: String)
    ensures
        s@ == "0.0.0.0"@,
{
    "0.0.0.0".to_owned()
}

/// The port the server binds when none is configured.
pub fn default_port() -> (p: u16)
    ensures
        p == 7878,
{
    7878
}

/// The store connection string used when none is configured.
pub fn default_mongo_uri() -> (s: String)
    ensures
        s@ == "mongodb://localhost:27017"@,
{
    "mongodb://localhost:27017".to_owned()
}

/// The store database name used when none is configured.
pub fn default_mongo_database() -> (s: String)
    ensures
        s@ == "starrail-api"@,
{
    "starrail-api".to_owned()
}

impl Default for ServerConfig {
    /// The default listen address.
    fn default() -> (s: Self)
        ensures
            s.host@ == "0.0.0.0"@,
            s.port == 7878,
    {
        ServerConfig { host: default_host(), port: default_port() }
    }
}

impl Default for MongoConfig {
    /// The default store connection.
    fn default() -> (s: Self)
        ensures
            s.uri@ == "mongodb://localhost:27017"@,
            s.database@ == "starrail-api"@,
    {
        MongoConfig { uri: default_mongo_uri(), database: default_mongo_database() }
    }
}

impl Settings {
    /// Assembles a configuration from raw values, rejecting an oracle
    /// account with an empty region, uid or cookie — in that order of
    /// priority.  An unusable account would otherwise only surface as a
    /// credential failure at validation time.
    pub fn build(server: ServerConfig, mongodb: MongoConfig, hoyolab: HoyolabConfig) -> (r: Result<
        Settings,
        SettingsError,
    >)
        ensures
            hoyolab.region@.len() == 0 ==> r == Result::<Settings, SettingsError>::Err(
                SettingsError::MissingRegion,
            ),
            hoyolab.region@.len() > 0 && hoyolab.uid@.len() == 0 ==> r == Result::<
                Settings,
                SettingsError,
            >::Err(SettingsError::MissingUid),
            hoyolab.region@.len() > 0 && hoyolab.uid@.len() > 0 && hoyolab.cookie@.len() == 0
                ==> r == Result::<Settings, SettingsError>::Err(SettingsError::MissingCookie),
            hoyolab.region@.len() > 0 && hoyolab.uid@.len() > 0 && hoyolab.cookie@.len() > 0 ==> {
                &&& r matches Ok(s)
                &&& s.server == server
                &&& s.mongodb == mongodb
                &&& s.hoyolab == hoyolab
            },
    {
        if hoyolab.region.as_str().is_empty() {
            Err(SettingsError::MissingRegion)
        } else if hoyolab.uid.as_str().is_empty() {
            Err(SettingsError::MissingUid)
        } else if hoyolab.cookie.as_str().is_empty() {
            Err(SettingsError::MissingCookie)
        } else {
            Ok(Settings { server, mongodb, hoyolab })
        }
    }
}

} // verus!
