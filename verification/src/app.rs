//! The application's configuration: where the server listens, where the
//! database lives, and where assets are read from. Environment lookup
//! happens at the I/O edge; the builder here only decides how explicit
//! settings, environment values and defaults combine.

use vstd::prelude::*;

verus! {

use vstd::string::StringExecFns;

/// The resolved configuration.
#[derive(Debug, Clone)]
pub struct Config {
    pub server_url: String,
    pub database_url: String,
    pub assets_dir: String,
}

impl Config {
    /// Starts an empty builder; unset fields fall back to the
    /// environment values handed to `build`, or to fixed defaults.
    pub fn builder() -> (b: ConfigBuilder)
        ensures
            b.spec_server_url() is None,
            b.spec_database_url() is None,
            b.spec_assets_dir() is None,
    {
        ConfigBuilder { server_url: None, database_url: None, assets_dir: None }
    }
}

/// Why a configuration could not be resolved: a required setting was
/// neither given explicitly nor present in the environment.
#[derive(Debug, Clone, Copy, PartialEq, Eq, Structural)]
pub enum ConfigError {
    ServerUrl,
    DatabaseUrl,
}

/// Collects explicit settings before resolution.
#[derive(Debug, Clone)]
pub struct ConfigBuilder {
    server_url: Option<String>,
    database_url: Option<String>,
    assets_dir: Option<String>,
}

impl ConfigBuilder {
    /// The explicit server address, if one was set.
    pub closed spec fn spec_server_url(self) -> Option<String> {
        self.server_url
    }

    /// The explicit database address, if one was set.
    pub closed spec fn spec_database_url(self) -> Option<String> {
        self.database_url
    }

    /// The explicit asset directory, if one was set.
    pub closed spec fn spec_assets_dir(self) -> Option<String> {
        self.assets_dir
    }

    /// The server address to listen on.
    pub fn server_url(self, server_url: String) -> (b: Self)
        ensures
            b.spec_server_url() == Some(server_url),
            b.spec_database_url() == self.spec_database_url(),
            b.spec_assets_dir() == self.spec_assets_dir(),
    {
        ConfigBuilder { server_url: Some(server_url), ..self }
    }

    /// The database to connect to.
    pub fn database_url(self, database_url: String) -> (b: Self)
        ensures
            b.spec_database_url() == Some(database_url),
            b.spec_server_url() == self.spec_server_url(),
            b.spec_assets_dir() == self.spec_assets_dir(),
    {
        ConfigBuilder { database_url: Some(database_url), ..self }
    }

    /// The directory assets are read from.
    pub fn assets_dir(self, assets_dir: String) -> (b: Self)
        ensures
            b.spec_assets_dir() == Some(assets_dir),
            b.spec_server_url() == self.spec_server_url(),
            b.spec_database_url() == self.spec_database_url(),
    {
        ConfigBuilder { assets_dir: Some(assets_dir), ..self }
    }

    /// Resolves the configuration: every explicit setting wins over the
    /// environment value handed in for it; the asset directory defaults
    /// to `assets/`; the two URLs have no default and missing both ways
    /// is an error, the server address checked first.
    pub fn build(self, env_server_url: Option<String>, env_database_url: Option<String>) -> (r:
        Result<Config, ConfigError>)
        ensures
            match r {
                Ok(c) => {
                    &&& Some(c.server_url) == (if self.spec_server_url() is Some {
                        self.spec_server_url()
                    } else {
                        env_server_url
                    })
                    &&& Some(c.database_url) == (if self.spec_database_url() is Some {
                        self.spec_database_url()
                    } else {
                        env_database_url
                    })
                    &&& (match self.spec_assets_dir() {
                        Some(d) => c.assets_dir == d,
                        None => c.assets_dir@ == "assets/"@,
                    })
                },
                Err(ConfigError::ServerUrl) => self.spec_server_url() is None && env_server_url
                    is None,
                Err(ConfigError::DatabaseUrl) => {
                    &&& (self.spec_server_url() is Some || env_server_url is Some)
                    &&& self.spec_database_url() is None
                    &&& env_database_url is None
                },
            },
    {
        let server_url = match self.server_url {
            Some(u) => u,
            None => match env_server_url {
                Some(u) => u,
                None => {
                    return Err(ConfigError::ServerUrl);
                },
            },
        };
        let database_url = match self.database_url {
            Some(u) => u,
            None => match env_database_url {
                Some(u) => u,
                None => {
                    return Err(ConfigError::DatabaseUrl);
                },
            },
        };
        let assets_dir = match self.assets_dir {
            Some(d) => d,
            None => String::from_str("assets/"),
        };
        Ok(Config { server_url, database_url, assets_dir })
    }
}

} // verus!
