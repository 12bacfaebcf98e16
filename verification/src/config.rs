//! The startup configuration: which options must be given, what the others
//! default to, and the connection targets that follow from them.

use crate::error::IngestError;
use crate::text::{append_decimal, decimal};
use vstd::prelude::*;

verus! {

/// The port of the relational store.
pub const DATABASE_PORT: u16 = 3306;

/// The port of the cache where none is given.
pub const DEFAULT_CACHE_PORT: u16 = 6379;

/// The options as they were given at startup: `None` where one was left out.
#[derive(Debug)]
pub struct Options {
    /// User name for the node's RPC server. Required.
    pub rpc_user: Option<String>,
    /// Password for the node's RPC server. Required.
    pub rpc_password: Option<String>,
    /// Address of the node's RPC server.
    pub rpc_url: Option<String>,
    /// User name for the relational store. Required.
    pub db_user: Option<String>,
    /// Password for the relational store. Required.
    pub db_password: Option<String>,
    /// Host of the relational store.
    pub db_host: Option<String>,
    /// Host of the cache.
    pub cache_host: Option<String>,
    /// Port of the cache.
    pub cache_port: Option<u16>,
    /// Password for the cache.
    pub cache_password: Option<String>,
}

/// The configuration of a run: made once at startup, never changed.
#[derive(Debug)]
pub struct Config {
    pub rpc_user: String,
    pub rpc_password: String,
    pub rpc_url: String,
    pub db_user: String,
    pub db_password: String,
    pub db_host: String,
    pub cache_host: String,
    pub cache_port: u16,
    pub cache_password: String,
}

/// Where and as whom to connect to the relational store.
#[derive(Debug)]
pub struct DatabaseTarget {
    pub user: String,
    pub password: String,
    pub host: String,
    pub port: u16,
    pub database: String,
}

/// The mathematical content of a [`Config`].
pub struct ConfigView {
    pub rpc_user: Seq<char>,
    pub rpc_password: Seq<char>,
    pub rpc_url: Seq<char>,
    pub db_user: Seq<char>,
    pub db_password: Seq<char>,
    pub db_host: Seq<char>,
    pub cache_host: Seq<char>,
    pub cache_port: u16,
    pub cache_password: Seq<char>,
}

/// The mathematical content of a [`DatabaseTarget`].
pub struct DatabaseView {
    pub user: Seq<char>,
    pub password: Seq<char>,
    pub host: Seq<char>,
    pub port: u16,
    pub database: Seq<char>,
}

impl View for Config {
    type V = ConfigView;

    open spec fn view(&self) -> ConfigView {
        ConfigView {
            rpc_user: self.rpc_user@,
            rpc_password: self.rpc_password@,
            rpc_url: self.rpc_url@,
            db_user: self.db_user@,
            db_password: self.db_password@,
            db_host: self.db_host@,
            cache_host: self.cache_host@,
            cache_port: self.cache_port,
            cache_password: self.cache_password@,
        }
    }
}

impl View for DatabaseTarget {
    type V = DatabaseView;

    open spec fn view(&self) -> DatabaseView {
        DatabaseView {
            user: self.user@,
            password: self.password@,
            host: self.host@,
            port: self.port,
            database: self.database@,
        }
    }
}

/// The text of an option, or `fallback` where the option was left out.
pub open spec fn text_or(option: Option<String>, fallback: Seq<char>) -> Seq<char> {
    match option {
        Some(text) => text@,
        None => fallback,
    }
}

impl Options {
    /// Whether every required option was given.
    pub open spec fn complete(self) -> bool {
        self.rpc_user is Some && self.rpc_password is Some && self.db_user is Some
            && self.db_password is Some
    }

    /// The configuration that complete options stand for: each option as
    /// given, and the default where one was left out.
    pub open spec fn resolved(self) -> ConfigView {
        ConfigView {
            rpc_user: text_or(self.rpc_user, Seq::empty()),
            rpc_password: text_or(self.rpc_password, Seq::empty()),
            rpc_url: text_or(self.rpc_url, "http://127.0.0.1:8332"@),
            db_user: text_or(self.db_user, Seq::empty()),
            db_password: text_or(self.db_password, Seq::empty()),
            db_host: text_or(self.db_host, "localhost"@),
            cache_host: text_or(self.cache_host, "localhost"@),
            cache_port: match self.cache_port {
                Some(port) => port,
                None => DEFAULT_CACHE_PORT,
            },
            cache_password: text_or(self.cache_password, Seq::empty()),
        }
    }

    /// Options with nothing given.
    pub fn none() -> (options: Options)
        ensures
            options.rpc_user is None,
            options.rpc_password is None,
            options.rpc_url is None,
            options.db_user is None,
            options.db_password is None,
            options.db_host is None,
            options.cache_host is None,
            options.cache_port is None,
            options.cache_password is None,
    {
        Options {
            rpc_user: None,
            rpc_password: None,
            rpc_url: None,
            db_user: None,
            db_password: None,
            db_host: None,
            cache_host: None,
            cache_port: None,
            cache_password: None,
        }
    }
}

/// The text of an option, or `fallback` where the option was left out.
fn take_or(option: Option<String>, fallback: &str) -> (text: String)
    ensures
        text@ == text_or(option, fallback@),
{
    match option {
        Some(text) => text,
        None => String::from_str(fallback),
    }
}

impl Config {
    /// Makes the configuration from the options given at startup. It fails
    /// with a configuration error if, and only if, a required option is
    /// missing: the user name or the password for the node or for the
    /// relational store.
    pub fn resolve(options: Options) -> (result: Result<Config, IngestError>)
        ensures
            match result {
                Ok(config) => options.complete() && config@ == options.resolved(),
                Err(error) => !options.complete() && error == IngestError::ConfigurationError,
            },
    {
        let ghost given = options;
        match (options.rpc_user, options.rpc_password, options.db_user, options.db_password) {
            (Some(rpc_user), Some(rpc_password), Some(db_user), Some(db_password)) => {
                let cache_port = match options.cache_port {
                    Some(port) => port,
                    None => DEFAULT_CACHE_PORT,
                };
                let config = Config {
                    rpc_user,
                    rpc_password,
                    rpc_url: take_or(options.rpc_url, "http://127.0.0.1:8332"),
                    db_user,
                    db_password,
                    db_host: take_or(options.db_host, "localhost"),
                    cache_host: take_or(options.cache_host, "localhost"),
                    cache_port,
                    cache_password: take_or(options.cache_password, ""),
                };
                proof {
                    reveal_strlit("");
                    assert(""@ =~= Seq::<char>::empty());
                }
                assert(config@ == given.resolved());
                Ok(config)
            },
            _ => Err(IngestError::ConfigurationError),
        }
    }

    /// The relational store to connect to: the configured host and user, on
    /// the store's fixed port, in the explorer's database.
    pub fn database(&self) -> (target: DatabaseTarget)
        ensures
            target@ == (DatabaseView {
                user: self@.db_user,
                password: self@.db_password,
                host: self@.db_host,
                port: DATABASE_PORT,
                database: "bitcoin_explorer"@,
            }),
    {
        DatabaseTarget {
            user: self.db_user.clone(),
            password: self.db_password.clone(),
            host: self.db_host.clone(),
            port: DATABASE_PORT,
            database: String::from_str("bitcoin_explorer"),
        }
    }

    /// The address of the cache, as the text that [`Config::cache_url`]
    /// returns.
    pub open spec fn cache_url_text(self) -> Seq<char> {
        "redis://default:"@ + self.cache_password@ + "@"@ + self.cache_host@ + ":"@ + decimal(
            self.cache_port as nat,
        )
    }

    /// The address of the cache: the default user with the configured
    /// password, host and port.
    pub fn cache_url(&self) -> (url: String)
        ensures
            url@ == self.cache_url_text(),
    {
        let mut url = String::from_str("redis://default:");
        url.append(self.cache_password.as_str());
        url.append("@");
        url.append(self.cache_host.as_str());
        url.append(":");
        append_decimal(&mut url, self.cache_port as u64);
        url
    }
}

} // verus!
