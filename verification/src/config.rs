//! Configuration: the command line, the configuration file's settings and
//! how they combine.
use vstd::prelude::*;

use crate::cache::{join_path, joined};
use crate::text::owned;

verus! {

/// The command line.
pub struct Cli {
    pub command: Command,
    /// Path to the configuration file.
    pub config: Option<String>,
    /// Path to the data directory.
    pub data_dir: Option<String>,
}

/// What the program is asked to do.
pub enum Command {
    /// Run the HTTP server, optionally on another host or port.
    Serve { host: Option<String>, port: Option<u16> },
}

/// The settings of the server.
#[derive(Debug)]
pub struct Config {
    pub server: ServerConfig,
    pub salita: SalitaConfig,
}

/// Where the HTTP server listens.
#[derive(Debug)]
pub struct ServerConfig {
    pub host: String,
    pub port: u16,
}

/// Where the media mesh is reached.
#[derive(Debug)]
pub struct SalitaConfig {
    pub url: String,
}

impl Default for ServerConfig {
    fn default() -> (c: Self)
        ensures
            c.host@ == "0.0.0.0"@,
            c.port == 7777,
    {
        ServerConfig { host: owned("0.0.0.0"), port: 7777 }
    }
}

impl Default for SalitaConfig {
    fn default() -> (c: Self)
        ensures
            c.url@ == "http://localhost:6969"@,
    {
        SalitaConfig { url: owned("http://localhost:6969") }
    }
}

impl Default for Config {
    fn default() -> (c: Self)
        ensures
            c.server.host@ == "0.0.0.0"@,
            c.server.port == 7777,
            c.salita.url@ == "http://localhost:6969"@,
    {
        Config { server: ServerConfig::default(), salita: SalitaConfig::default() }
    }
}

/// The data directory: the one given on the command line, else ".gunita"
/// in the home directory.
pub open spec fn data_dir_of(given: Option<Seq<char>>, home: Seq<char>) -> Seq<char> {
    match given {
        Some(d) => d,
        None => joined(home, ".gunita"@),
    }
}

/// The view of an optional string slice.
pub open spec fn opt_str_view(o: Option<&str>) -> Option<Seq<char>> {
    match o {
        Some(s) => Some(s@),
        None => None,
    }
}

/// The view of an optional string.
pub open spec fn opt_string_view(o: Option<String>) -> Option<Seq<char>> {
    match o {
        Some(s) => Some(s@),
        None => None,
    }
}

impl Config {
    /// The data directory: the one given on the command line, else
    /// ".gunita" in `home`, the home directory (which must be known when no
    /// directory is given).
    pub fn data_dir(cli: &Cli, home: Option<&str>) -> (r: String)
        requires
            cli.data_dir is Some || home is Some,
        ensures
            r@ == data_dir_of(opt_string_view(cli.data_dir), home.unwrap_or("")@),
            cli.data_dir matches Some(d) ==> r@ == d@,
            cli.data_dir is None ==> r@ == joined(home.unwrap()@, ".gunita"@),
    {
        match &cli.data_dir {
            Some(d) => d.clone(),
            None => {
                let h = home.unwrap();
                join_path(h, ".gunita")
            },
        }
    }

    /// The database file: "gunita.db" in the data directory.
    pub fn db_path(cli: &Cli, home: Option<&str>) -> (r: String)
        requires
            cli.data_dir is Some || home is Some,
        ensures
            r@ == joined(data_dir_of(opt_string_view(cli.data_dir), home.unwrap_or("")@), "gunita.db"@),
            cli.data_dir matches Some(d) ==> r@ == joined(d@, "gunita.db"@),
            cli.data_dir is None ==> r@ == joined(joined(home.unwrap()@, ".gunita"@), "gunita.db"@),
    {
        let d = Self::data_dir(cli, home);
        join_path(d.as_str(), "gunita.db")
    }

    /// The configuration file: the one given on the command line, else
    /// "config.toml" in the data directory.
    pub fn config_path(cli: &Cli, home: Option<&str>) -> (r: String)
        requires
            cli.data_dir is Some || home is Some,
        ensures
            r@ == match cli.config {
                Some(p) => p@,
                None => joined(
                    data_dir_of(opt_string_view(cli.data_dir), home.unwrap_or("")@),
                    "config.toml"@,
                ),
            },
    {
        match &cli.config {
            Some(p) => p.clone(),
            None => {
                let d = Self::data_dir(cli, home);
                join_path(d.as_str(), "config.toml")
            },
        }
    }

    /// The configuration with the command line's host and port, and the
    /// `SALITA_URL` environment setting (`salita_url`), put in place of the
    /// file's where they are given.
    pub fn with_overrides(self, cli: &Cli, salita_url: Option<String>) -> (c: Config)
        ensures
            c.server.host@ == match cli.command {
                Command::Serve { host, port } => match host {
                    Some(h) => h@,
                    None => self.server.host@,
                },
            },
            c.server.port == match cli.command {
                Command::Serve { host, port } => match port {
                    Some(p) => p,
                    None => self.server.port,
                },
            },
            c.salita.url@ == match salita_url {
                Some(u) => u@,
                None => self.salita.url@,
            },
    {
        let mut config = self;
        let Command::Serve { host, port } = &cli.command;
        match host {
            Some(h) => {
                config.server.host = h.clone();
            },
            None => {},
        }
        match port {
            Some(p) => {
                config.server.port = *p;
            },
            None => {},
        }
        match salita_url {
            Some(u) => {
                config.salita.url = u;
            },
            None => {},
        }
        config
    }
}

} // verus!
