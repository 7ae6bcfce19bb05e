//! Configuration.
//!
//! Values are resolved in this order (later wins):
//!   1. built-in defaults
//!   2. the config file: the one given by `--config`, else `config.toml` in the
//!      working directory
//!   3. command-line flags

use vstd::prelude::*;
use crate::models::opt_text;
use crate::net::{default_subnet, IpAddr, Subnet};

verus! {

/// The command-line flags. Every flag may be omitted.
#[derive(Debug, Clone)]
pub struct Cli {
    /// The path of the config file.
    pub config: Option<String>,
    /// The network to scan.
    pub subnet: Option<Subnet>,
    /// The address that the web UI listens on.
    pub host: Option<IpAddr>,
    /// The port that the web UI listens on.
    pub port: Option<u16>,
    /// The scan interval in minutes.
    pub interval: Option<u64>,
    /// The path of the database.
    pub db_path: Option<String>,
}

/// The settings of a config file. Every setting may be omitted.
#[derive(Debug, Clone)]
pub struct FileConfig {
    pub subnet: Option<Subnet>,
    pub host: Option<IpAddr>,
    pub port: Option<u16>,
    pub interval: Option<u64>,
    pub db_path: Option<String>,
}

/// The resolved configuration.
#[derive(Debug, Clone)]
pub struct Config {
    pub subnet: Subnet,
    pub host: IpAddr,
    pub port: u16,
    pub interval_minutes: u64,
    pub db_path: String,
}

/// The config file that is looked for where none is given.
pub open spec fn default_config_file() -> Seq<char> {
    "config.toml"@
}

impl Default for FileConfig {
    /// The settings of no config file at all.
    fn default() -> (file: FileConfig)
        ensures
            file == (FileConfig {
                subnet: None,
                host: None,
                port: None,
                interval: None,
                db_path: None,
            }),
    {
        FileConfig { subnet: None, host: None, port: None, interval: None, db_path: None }
    }
}

/// The config file to read, from the one that was given and whether the default one
/// exists.
pub open spec fn chosen_file(given: Option<Seq<char>>, default_exists: bool) -> Option<Seq<char>> {
    match given {
        Some(path) => Some(path),
        None => if default_exists {
            Some(default_config_file())
        } else {
            None
        },
    }
}

/// The config file to read: the one that was given, else the default one where
/// it exists.
pub fn config_file(given: Option<String>, default_exists: bool) -> (path: Option<String>)
    ensures
        opt_text(path) == chosen_file(opt_text(given), default_exists),
{
    match given {
        Some(path) => Some(path),
        None => if default_exists {
            Some("config.toml".to_owned())
        } else {
            None
        },
    }
}

/// The value that wins: the flag, else the setting of the file, else the
/// default.
pub open spec fn resolved<T>(flag: Option<T>, file: Option<T>, default: T) -> T {
    match flag {
        Some(value) => value,
        None => match file {
            Some(value) => value,
            None => default,
        },
    }
}

/// Whether a configuration is what the flags, the config file and the defaults
/// resolve to.
pub open spec fn is_resolved(cli: Cli, file: FileConfig, config: Config) -> bool {
    &&& config.subnet == resolved(
        cli.subnet,
        file.subnet,
        Subnet { addr: 0xc0a8_0100, prefix_len: 24 },
    )
    &&& config.host == resolved(cli.host, file.host, IpAddr::V4(0x7f00_0001))
    &&& config.port == resolved(cli.port, file.port, 3000)
    &&& config.interval_minutes == resolved(cli.interval, file.interval, 10)
    &&& config.db_path@ == resolved(
        opt_text(cli.db_path),
        opt_text(file.db_path),
        "./inventory.db"@,
    )
}

/// The flag where there is one, else the setting of the file.
fn first_of<T>(flag: Option<T>, file: Option<T>) -> (value: Option<T>)
    ensures
        value == match flag {
            Some(_) => flag,
            None => file,
        },
{
    match flag {
        Some(value) => Some(value),
        None => file,
    }
}

impl Config {
    /// Merges the defaults, the settings of the config file and the
    /// command-line flags.
    pub fn load(cli: Cli, file: FileConfig) -> (config: Config)
        ensures
            is_resolved(cli, file, config),
    {
        let subnet = match first_of(cli.subnet, file.subnet) {
            Some(subnet) => subnet,
            None => default_subnet(),
        };
        let host = match first_of(cli.host, file.host) {
            Some(host) => host,
            None => IpAddr::V4(0x7f00_0001),
        };
        let port = first_of(cli.port, file.port).unwrap_or(3000);
        let interval_minutes = first_of(cli.interval, file.interval).unwrap_or(10);
        let db_path = match first_of(cli.db_path, file.db_path) {
            Some(path) => path,
            None => "./inventory.db".to_owned(),
        };
        Config { subnet, host, port, interval_minutes, db_path }
    }

    /// The scan interval in seconds.
    pub fn interval_secs(&self) -> (secs: u64)
        requires
            self.interval_minutes * 60 <= u64::MAX,
        ensures
            secs == self.interval_minutes * 60,
    {
        self.interval_minutes * 60
    }
}

} // verus!
