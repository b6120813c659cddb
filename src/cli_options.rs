use vstd::prelude::*;

use std::path::PathBuf;

verus! {

#[verifier::external_type_specification]
#[verifier::external_body]
pub struct ExPathBuf(PathBuf);

/// Relies on `dirs::config_dir`: the user's configuration directory, if the
/// platform and environment name one. Nothing is promised of the value.
#[verifier::external_body]
fn config_dir() -> (r: Option<PathBuf>) {
    dirs::config_dir()
}

/// Relies on `Path::join`: `base` extended by the relative component `part`.
#[verifier::external_body]
fn join_path(base: &PathBuf, part: &str) -> (r: PathBuf) {
    base.join(part)
}

/// The program's sub-commands.
#[derive(Clone, Copy, Debug, PartialEq, Eq, Structural)]
pub enum Command {
    /// Start in blocking mode.
    Run,
    /// Start as daemon.
    Deamon,
    /// Install the device-permission rules.
    Install,
}

/// A path that neither the command line nor the platform supplied.
#[derive(Clone, Copy, Debug, PartialEq, Eq, Structural)]
pub enum CliError {
    NoConfigDir,
    NoDeviceDbDir,
}

impl CliError {
    pub fn message(&self) -> (r: &'static str)
        ensures
            r@ == (match *self {
                CliError::NoConfigDir =>
                    "No config file provided, nor can the location of default config can be located."@,
                CliError::NoDeviceDbDir =>
                    "No device database path provided, nor can the location of default device database can be located."@,
            }),
    {
        match self {
            CliError::NoConfigDir =>
                "No config file provided, nor can the location of default config can be located.",
            CliError::NoDeviceDbDir =>
                "No device database path provided, nor can the location of default device database can be located.",
        }
    }
}

/// Parsed command line: the sub-command and the optional paths of the
/// configuration file and of the device database.
#[derive(Debug)]
pub struct CliOptions {
    pub command: Command,
    pub config: Option<PathBuf>,
    pub device_db: Option<PathBuf>,
}

impl CliOptions {
    pub fn get_config(&self) -> (r: &PathBuf)
        requires
            self.config is Some,
        ensures
            *r == self.config->0,
    {
        self.config.as_ref().unwrap()
    }

    pub fn get_device_db(&self) -> (r: &PathBuf)
        requires
            self.device_db is Some,
        ensures
            *r == self.device_db->0,
    {
        self.device_db.as_ref().unwrap()
    }

    /// Fills the paths the command line left out with `rablet/config.json`
    /// and `rablet/device_db` under the configuration directory `dir`. Paths
    /// that were given are kept; a missing path with no directory to place
    /// it in is an error, the configuration file's first.
    pub fn with_default_paths(self, dir: Option<PathBuf>) -> (r: Result<CliOptions, CliError>)
        ensures
            r is Ok <==> (self.config is Some || dir is Some) && (self.device_db is Some
                || dir is Some),
            r == Err::<CliOptions, CliError>(CliError::NoConfigDir) <==> self.config is None
                && dir is None,
            r == Err::<CliOptions, CliError>(CliError::NoDeviceDbDir) <==> self.config is Some
                && self.device_db is None && dir is None,
            r matches Ok(o) ==> o.command == self.command && o.config is Some && o.device_db is Some
                && (self.config is Some ==> o.config == self.config) && (self.device_db is Some
                ==> o.device_db == self.device_db),
    {
        let config = match self.config {
            Some(p) => p,
            None => match &dir {
                Some(d) => join_path(&join_path(d, "rablet"), "config.json"),
                None => return Err(CliError::NoConfigDir),
            },
        };
        let device_db = match self.device_db {
            Some(p) => p,
            None => match &dir {
                Some(d) => join_path(&join_path(d, "rablet"), "device_db"),
                None => return Err(CliError::NoDeviceDbDir),
            },
        };
        Ok(CliOptions { command: self.command, config: Some(config), device_db: Some(device_db) })
    }

    /// Fills the missing paths under the platform's configuration directory.
    /// Succeeds whenever both paths were given; otherwise as
    /// `with_default_paths` says for whatever directory the platform named.
    pub fn resolve_paths(self) -> (r: Result<CliOptions, CliError>)
        ensures
            self.config is Some && self.device_db is Some ==> r is Ok,
            r is Err ==> self.config is None || self.device_db is None,
            r matches Ok(o) ==> o.command == self.command && o.config is Some && o.device_db is Some
                && (self.config is Some ==> o.config == self.config) && (self.device_db is Some
                ==> o.device_db == self.device_db),
    {
        let dir = config_dir();
        self.with_default_paths(dir)
    }
}

} // verus!
