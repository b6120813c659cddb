use std::path::PathBuf;

use rablet::{CliError, CliOptions, Command};

fn options(config: Option<&str>, device_db: Option<&str>) -> CliOptions {
    CliOptions {
        command: Command::Run,
        config: config.map(PathBuf::from),
        device_db: device_db.map(PathBuf::from),
    }
}

#[test]
fn given_paths_are_kept() {
    let o = options(Some("/a/c.json"), Some("/a/db")).with_default_paths(None).unwrap();
    assert_eq!(o.get_config(), &PathBuf::from("/a/c.json"));
    assert_eq!(o.get_device_db(), &PathBuf::from("/a/db"));
    assert_eq!(o.command, Command::Run);
}

#[test]
fn missing_paths_go_under_the_config_dir() {
    let o = options(None, None).with_default_paths(Some(PathBuf::from("/home/u/.config"))).unwrap();
    assert_eq!(o.get_config(), &PathBuf::from("/home/u/.config/rablet/config.json"));
    assert_eq!(o.get_device_db(), &PathBuf::from("/home/u/.config/rablet/device_db"));
}

#[test]
fn missing_paths_without_dir_are_errors() {
    assert_eq!(options(None, Some("/db")).with_default_paths(None).unwrap_err(), CliError::NoConfigDir);
    assert_eq!(options(Some("/c"), None).with_default_paths(None).unwrap_err(), CliError::NoDeviceDbDir);
    assert_eq!(options(None, None).with_default_paths(None).unwrap_err(), CliError::NoConfigDir);
}

#[test]
fn resolve_keeps_given_paths() {
    let o = options(Some("/x"), Some("/y")).resolve_paths().unwrap();
    assert_eq!(o.get_config(), &PathBuf::from("/x"));
    assert_eq!(o.get_device_db(), &PathBuf::from("/y"));
}
