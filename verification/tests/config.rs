use mce_inventory::config::{config_file, Cli, Config, FileConfig};
use mce_inventory::net::{IpAddr, Subnet};
use mce_inventory::scheduler::{next_action, SchedulerAction, SchedulerEvent};

fn no_flags() -> Cli {
    Cli { config: None, subnet: None, host: None, port: None, interval: None, db_path: None }
}

#[test]
fn the_defaults() {
    let config = Config::load(no_flags(), FileConfig::default());
    assert_eq!(config.subnet, Subnet { addr: 0xc0a8_0100, prefix_len: 24 });
    assert_eq!(config.host, IpAddr::V4(0x7f00_0001));
    assert_eq!(config.port, 3000);
    assert_eq!(config.interval_minutes, 10);
    assert_eq!(config.interval_secs(), 600);
    assert_eq!(config.db_path, "./inventory.db");
}

#[test]
fn the_file_wins_over_the_defaults_and_flags_over_the_file() {
    let file = FileConfig {
        subnet: Some(Subnet { addr: 0x0a00_0000, prefix_len: 8 }),
        host: Some(IpAddr::V6(1)),
        port: Some(8080),
        interval: Some(5),
        db_path: Some("file.db".to_string()),
    };
    let config = Config::load(no_flags(), file.clone());
    assert_eq!(config.subnet, Subnet { addr: 0x0a00_0000, prefix_len: 8 });
    assert_eq!(config.host, IpAddr::V6(1));
    assert_eq!(config.port, 8080);
    assert_eq!(config.interval_minutes, 5);
    assert_eq!(config.db_path, "file.db");

    let mut flags = no_flags();
    flags.port = Some(1);
    flags.db_path = Some("flag.db".to_string());
    let config = Config::load(flags, file);
    assert_eq!(config.port, 1);
    assert_eq!(config.db_path, "flag.db");
    assert_eq!(config.interval_minutes, 5);
}

#[test]
fn the_given_config_file_is_read_else_the_default_one() {
    assert_eq!(config_file(Some("my.toml".to_string()), true), Some("my.toml".to_string()));
    assert_eq!(config_file(Some("my.toml".to_string()), false), Some("my.toml".to_string()));
    assert_eq!(config_file(None, true), Some("config.toml".to_string()));
    assert_eq!(config_file(None, false), None);
}

#[test]
fn a_scan_runs_at_startup_and_whenever_it_is_due_or_asked_for() {
    assert_eq!(next_action(SchedulerEvent::Started), SchedulerAction::TriggerAndWait);
    assert_eq!(next_action(SchedulerEvent::Triggered), SchedulerAction::Scan);
    assert_eq!(next_action(SchedulerEvent::IntervalElapsed), SchedulerAction::Scan);
    assert_eq!(next_action(SchedulerEvent::ScanEnded), SchedulerAction::Wait);
}
