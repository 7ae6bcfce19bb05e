//! What holds of the settings and of when scans run.

use vstd::prelude::*;
use crate::config::{chosen_file, default_config_file, is_resolved, resolved, Cli, Config, FileConfig};
use crate::net::{IpAddr, Subnet};
use crate::scheduler::{action_for, SchedulerAction, SchedulerEvent};

verus! {

/// A flag that is given is the value that counts, whatever the config file holds or
/// lacks and whatever the default is.
pub proof fn law_flag_wins<T>(flag: T, file: Option<T>, default: T)
    ensures
        resolved(Some(flag), file, default) == flag,
{
}

/// Without a flag the setting of the config file counts, whatever the default is.
pub proof fn law_file_wins_over_default<T>(setting: T, default: T)
    ensures
        resolved(None, Some(setting), default) == setting,
{
}

/// The default counts where both are missing, and only there: whatever else was given
/// does not depend on it.
pub proof fn law_default_is_last<T>(flag: Option<T>, file: Option<T>, default: T, other: T)
    ensures
        flag is None && file is None ==> resolved(flag, file, default) == default,
        flag is Some || file is Some ==> resolved(flag, file, default) == resolved(
            flag,
            file,
            other,
        ),
{
}

/// Giving a flag a second time in the config file, or leaving it out there, is the
/// same; so is moving a setting from the file to the flags.
pub proof fn law_settings_may_move<T>(value: T, file: Option<T>, default: T)
    ensures
        resolved(Some(value), file, default) == resolved(Some(value), Some(value), default),
        resolved(Some(value), None, default) == resolved(None, Some(value), default),
{
}

/// The config file that is looked for is `config.toml`.
pub proof fn law_default_config_file()
    ensures
        default_config_file() == "config.toml"@,
{
}

/// Each setting is the flag's where the flag is given, else the file's where the file has it,
/// else its default: `192.168.1.0/24`, `127.0.0.1`, port 3000, ten minutes and
/// `./inventory.db`. None depends on another.
pub proof fn law_each_setting(cli: Cli, file: FileConfig, config: Config)
    requires
        is_resolved(cli, file, config),
    ensures
        cli.subnet matches Some(v) ==> config.subnet == v,
        cli.subnet is None ==> (file.subnet matches Some(v) ==> config.subnet == v),
        cli.subnet is None && file.subnet is None ==> config.subnet == (Subnet {
            addr: 0xc0a8_0100,
            prefix_len: 24,
        }),
        cli.host matches Some(v) ==> config.host == v,
        cli.host is None ==> (file.host matches Some(v) ==> config.host == v),
        cli.host is None && file.host is None ==> config.host == IpAddr::V4(0x7f00_0001),
        cli.port matches Some(v) ==> config.port == v,
        cli.port is None ==> (file.port matches Some(v) ==> config.port == v),
        cli.port is None && file.port is None ==> config.port == 3000,
        cli.interval matches Some(v) ==> config.interval_minutes == v,
        cli.interval is None ==> (file.interval matches Some(v) ==> config.interval_minutes == v),
        cli.interval is None && file.interval is None ==> config.interval_minutes == 10,
        cli.db_path matches Some(v) ==> config.db_path@ == v@,
        cli.db_path is None ==> (file.db_path matches Some(v) ==> config.db_path@ == v@),
        cli.db_path is None && file.db_path is None ==> config.db_path@ == "./inventory.db"@,
{
}

/// A config file that is given is read whether or not the default one exists; the default
/// one is read where none is given and it exists, and else none is.
pub proof fn law_which_file_is_read(given: Seq<char>, default_exists: bool)
    ensures
        chosen_file(Some(given), default_exists) == Some(given),
        chosen_file(None, true) == Some("config.toml"@),
        chosen_file(None, false) is None,
{
}

/// A scan is asked for at startup; whatever ends a wait starts a scan, and a scan is followed
/// by a wait.
pub proof fn law_when_scans_run(event: SchedulerEvent)
    ensures
        action_for(SchedulerEvent::Started) == SchedulerAction::TriggerAndWait,
        action_for(event) == SchedulerAction::Scan <==> event == SchedulerEvent::IntervalElapsed
            || event == SchedulerEvent::Triggered,
        action_for(event) == SchedulerAction::Wait <==> event == SchedulerEvent::ScanEnded,
{
}

} // verus!
