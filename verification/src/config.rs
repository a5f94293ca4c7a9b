use vstd::prelude::*;
use crate::supervisor::Timing;

verus! {

/// Immutable settings, loaded once at startup. All paths are plain strings
/// here; the caller resolves them before the loop starts, so per-tick
/// failures are about transient conditions, not misconfiguration.
pub struct Settings {
    /// Path of the launcher executable used to start the watched process.
    pub launcher_path: String,
    /// Identifier the launcher uses to pick the watched application.
    pub app_id: String,
    /// Path of the save file to snapshot.
    pub save_path: String,
    /// Directory that receives the local backup copies.
    pub backup_dir: String,
    /// Seconds between periodic backups.
    pub backup_interval_secs: u64,
    /// Minutes between periodic full restarts.
    pub restart_interval_mins: u64,
    /// Credential for the remote control channel.
    pub channel_credential: String,
    /// Whether the launch arguments were configured out of band. When this
    /// is false the supervisor must report the required arguments and exit
    /// instead of entering the loop.
    pub launch_configured: bool,
}

/// The largest backup interval, in seconds, whose millisecond value still
/// fits in 64 bits.
pub const MAX_BACKUP_INTERVAL_SECS: u64 = 0xFFFF_FFFF_FFFF_FFFF / 1000;

/// The largest restart interval, in minutes, whose millisecond value still
/// fits in 64 bits.
pub const MAX_RESTART_INTERVAL_MINS: u64 = 0xFFFF_FFFF_FFFF_FFFF / 60000;

/// Convert the configured intervals to the millisecond thresholds the
/// supervisor compares against. Returns nothing exactly when an interval is
/// too large for its millisecond value to be represented.
pub fn timing_of_settings(s: &Settings) -> (r: Option<Timing>)
    ensures
        r is Some <==> s.backup_interval_secs <= MAX_BACKUP_INTERVAL_SECS
            && s.restart_interval_mins <= MAX_RESTART_INTERVAL_MINS,
        r matches Some(t) ==> t.backup_interval_ms == s.backup_interval_secs * 1000
            && t.restart_interval_ms == s.restart_interval_mins * 60000,
{
    if s.backup_interval_secs <= MAX_BACKUP_INTERVAL_SECS && s.restart_interval_mins
        <= MAX_RESTART_INTERVAL_MINS {
        Some(
            Timing {
                backup_interval_ms: s.backup_interval_secs * 1000,
                restart_interval_ms: s.restart_interval_mins * 60000,
            },
        )
    } else {
        None
    }
}

/// The arguments handed to the launcher to start the watched process: an
/// application-launch request for the configured identifier, opening the
/// configured save file.
pub fn launch_args(s: &Settings) -> (r: Vec<String>)
    ensures
        r@.len() == 4,
        r@[0]@ == "-applaunch"@,
        r@[1]@ == s.app_id@,
        r@[2]@ == "-open"@,
        r@[3]@ == s.save_path@,
{
    let mut v: Vec<String> = Vec::new();
    v.push(String::from_str("-applaunch"));
    v.push(String::from_str(s.app_id.as_str()));
    v.push(String::from_str("-open"));
    v.push(String::from_str(s.save_path.as_str()));
    v
}

} // verus!
