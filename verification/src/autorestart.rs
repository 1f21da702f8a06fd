//! Detecting that the configuration file or the daemon's own program has
//! changed on disk, so that the daemon can start itself anew.

use crate::s5ci_config::s5AutorestartConfig;
use vstd::prelude::*;

verus! {

/// For how many seconds a change of a file is left to settle before it
/// counts.
pub const RESTART_DEBOUNCE_SECS: u64 = 10;

/// When a file was last modified: seconds and nanoseconds since the epoch.
#[derive(Debug, Clone, Copy, PartialEq, Eq, Structural)]
pub struct FileTime {
    pub secs: u64,
    pub nanos: u32,
}

impl FileTime {
    /// The time in nanoseconds since the epoch.
    pub open spec fn spec_nanos(&self) -> int {
        self.secs * 1_000_000_000 + self.nanos
    }
}

/// The modification times recorded when the daemon started; `None` for a
/// file whose time could not be read.
#[derive(Debug, Clone, Copy, PartialEq, Eq, Structural)]
pub struct AutorestartState {
    pub config_mtime: Option<FileTime>,
    pub exe_mtime: Option<FileTime>,
}

/// Whether a file has changed since a recorded time: its modification time
/// now is more than `RESTART_DEBOUNCE_SECS` later.  Where either time is
/// unknown the file counts as unchanged.
pub open spec fn spec_file_changed_since(new_mtime: Option<FileTime>, since: Option<FileTime>) -> bool {
    match (since, new_mtime) {
        (Some(old_t), Some(new_t)) => new_t.spec_nanos() - old_t.spec_nanos()
            > RESTART_DEBOUNCE_SECS * 1_000_000_000,
        _ => false,
    }
}

pub fn file_changed_since(new_mtime: Option<FileTime>, since: Option<FileTime>) -> (changed: bool)
    ensures
        changed == spec_file_changed_since(new_mtime, since),
{
    match (since, new_mtime) {
        (Some(old_t), Some(new_t)) => {
            let old_nanos: u128 = (old_t.secs as u128) * 1_000_000_000 + (old_t.nanos as u128);
            let new_nanos: u128 = (new_t.secs as u128) * 1_000_000_000 + (new_t.nanos as u128);
            new_nanos > old_nanos + (RESTART_DEBOUNCE_SECS as u128) * 1_000_000_000
        },
        _ => false,
    }
}

/// Records the modification times of the configuration file and of the
/// daemon's program, as read at startup.
pub fn autorestart_init(config_mtime: Option<FileTime>, exe_mtime: Option<FileTime>) -> (state:
    AutorestartState)
    ensures
        state == (AutorestartState { config_mtime, exe_mtime }),
{
    AutorestartState { config_mtime, exe_mtime }
}

/// Why the daemon is to start itself anew.
#[derive(Debug, Clone, Copy, PartialEq, Eq, Structural)]
pub enum RestartReason {
    ConfigChanged,
    ExeChanged,
}

/// Whether to restart: for a changed configuration file if the
/// configuration asks for that, else for a changed program if it asks for
/// that, else not.
pub open spec fn spec_autorestart_check(
    config: s5AutorestartConfig,
    ars: AutorestartState,
    config_mtime: Option<FileTime>,
    exe_mtime: Option<FileTime>,
) -> Option<RestartReason> {
    if config.on_config_change && spec_file_changed_since(config_mtime, ars.config_mtime) {
        Some(RestartReason::ConfigChanged)
    } else if config.on_exe_change && spec_file_changed_since(exe_mtime, ars.exe_mtime) {
        Some(RestartReason::ExeChanged)
    } else {
        None
    }
}

/// Decides, once per round of the loop, whether the daemon is to replace
/// itself, from the modification times as they are now.
pub fn autorestart_check(
    config: &s5AutorestartConfig,
    ars: &AutorestartState,
    config_mtime: Option<FileTime>,
    exe_mtime: Option<FileTime>,
) -> (restart: Option<RestartReason>)
    ensures
        restart == spec_autorestart_check(*config, *ars, config_mtime, exe_mtime),
{
    if config.on_config_change && file_changed_since(config_mtime, ars.config_mtime) {
        Some(RestartReason::ConfigChanged)
    } else if config.on_exe_change && file_changed_since(exe_mtime, ars.exe_mtime) {
        Some(RestartReason::ExeChanged)
    } else {
        None
    }
}

/// A file whose time has not moved, or has moved back, never counts as
/// changed; nor does any file while the daemon is not set to watch it.
pub proof fn lemma_unchanged_files_never_restart(
    config: s5AutorestartConfig,
    ars: AutorestartState,
    config_mtime: Option<FileTime>,
    exe_mtime: Option<FileTime>,
)
    ensures
        (!config.on_config_change && !config.on_exe_change) ==> spec_autorestart_check(
            config,
            ars,
            config_mtime,
            exe_mtime,
        ).is_none(),
        spec_autorestart_check(config, ars, ars.config_mtime, ars.exe_mtime).is_none(),
        forall|t: FileTime, u: FileTime|
            u.spec_nanos() <= t.spec_nanos() ==> !spec_file_changed_since(Some(u), Some(t)),
{
}

} // verus!
