//! A feature switched on or off by renaming a file to and from a backup
//! name beside it.

use vstd::prelude::*;

use crate::logging::LogCategory;

verus! {

/// Which of the file and its backup are present.
#[derive(Debug, Clone, Copy, PartialEq, Eq, Structural)]
pub enum ToggleState {
    /// The file is there (whatever the backup).
    Active,
    /// Only the backup is there.
    Disabled,
    /// Neither is there.
    Unknown,
}

pub open spec fn state_of(primary_exists: bool, backup_exists: bool) -> ToggleState {
    if primary_exists {
        ToggleState::Active
    } else if backup_exists {
        ToggleState::Disabled
    } else {
        ToggleState::Unknown
    }
}

/// The state that the presence of the two files gives.
pub fn toggle_state(primary_exists: bool, backup_exists: bool) -> (r: ToggleState)
    ensures
        r == state_of(primary_exists, backup_exists),
{
    if primary_exists {
        ToggleState::Active
    } else if backup_exists {
        ToggleState::Disabled
    } else {
        ToggleState::Unknown
    }
}

/// A rename between the file and its backup.
#[derive(Debug, Clone, Copy, PartialEq, Eq, Structural)]
pub enum Rename {
    PrimaryToBackup,
    BackupToPrimary,
}

/// How a toggle went.
#[derive(Debug, Clone, Copy, PartialEq, Eq, Structural)]
pub enum ToggleOutcome {
    /// The rename was made.
    Renamed,
    /// Enabling found the backup alone: nothing to do.
    AlreadyEnabled,
    /// Enabling found neither file.
    PrimaryMissing,
    /// Disabling found no backup.
    BackupMissing,
}

/// What to do for a toggle: the rename to make, if any, and how to report it.
#[derive(Debug, Clone, Copy, PartialEq, Eq, Structural)]
pub struct ToggleStep {
    pub rename: Option<Rename>,
    pub outcome: ToggleOutcome,
}

pub open spec fn step_for(state: ToggleState, enable: bool) -> ToggleStep {
    if enable {
        match state {
            ToggleState::Active => ToggleStep {
                rename: Some(Rename::PrimaryToBackup),
                outcome: ToggleOutcome::Renamed,
            },
            ToggleState::Disabled => ToggleStep { rename: None, outcome: ToggleOutcome::AlreadyEnabled },
            ToggleState::Unknown => ToggleStep { rename: None, outcome: ToggleOutcome::PrimaryMissing },
        }
    } else {
        match state {
            ToggleState::Disabled => ToggleStep {
                rename: Some(Rename::BackupToPrimary),
                outcome: ToggleOutcome::Renamed,
            },
            _ => ToggleStep { rename: None, outcome: ToggleOutcome::BackupMissing },
        }
    }
}

/// Enabling moves the file to its backup name; disabling moves the backup
/// back. A missing file in either direction is reported, never an error.
pub fn toggle_step(state: ToggleState, enable: bool) -> (r: ToggleStep)
    ensures
        r == step_for(state, enable),
{
    if enable {
        match state {
            ToggleState::Active => ToggleStep {
                rename: Some(Rename::PrimaryToBackup),
                outcome: ToggleOutcome::Renamed,
            },
            ToggleState::Disabled => ToggleStep { rename: None, outcome: ToggleOutcome::AlreadyEnabled },
            ToggleState::Unknown => ToggleStep { rename: None, outcome: ToggleOutcome::PrimaryMissing },
        }
    } else {
        match state {
            ToggleState::Disabled => ToggleStep {
                rename: Some(Rename::BackupToPrimary),
                outcome: ToggleOutcome::Renamed,
            },
            _ => ToggleStep { rename: None, outcome: ToggleOutcome::BackupMissing },
        }
    }
}

pub open spec fn outcome_category(o: ToggleOutcome) -> LogCategory {
    match o {
        ToggleOutcome::Renamed => LogCategory::Success,
        ToggleOutcome::AlreadyEnabled => LogCategory::Info,
        _ => LogCategory::Warning,
    }
}

impl ToggleOutcome {
    /// The category the outcome is logged under.
    pub fn category(self) -> (r: LogCategory)
        ensures
            r == outcome_category(self),
    {
        match self {
            ToggleOutcome::Renamed => LogCategory::Success,
            ToggleOutcome::AlreadyEnabled => LogCategory::Info,
            _ => LogCategory::Warning,
        }
    }
}

/// The files present, as (file, backup), after a rename succeeded.
pub open spec fn after_rename(files: (bool, bool), rename: Option<Rename>) -> (bool, bool) {
    match rename {
        Some(Rename::PrimaryToBackup) => (false, true),
        Some(Rename::BackupToPrimary) => (true, false),
        None => files,
    }
}

/// Enabling when neither file is there warns and touches nothing.
pub proof fn enable_unknown_warns()
    ensures
        ({
            let step = step_for(state_of(false, false), true);
            &&& step.rename is None
            &&& outcome_category(step.outcome) == LogCategory::Warning
            &&& after_rename((false, false), step.rename) == (false, false)
        }),
{
}

/// Enabling from the active layout and then disabling brings the starting
/// layout back.
pub proof fn enable_then_disable_restores()
    ensures
        ({
            let start = (true, false);
            let on = after_rename(start, step_for(state_of(start.0, start.1), true).rename);
            let off = after_rename(on, step_for(state_of(on.0, on.1), false).rename);
            off == start
        }),
{
}

/// The file whose absence reduces stutter, and its backup name.
pub const STUTTER_DLL: &'static str = "d3dcompiler_46.dll";

pub const STUTTER_DLL_BACKUP: &'static str = "d3dcompiler_46.dll.bak";

/// The step for the stutter-reduction toggle, from which of the compiler
/// file and its backup exist.
pub fn toggle_stutter_reduction(dll_exists: bool, backup_exists: bool, enable: bool) -> (r: ToggleStep)
    ensures
        r == step_for(state_of(dll_exists, backup_exists), enable),
{
    toggle_step(toggle_state(dll_exists, backup_exists), enable)
}

/// The message logged for a step of the stutter-reduction toggle.
pub fn stutter_message(step: ToggleStep) -> (r: &'static str)
    ensures
        step.outcome == ToggleOutcome::Renamed && step.rename == Some(Rename::PrimaryToBackup)
            ==> r@ == "Renamed d3dcompiler_46.dll to reduce stuttering"@,
        step.outcome == ToggleOutcome::Renamed && step.rename != Some(Rename::PrimaryToBackup)
            ==> r@ == "Restored d3dcompiler_46.dll"@,
        step.outcome == ToggleOutcome::AlreadyEnabled ==> r@ == "Stutter reduction already enabled"@,
        step.outcome == ToggleOutcome::PrimaryMissing ==> r@ == "d3dcompiler_46.dll not found"@,
        step.outcome == ToggleOutcome::BackupMissing ==> r@ == "Backup not found to restore"@,
{
    match step.outcome {
        ToggleOutcome::Renamed => match step.rename {
            Some(Rename::PrimaryToBackup) => "Renamed d3dcompiler_46.dll to reduce stuttering",
            _ => "Restored d3dcompiler_46.dll",
        },
        ToggleOutcome::AlreadyEnabled => "Stutter reduction already enabled",
        ToggleOutcome::PrimaryMissing => "d3dcompiler_46.dll not found",
        ToggleOutcome::BackupMissing => "Backup not found to restore",
    }
}

} // verus!
