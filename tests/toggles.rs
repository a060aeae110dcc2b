use patchops::logging::LogCategory;
use patchops::toggle::{
    stutter_message, toggle_state, toggle_step, toggle_stutter_reduction, Rename, ToggleOutcome, ToggleState,
};

fn apply(files: (bool, bool), rename: Option<Rename>) -> (bool, bool) {
    match rename {
        Some(Rename::PrimaryToBackup) => (false, true),
        Some(Rename::BackupToPrimary) => (true, false),
        None => files,
    }
}

#[test]
fn states_from_files() {
    assert_eq!(toggle_state(true, false), ToggleState::Active);
    assert_eq!(toggle_state(true, true), ToggleState::Active);
    assert_eq!(toggle_state(false, true), ToggleState::Disabled);
    assert_eq!(toggle_state(false, false), ToggleState::Unknown);
}

#[test]
fn enabling_unknown_warns_and_renames_nothing() {
    let step = toggle_stutter_reduction(false, false, true);
    assert_eq!(step.rename, None);
    assert_eq!(step.outcome.category(), LogCategory::Warning);
    assert_eq!(stutter_message(step), "d3dcompiler_46.dll not found");
    assert_eq!(apply((false, false), step.rename), (false, false));
}

#[test]
fn enable_then_disable_round_trip() {
    let start = (true, false);
    let on = toggle_stutter_reduction(start.0, start.1, true);
    assert_eq!(on.rename, Some(Rename::PrimaryToBackup));
    assert_eq!(stutter_message(on), "Renamed d3dcompiler_46.dll to reduce stuttering");
    let mid = apply(start, on.rename);
    let off = toggle_stutter_reduction(mid.0, mid.1, false);
    assert_eq!(off.rename, Some(Rename::BackupToPrimary));
    assert_eq!(stutter_message(off), "Restored d3dcompiler_46.dll");
    assert_eq!(apply(mid, off.rename), start);
}

#[test]
fn already_enabled_and_missing_backup() {
    let step = toggle_step(ToggleState::Disabled, true);
    assert_eq!(step.outcome, ToggleOutcome::AlreadyEnabled);
    assert_eq!(step.outcome.category(), LogCategory::Info);
    assert_eq!(stutter_message(step), "Stutter reduction already enabled");
    for state in [ToggleState::Active, ToggleState::Unknown] {
        let step = toggle_step(state, false);
        assert_eq!(step.rename, None);
        assert_eq!(step.outcome, ToggleOutcome::BackupMissing);
        assert_eq!(stutter_message(step), "Backup not found to restore");
    }
}
