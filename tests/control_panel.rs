use patchops::logging::{LogCategory, LogEntry};
use patchops::panel::{Operation, Panel, PanelAction, PanelEvent};
use patchops::t7patch::T7PatchStatus;

fn entry(n: usize) -> LogEntry {
    LogEntry { timestamp: String::new(), category: LogCategory::Info, message: n.to_string() }
}

#[test]
fn one_operation_at_a_time() {
    let mut p = Panel::new("/games/bo3".to_string());
    assert!(matches!(p.update(PanelEvent::InstallPatch), PanelAction::Start(Operation::InstallPatch)));
    assert!(p.busy);
    assert!(matches!(p.update(PanelEvent::InstallDxvk), PanelAction::Nothing));
    assert!(matches!(p.update(PanelEvent::FriendsOnlyToggled(true)), PanelAction::Nothing));
    assert!(p.friends_only);
    match p.update(PanelEvent::Finished(Operation::InstallPatch, Ok(()))) {
        PanelAction::Report(note) => {
            assert_eq!(note.category, LogCategory::Success);
            assert_eq!(note.message, "Installed T7 Patch");
        }
        other => panic!("unexpected {:?}", other),
    }
    assert!(!p.busy);
    assert!(matches!(p.update(PanelEvent::UninstallDxvk), PanelAction::Start(Operation::UninstallDxvk)));
}

#[test]
fn inputs_travel_with_operations() {
    let mut p = Panel::new(String::new());
    p.update(PanelEvent::GamertagChanged("^1Me".to_string()));
    p.update(PanelEvent::PasswordChanged("pw".to_string()));
    match p.update(PanelEvent::UpdateGamertag) {
        PanelAction::Start(Operation::UpdateGamertag(name)) => assert_eq!(name, "^1Me"),
        other => panic!("unexpected {:?}", other),
    }
    match p.update(PanelEvent::Finished(Operation::UpdateGamertag("^1Me".into()), Err("no file".into()))) {
        PanelAction::Report(note) => {
            assert_eq!(note.category, LogCategory::Error);
            assert_eq!(note.message, "no file");
        }
        other => panic!("unexpected {:?}", other),
    }
    match p.update(PanelEvent::UpdatePassword) {
        PanelAction::Start(Operation::UpdatePassword(pw)) => assert_eq!(pw, "pw"),
        other => panic!("unexpected {:?}", other),
    }
    assert!(matches!(p.update(PanelEvent::SaveGameDir), PanelAction::SaveGameDir));
}

#[test]
fn log_keeps_last_five_hundred() {
    let mut p = Panel::new(String::new());
    for n in 0..502 {
        p.update(PanelEvent::LogReceived(entry(n)));
    }
    assert_eq!(p.log_entries.len(), 500);
    assert_eq!(p.log_entries[0].message, "2");
    assert_eq!(p.log_entries[499].message, "501");
}

#[test]
fn refresh_shows_patch_status() {
    let mut p = Panel::new(String::new());
    p.update(PanelEvent::GamertagChanged("typed".to_string()));
    let status = T7PatchStatus {
        gamertag: Some("^2Slayer".into()),
        plain_name: Some("Slayer".into()),
        color_code: Some("^2".into()),
        password: None,
        friends_only: Some(true),
    };
    p.refresh(Some(status), true);
    assert_eq!(p.t7_status, "^2Slayer");
    assert_eq!(p.gamertag_input, "Slayer");
    assert!(p.friends_only && p.dxvk_installed);
    p.refresh(Some(T7PatchStatus::default()), false);
    assert_eq!(p.t7_status, "T7 Patch not detected");
    assert_eq!(p.gamertag_input, "Slayer");
    p.refresh(None, false);
    assert_eq!(p.t7_status, "Unable to read t7patch.conf");
}
