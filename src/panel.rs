//! The patcher's control panel as a state machine: what each user action or
//! finished operation does to the panel, and which work it starts. At most
//! one operation runs at a time.

use vstd::prelude::*;

use crate::logging::{LogCategory, LogEntry, Note, report_result};
use crate::t7patch::T7PatchStatus;
use crate::text::owned;

verus! {

/// How many log entries the panel keeps.
pub const LOG_CAPACITY: usize = 500;

/// Work that runs in the background.
#[derive(Debug, Clone)]
pub enum Operation {
    InstallPatch,
    UninstallPatch,
    UpdateGamertag(String),
    UpdatePassword(String),
    SetFriendsOnly(bool),
    InstallDxvk,
    UninstallDxvk,
}

pub open spec fn success_message(op: Operation) -> Seq<char> {
    match op {
        Operation::InstallPatch => "Installed T7 Patch"@,
        Operation::UninstallPatch => "Uninstalled T7 Patch"@,
        Operation::UpdateGamertag(_) => "Updated gamertag"@,
        Operation::UpdatePassword(_) => "Updated network password"@,
        Operation::SetFriendsOnly(_) => "Updated friends-only mode"@,
        Operation::InstallDxvk => "Installed DXVK-GPLAsync"@,
        Operation::UninstallDxvk => "Uninstalled DXVK-GPLAsync"@,
    }
}

impl Operation {
    /// What is logged when the operation succeeds.
    pub fn success_message(&self) -> (r: &'static str)
        ensures
            r@ == success_message(*self),
    {
        match self {
            Operation::InstallPatch => "Installed T7 Patch",
            Operation::UninstallPatch => "Uninstalled T7 Patch",
            Operation::UpdateGamertag(_) => "Updated gamertag",
            Operation::UpdatePassword(_) => "Updated network password",
            Operation::SetFriendsOnly(_) => "Updated friends-only mode",
            Operation::InstallDxvk => "Installed DXVK-GPLAsync",
            Operation::UninstallDxvk => "Uninstalled DXVK-GPLAsync",
        }
    }
}

/// What happens to the panel.
#[derive(Debug)]
pub enum PanelEvent {
    GameDirChanged(String),
    SaveGameDir,
    GamertagChanged(String),
    PasswordChanged(String),
    FriendsOnlyToggled(bool),
    InstallPatch,
    UninstallPatch,
    UpdateGamertag,
    UpdatePassword,
    InstallDxvk,
    UninstallDxvk,
    /// A background operation ended.
    Finished(Operation, Result<(), String>),
    LogReceived(LogEntry),
}

/// What the caller has to do after an event.
#[derive(Debug, Clone)]
pub enum PanelAction {
    Nothing,
    /// Store the game directory in the settings, then refresh.
    SaveGameDir,
    /// Run the operation in the background and report back with
    /// `Finished`.
    Start(Operation),
    /// Log the note, then refresh.
    Report(Note),
}

/// The panel's state.
#[derive(Debug, Clone)]
pub struct Panel {
    pub game_dir_input: String,
    pub gamertag_input: String,
    pub password_input: String,
    pub friends_only: bool,
    pub log_entries: Vec<LogEntry>,
    /// An operation is running.
    pub busy: bool,
    pub t7_status: String,
    pub dxvk_installed: bool,
}

/// The last `LOG_CAPACITY` entries of a log.
pub open spec fn capped(entries: Seq<LogEntry>) -> Seq<LogEntry> {
    if entries.len() > LOG_CAPACITY {
        entries.skip(entries.len() - LOG_CAPACITY)
    } else {
        entries
    }
}

/// The event starts `op` unless an operation is running.
pub open spec fn starts(old: Panel, new: Panel, r: PanelAction, op: Operation) -> bool {
    if old.busy {
        new == old && r is Nothing
    } else {
        new == Panel { busy: true, ..old } && r == PanelAction::Start(op)
    }
}

/// The panel after `event`, and the action it asks for.
pub open spec fn stepped(old: Panel, event: PanelEvent, new: Panel, r: PanelAction) -> bool {
    match event {
        PanelEvent::GameDirChanged(v) => new == Panel { game_dir_input: v, ..old } && r is Nothing,
        PanelEvent::SaveGameDir => new == old && r is SaveGameDir,
        PanelEvent::GamertagChanged(v) => new == Panel { gamertag_input: v, ..old } && r is Nothing,
        PanelEvent::PasswordChanged(v) => new == Panel { password_input: v, ..old } && r is Nothing,
        PanelEvent::FriendsOnlyToggled(v) => starts(
            Panel { friends_only: v, ..old },
            new,
            r,
            Operation::SetFriendsOnly(v),
        ),
        PanelEvent::InstallPatch => starts(old, new, r, Operation::InstallPatch),
        PanelEvent::UninstallPatch => starts(old, new, r, Operation::UninstallPatch),
        PanelEvent::UpdateGamertag => starts(old, new, r, Operation::UpdateGamertag(old.gamertag_input)),
        PanelEvent::UpdatePassword => starts(old, new, r, Operation::UpdatePassword(old.password_input)),
        PanelEvent::InstallDxvk => starts(old, new, r, Operation::InstallDxvk),
        PanelEvent::UninstallDxvk => starts(old, new, r, Operation::UninstallDxvk),
        PanelEvent::Finished(op, result) => {
            &&& new == Panel { busy: false, ..old }
            &&& r matches PanelAction::Report(note) && match result {
                Ok(()) => note.category == LogCategory::Success && note.message@ == success_message(op),
                Err(e) => note.category == LogCategory::Error && note.message@ == e@,
            }
        },
        PanelEvent::LogReceived(e) => {
            &&& new == Panel { log_entries: new.log_entries, ..old }
            &&& new.log_entries@ == capped(old.log_entries@.push(e))
            &&& r is Nothing
        },
    }
}

impl Panel {
    /// A fresh panel showing `game_dir`.
    pub fn new(game_dir: String) -> (r: Panel)
        ensures
            r.game_dir_input == game_dir,
            r.gamertag_input@.len() == 0 && r.password_input@.len() == 0 && r.t7_status@.len() == 0,
            !r.friends_only && !r.busy && !r.dxvk_installed,
            r.log_entries@.len() == 0,
    {
        Panel {
            game_dir_input: game_dir,
            gamertag_input: String::new(),
            password_input: String::new(),
            friends_only: false,
            log_entries: Vec::new(),
            busy: false,
            t7_status: String::new(),
            dxvk_installed: false,
        }
    }

    fn start(&mut self, op: Operation) -> (r: PanelAction)
        ensures
            starts(*old(self), *final(self), r, op),
    {
        if self.busy {
            PanelAction::Nothing
        } else {
            self.busy = true;
            PanelAction::Start(op)
        }
    }

    fn push_log(&mut self, entry: LogEntry)
        ensures
            *final(self) == (Panel { log_entries: final(self).log_entries, ..*old(self) }),
            final(self).log_entries@ == capped(old(self).log_entries@.push(entry)),
    {
        let ghost all = self.log_entries@.push(entry);
        self.log_entries.push(entry);
        assert(all.len() == self.log_entries.len());
        let mut dropped: usize = 0;
        while self.log_entries.len() > LOG_CAPACITY
            invariant
                *self == (Panel { log_entries: self.log_entries, ..*old(self) }),
                dropped <= all.len() <= usize::MAX,
                dropped == 0 || all.len() - dropped >= LOG_CAPACITY,
                self.log_entries@ == all.skip(dropped as int),
            decreases self.log_entries.len(),
        {
            self.log_entries.remove(0);
            assert(all.skip(dropped as int).remove(0) =~= all.skip(dropped + 1));
            dropped = dropped + 1;
        }
        assert(self.log_entries@ =~= capped(all));
    }

    /// Applies one event.
    pub fn update(&mut self, event: PanelEvent) -> (r: PanelAction)
        ensures
            stepped(*old(self), event, *final(self), r),
    {
        match event {
            PanelEvent::GameDirChanged(v) => {
                self.game_dir_input = v;
                PanelAction::Nothing
            },
            PanelEvent::SaveGameDir => PanelAction::SaveGameDir,
            PanelEvent::GamertagChanged(v) => {
                self.gamertag_input = v;
                PanelAction::Nothing
            },
            PanelEvent::PasswordChanged(v) => {
                self.password_input = v;
                PanelAction::Nothing
            },
            PanelEvent::FriendsOnlyToggled(v) => {
                self.friends_only = v;
                self.start(Operation::SetFriendsOnly(v))
            },
            PanelEvent::InstallPatch => self.start(Operation::InstallPatch),
            PanelEvent::UninstallPatch => self.start(Operation::UninstallPatch),
            PanelEvent::UpdateGamertag => {
                let name = self.gamertag_input.clone();
                self.start(Operation::UpdateGamertag(name))
            },
            PanelEvent::UpdatePassword => {
                let password = self.password_input.clone();
                self.start(Operation::UpdatePassword(password))
            },
            PanelEvent::InstallDxvk => self.start(Operation::InstallDxvk),
            PanelEvent::UninstallDxvk => self.start(Operation::UninstallDxvk),
            PanelEvent::Finished(op, result) => {
                self.busy = false;
                PanelAction::Report(report_result(result, op.success_message()))
            },
            PanelEvent::LogReceived(entry) => {
                self.push_log(entry);
                PanelAction::Nothing
            },
        }
    }

    /// Shows what the network patch's configuration holds (`None` when it
    /// could not be read) and whether DXVK is installed.
    pub fn refresh(&mut self, status: Option<T7PatchStatus>, dxvk_installed: bool)
        ensures
            final(self).dxvk_installed == dxvk_installed,
            final(self).game_dir_input == old(self).game_dir_input,
            final(self).log_entries == old(self).log_entries,
            final(self).busy == old(self).busy,
            match status {
                Some(s) => {
                    &&& final(self).t7_status@ == match s.gamertag {
                        Some(t) => t@,
                        None => "T7 Patch not detected"@,
                    }
                    &&& final(self).gamertag_input == match s.plain_name {
                        Some(n) => n,
                        None => old(self).gamertag_input,
                    }
                    &&& final(self).password_input == match s.password {
                        Some(p) => p,
                        None => old(self).password_input,
                    }
                    &&& final(self).friends_only == match s.friends_only {
                        Some(f) => f,
                        None => old(self).friends_only,
                    }
                },
                None => {
                    &&& final(self).t7_status@ == "Unable to read t7patch.conf"@
                    &&& final(self).gamertag_input == old(self).gamertag_input
                    &&& final(self).password_input == old(self).password_input
                    &&& final(self).friends_only == old(self).friends_only
                },
            },
    {
        match status {
            Some(s) => {
                self.t7_status = match s.gamertag {
                    Some(t) => t,
                    None => owned("T7 Patch not detected"),
                };
                if let Some(name) = s.plain_name {
                    self.gamertag_input = name;
                }
                if let Some(password) = s.password {
                    self.password_input = password;
                }
                if let Some(flag) = s.friends_only {
                    self.friends_only = flag;
                }
            },
            None => {
                self.t7_status = owned("Unable to read t7patch.conf");
            },
        }
        self.dxvk_installed = dxvk_installed;
    }
}

/// Nothing new starts while an operation runs: every event but a finished
/// operation leaves a busy panel busy and starts no work.
pub proof fn busy_panel_starts_nothing(old: Panel, event: PanelEvent, new: Panel, r: PanelAction)
    requires
        old.busy,
        stepped(old, event, new, r),
        !(event is Finished),
    ensures
        new.busy,
        !(r is Start),
{
}

/// A started operation marks the panel busy.
pub proof fn start_marks_busy(old: Panel, event: PanelEvent, new: Panel, r: PanelAction)
    requires
        stepped(old, event, new, r),
        r is Start,
    ensures
        !old.busy,
        new.busy,
{
}

} // verus!
