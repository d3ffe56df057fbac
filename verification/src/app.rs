//! The application's screen state and the decisions its UI makes: which
//! target is selected, what a run's configuration is, how worker updates
//! are folded in, and what the status line and buttons show. Drawing,
//! threads and channels belong to the window layer that owns a `YfpApp`.

use crate::engine::config::{OverwritePattern, WipeConfig, WipeTargetInfo};
use crate::util::text::{decimal, push_decimal};
use crate::engine::wipe_engine::{WipeProgress, WipeState};
use vstd::prelude::*;

verus! {

/// Which screen is showing.
#[derive(Debug, Clone, Copy, PartialEq, Eq, Structural)]
pub enum Screen {
    TargetSelection,
    Progress,
}

/// A message from the background worker to the UI.
#[derive(Debug, Clone, PartialEq)]
pub enum UiUpdate {
    Progress(WipeProgress),
    State(WipeState),
}

/// What the user clicked in a confirmation dialog.
#[derive(Debug, Clone, Copy, PartialEq, Eq, Structural)]
pub enum ConfirmAnswer {
    Confirmed,
    Dismissed,
}

/// Where the free space of the selected target comes from.
#[derive(Debug, Clone, PartialEq, Eq)]
pub enum FreeSpaceSource {
    /// The figure recorded when the drive list was read.
    Known(u64),
    /// A custom folder: its volume has to be queried live.
    QueryFolder(String),
}

pub struct YfpApp {
    pub drives: Vec<WipeTargetInfo>,
    pub selected_drive_index: usize,
    /// A user-picked folder; takes precedence over the selected drive.
    pub custom_folder: Option<String>,
    pub pattern: OverwritePattern,
    pub screen: Screen,
    pub state: WipeState,
    pub progress: Option<WipeProgress>,
    pub show_start_confirm: bool,
    pub show_delete_confirm: bool,
    pub last_error_toast: Option<String>,
    /// Set while the dummy files are being deleted after "Cancel & Delete";
    /// the cleanup's `Idle` then tears the window down to target selection.
    pub cleanup_pending: bool,
}

pub open spec fn is_terminal(s: WipeState) -> bool {
    match s {
        WipeState::Completed { .. } | WipeState::Cancelled(_) | WipeState::Failed { .. } => true,
        _ => false,
    }
}

/// The last progress snapshot in a batch of updates.
pub open spec fn last_progress(updates: Seq<UiUpdate>) -> Option<WipeProgress>
    decreases updates.len(),
{
    if updates.len() == 0 {
        None
    } else {
        match updates.last() {
            UiUpdate::Progress(p) => Some(p),
            UiUpdate::State(_) => last_progress(updates.drop_last()),
        }
    }
}

/// The last state in a batch of updates.
pub open spec fn last_state(updates: Seq<UiUpdate>) -> Option<WipeState>
    decreases updates.len(),
{
    if updates.len() == 0 {
        None
    } else {
        match updates.last() {
            UiUpdate::State(s) => Some(s),
            UiUpdate::Progress(_) => last_state(updates.drop_last()),
        }
    }
}

pub open spec fn running_text() -> Seq<char> {
    "Overwriting free space…"@
}

pub open spec fn storage_limit_text() -> Seq<char> {
    "Wipe stopped — storage ran lower than expected. Files written so far are safe to delete below."@
}

/// The status line for a run state.
pub open spec fn status_of(s: WipeState) -> Seq<char> {
    match s {
        WipeState::Idle => "Ready"@,
        WipeState::Running(_) => running_text(),
        WipeState::Paused(_) => "Paused"@,
        WipeState::Completed { hit_storage_limit, .. } => if hit_storage_limit {
            storage_limit_text()
        } else {
            "Wipe complete"@
        },
        WipeState::Cancelled(_) => "Cancelled"@,
        WipeState::Failed { message, .. } => "Failed: "@ + message@,
    }
}

pub open spec fn start_message_head() -> Seq<char> {
    "YFP will fill up to "@
}

pub open spec fn start_message_mid() -> Seq<char> {
    "% of free space on "@
}

pub open spec fn start_message_tail() -> Seq<char> {
    " with dummy files, then delete them. This can take a while depending on drive speed and size. You can pause or cancel at any time."@
}

impl YfpApp {
    /// Label and root of the selected target: the custom folder when one
    /// was picked, else the selected drive, if that index exists.
    pub open spec fn selected_target(&self) -> Option<(Seq<char>, Seq<char>)> {
        match self.custom_folder {
            Some(f) => Some((f@, f@)),
            None => if self.selected_drive_index < self.drives@.len() {
                let d = self.drives@[self.selected_drive_index as int];
                Some((d.label@, d.root_path@))
            } else {
                None
            },
        }
    }

    /// A fresh window over the drives found at startup.
    pub fn new(drives: Vec<WipeTargetInfo>) -> (r: Self)
        ensures
            r.drives == drives,
            r.selected_drive_index == 0,
            r.custom_folder is None,
            r.pattern == OverwritePattern::PseudoRandom,
            r.screen == Screen::TargetSelection,
            r.state == WipeState::Idle,
            r.progress is None,
            !r.show_start_confirm,
            !r.show_delete_confirm,
            r.last_error_toast is None,
            !r.cleanup_pending,
    {
        YfpApp {
            drives,
            selected_drive_index: 0,
            custom_folder: None,
            pattern: OverwritePattern::PseudoRandom,
            screen: Screen::TargetSelection,
            state: WipeState::Idle,
            progress: None,
            show_start_confirm: false,
            show_delete_confirm: false,
            last_error_toast: None,
            cleanup_pending: false,
        }
    }

    /// Label and root path of the selected target.
    pub fn selected_target_root(&self) -> (r: Option<(String, String)>)
        ensures
            match (r, self.selected_target()) {
                (Some((l, p)), Some((sl, sp))) => l@ == sl && p@ == sp,
                (None, None) => true,
                _ => false,
            },
    {
        match &self.custom_folder {
            Some(folder) => Some((folder.clone(), folder.clone())),
            None => {
                if self.selected_drive_index < self.drives.len() {
                    let d = &self.drives[self.selected_drive_index];
                    Some((d.label.clone(), d.root_path.clone()))
                } else {
                    None
                }
            },
        }
    }

    /// Free space of the selected target: the recorded figure of the
    /// selected drive (0 when no drive is selected), or the custom folder
    /// to query.
    pub fn selected_target_free_bytes(&self) -> (r: FreeSpaceSource)
        ensures
            match self.custom_folder {
                Some(f) => r matches FreeSpaceSource::QueryFolder(q) && q@ == f@,
                None => r == FreeSpaceSource::Known(
                    if self.selected_drive_index < self.drives@.len() {
                        self.drives@[self.selected_drive_index as int].free_bytes
                    } else {
                        0
                    },
                ),
            },
    {
        match &self.custom_folder {
            Some(folder) => FreeSpaceSource::QueryFolder(folder.clone()),
            None => {
                if self.selected_drive_index < self.drives.len() {
                    FreeSpaceSource::Known(self.drives[self.selected_drive_index].free_bytes)
                } else {
                    FreeSpaceSource::Known(0)
                }
            },
        }
    }

    /// Records a new run state. Terminal states keep the progress screen
    /// showing so the result and the delete action stay visible.
    pub fn apply_state(&mut self, state: WipeState)
        ensures
            *final(self) == (YfpApp {
                state,
                screen: if is_terminal(state) { Screen::Progress } else { old(self).screen },
                ..*old(self)
            }),
    {
        match &state {
            WipeState::Completed { .. } | WipeState::Cancelled(_) | WipeState::Failed { .. } => {
                self.screen = Screen::Progress;
            },
            _ => {},
        }
        self.state = state;
    }

    /// Folds in every update drained from the worker's queue at once: only
    /// the latest progress snapshot and the latest state matter for what
    /// is shown. Returns whether a pending cleanup has finished (its `Idle`
    /// arrived): the window is then torn down with `reset_to_idle`.
    pub fn drain_updates(&mut self, updates: Vec<UiUpdate>) -> (cleaned_up: bool)
        ensures
            cleaned_up == (old(self).cleanup_pending && last_state(updates@) == Some(WipeState::Idle)),
            final(self).progress == match last_progress(updates@) {
                Some(p) => Some(p),
                None => old(self).progress,
            },
            match last_state(updates@) {
                Some(s) => final(self).state == s && final(self).screen == if is_terminal(s) {
                    Screen::Progress
                } else {
                    old(self).screen
                },
                None => final(self).state == old(self).state && final(self).screen == old(self).screen,
            },
            *final(self) == (YfpApp {
                progress: final(self).progress,
                state: final(self).state,
                screen: final(self).screen,
                ..*old(self)
            }),
    {
        let mut rest = updates;
        let mut latest_progress: Option<WipeProgress> = None;
        let mut latest_state: Option<WipeState> = None;
        while rest.len() > 0
            invariant
                last_progress(updates@) == match latest_progress {
                    Some(p) => Some(p),
                    None => last_progress(rest@),
                },
                last_state(updates@) == match latest_state {
                    Some(s) => Some(s),
                    None => last_state(rest@),
                },
            decreases rest@.len(),
        {
            let ghost before = rest@;
            let u = rest.pop().unwrap();
            proof {
                assert(rest@ =~= before.drop_last());
            }
            match u {
                UiUpdate::Progress(p) => {
                    if latest_progress.is_none() {
                        latest_progress = Some(p);
                    }
                },
                UiUpdate::State(s) => {
                    if latest_state.is_none() {
                        latest_state = Some(s);
                    }
                },
            }
        }
        if let Some(p) = latest_progress {
            self.progress = Some(p);
        }
        let mut cleaned_up = false;
        if let Some(s) = latest_state {
            if let WipeState::Idle = s {
                cleaned_up = self.cleanup_pending;
            }
            self.apply_state(s);
        }
        cleaned_up
    }

    /// "Cancel & Delete" has started deleting the dummy files.
    pub fn begin_cleanup(&mut self)
        ensures
            *final(self) == (YfpApp { cleanup_pending: true, ..*old(self) }),
    {
        self.cleanup_pending = true;
    }

    /// Takes the folder picker's answer: a picked folder becomes the
    /// target, a closed dialog changes nothing.
    pub fn drain_folder_picker(&mut self, picked: Option<String>)
        ensures
            *final(self) == (YfpApp {
                custom_folder: match picked {
                    Some(f) => Some(f),
                    None => old(self).custom_folder,
                },
                ..*old(self)
            }),
    {
        if let Some(folder) = picked {
            self.custom_folder = Some(folder);
        }
    }

    /// Configuration of a run over the selected target with `free_bytes`
    /// free, or `None` when no target is selected.
    pub fn wipe_config(&self, free_bytes: u64) -> (r: Option<WipeConfig>)
        ensures
            match (r, self.selected_target()) {
                (Some(c), Some((label, root))) => {
                    &&& c.target.label@ == label
                    &&& c.target.root_path@ == root
                    &&& c.target.total_bytes == 0
                    &&& c.target.free_bytes == free_bytes
                    &&& !c.target.is_removable
                    &&& c.pattern == self.pattern
                    &&& c.target_fill_percent == WipeConfig::DEFAULT_FILL_PERCENT
                    &&& c.chunk_size_bytes == WipeConfig::DEFAULT_CHUNK_MB * 1024 * 1024
                },
                (None, None) => true,
                _ => false,
            },
    {
        match self.selected_target_root() {
            None => None,
            Some((label, root)) => {
                let target = WipeTargetInfo {
                    label,
                    root_path: root,
                    total_bytes: 0,
                    free_bytes,
                    is_removable: false,
                };
                Some(WipeConfig {
                    target,
                    pattern: self.pattern,
                    target_fill_percent: WipeConfig::DEFAULT_FILL_PERCENT,
                    chunk_size_bytes: WipeConfig::DEFAULT_CHUNK_MB * 1024 * 1024,
                })
            },
        }
    }

    /// Switches to the progress screen for a run that starts from
    /// `resume_from_bytes` bytes already on disk.
    pub fn begin_wipe(&mut self, resume_from_bytes: u64)
        ensures
            *final(self) == (YfpApp {
                screen: Screen::Progress,
                state: WipeState::Running(
                    WipeProgress {
                        bytes_written_total: resume_from_bytes,
                        bytes_target: 0,
                        current_write_speed_bytes_per_sec: 0,
                        files_created: 0,
                    },
                ),
                ..*old(self)
            }),
    {
        self.screen = Screen::Progress;
        self.state = WipeState::Running(
            WipeProgress {
                bytes_written_total: resume_from_bytes,
                bytes_target: 0,
                current_write_speed_bytes_per_sec: 0,
                files_created: 0,
            },
        );
    }

    /// Back to target selection with a freshly read drive list; any
    /// cleanup is over.
    pub fn reset_to_idle(&mut self, drives: Vec<WipeTargetInfo>)
        ensures
            *final(self) == (YfpApp {
                state: WipeState::Idle,
                progress: None,
                screen: Screen::TargetSelection,
                drives,
                custom_folder: None,
                cleanup_pending: false,
                ..*old(self)
            }),
    {
        self.cleanup_pending = false;
        self.state = WipeState::Idle;
        self.progress = None;
        self.screen = Screen::TargetSelection;
        self.drives = drives;
        self.custom_folder = None;
    }

    pub fn is_terminal_state(&self) -> (b: bool)
        ensures
            b == is_terminal(self.state),
    {
        match &self.state {
            WipeState::Completed { .. } | WipeState::Cancelled(_) | WipeState::Failed { .. } => true,
            _ => false,
        }
    }

    /// Whether drive `i` shows as selected: only while no custom folder is
    /// picked.
    pub fn is_drive_selected(&self, i: usize) -> (b: bool)
        ensures
            b == (self.custom_folder is None && self.selected_drive_index == i),
    {
        self.custom_folder.is_none() && self.selected_drive_index == i
    }

    /// Selecting a drive drops any custom folder.
    pub fn select_drive(&mut self, i: usize)
        ensures
            *final(self) == (YfpApp { selected_drive_index: i, custom_folder: None, ..*old(self) }),
    {
        self.selected_drive_index = i;
        self.custom_folder = None;
    }

    /// Text of the custom-folder button.
    pub fn custom_folder_button_label(&self) -> (r: String)
        ensures
            r@ == match self.custom_folder {
                Some(f) => "Custom folder: "@ + f@,
                None => "Choose a custom folder instead…"@,
            },
    {
        match &self.custom_folder {
            Some(f) => {
                let mut s = String::from_str("Custom folder: ");
                s.append(f.as_str());
                s
            },
            None => String::from_str("Choose a custom folder instead…"),
        }
    }

    /// The status line of the progress screen.
    pub fn status_text(&self) -> (r: String)
        ensures
            r@ == status_of(self.state),
    {
        match &self.state {
            WipeState::Idle => String::from_str("Ready"),
            WipeState::Running(_) => String::from_str("Overwriting free space…"),
            WipeState::Paused(_) => String::from_str("Paused"),
            WipeState::Completed { hit_storage_limit, .. } => {
                if *hit_storage_limit {
                    String::from_str(
                        "Wipe stopped — storage ran lower than expected. Files written so far are safe to delete below.",
                    )
                } else {
                    String::from_str("Wipe complete")
                }
            },
            WipeState::Cancelled(_) => String::from_str("Cancelled"),
            WipeState::Failed { message, .. } => {
                let mut s = String::from_str("Failed: ");
                s.append(message.as_str());
                s
            },
        }
    }

    /// The Pause button shows while a run is writing.
    pub fn shows_pause_button(&self) -> (b: bool)
        ensures
            b == self.state is Running,
    {
        match &self.state {
            WipeState::Running(_) => true,
            _ => false,
        }
    }

    /// The Resume button shows while a run is paused.
    pub fn shows_resume_button(&self) -> (b: bool)
        ensures
            b == self.state is Paused,
    {
        match &self.state {
            WipeState::Paused(_) => true,
            _ => false,
        }
    }

    /// The delete button shows during a run and after it ended.
    pub fn shows_delete_button(&self) -> (b: bool)
        ensures
            b == (self.state is Running || self.state is Paused || is_terminal(self.state)),
    {
        match &self.state {
            WipeState::Running(_) | WipeState::Paused(_) => true,
            _ => self.is_terminal_state(),
        }
    }

    /// Body of the start confirmation dialog.
    pub fn start_confirm_message(&self) -> (r: String)
        ensures
            r@ == start_message_head() + decimal(WipeConfig::DEFAULT_FILL_PERCENT as nat)
                + start_message_mid() + match self.selected_target() {
                Some((label, _)) => label,
                None => Seq::<char>::empty(),
            } + start_message_tail(),
    {
        let label = match self.selected_target_root() {
            Some((label, _)) => label,
            None => String::new(),
        };
        let mut s = String::from_str("YFP will fill up to ");
        push_decimal(&mut s, WipeConfig::DEFAULT_FILL_PERCENT as u128);
        s.append("% of free space on ");
        s.append(label.as_str());
        s.append(
            " with dummy files, then delete them. This can take a while depending on drive speed and size. You can pause or cancel at any time.",
        );
        s
    }

    /// Whether the Start Wipe button is enabled: a target is selected.
    pub fn can_start(&self) -> (b: bool)
        ensures
            b == self.selected_target() is Some,
    {
        match &self.custom_folder {
            Some(_) => true,
            None => self.selected_drive_index < self.drives.len(),
        }
    }

    /// Clicking Start Wipe opens the start confirmation, when a target is
    /// selected.
    pub fn request_start(&mut self)
        ensures
            *final(self) == (YfpApp {
                show_start_confirm: old(self).show_start_confirm || old(self).selected_target() is Some,
                ..*old(self)
            }),
    {
        if self.can_start() {
            self.show_start_confirm = true;
        }
    }

    /// Answers the start confirmation, which closes; returns whether the
    /// wipe is to start (confirmed while the dialog was open).
    pub fn answer_start_confirm(&mut self, answer: ConfirmAnswer) -> (start: bool)
        ensures
            *final(self) == (YfpApp { show_start_confirm: false, ..*old(self) }),
            start == (old(self).show_start_confirm && answer == ConfirmAnswer::Confirmed),
    {
        let start = self.show_start_confirm && answer == ConfirmAnswer::Confirmed;
        self.show_start_confirm = false;
        start
    }

    /// Clicking Cancel & Delete opens the delete confirmation, while the
    /// delete button shows.
    pub fn request_delete(&mut self)
        ensures
            *final(self) == (YfpApp {
                show_delete_confirm: old(self).show_delete_confirm || old(self).state is Running
                    || old(self).state is Paused || is_terminal(old(self).state),
                ..*old(self)
            }),
    {
        if self.shows_delete_button() {
            self.show_delete_confirm = true;
        }
    }

    /// Answers the delete confirmation, which closes; returns whether to
    /// cancel the run and delete the dummy files.
    pub fn answer_delete_confirm(&mut self, answer: ConfirmAnswer) -> (delete: bool)
        ensures
            *final(self) == (YfpApp { show_delete_confirm: false, ..*old(self) }),
            delete == (old(self).show_delete_confirm && answer == ConfirmAnswer::Confirmed),
    {
        let delete = self.show_delete_confirm && answer == ConfirmAnswer::Confirmed;
        self.show_delete_confirm = false;
        delete
    }

    /// Closes the error dialog.
    pub fn dismiss_error(&mut self)
        ensures
            *final(self) == (YfpApp { last_error_toast: None, ..*old(self) }),
    {
        self.last_error_toast = None;
    }
}

} // verus!
