use yfp::app::{ConfirmAnswer, FreeSpaceSource, Screen, UiUpdate, YfpApp};
use yfp::engine::config::{OverwritePattern, WipeConfig, WipeTargetInfo};
use yfp::engine::wipe_engine::{WipeProgress, WipeState};
use yfp::tray::{command_for_menu_event, TrayCommand};

fn drive(letter: &str, free: u64) -> WipeTargetInfo {
    WipeTargetInfo {
        label: format!("Local Disk ({letter}:)"),
        root_path: format!("{letter}:\\"),
        total_bytes: 1000,
        free_bytes: free,
        is_removable: false,
    }
}

fn progress(written: u64) -> WipeProgress {
    WipeProgress { bytes_written_total: written, bytes_target: 100, current_write_speed_bytes_per_sec: 0, files_created: 1 }
}

#[test]
fn new_app_starts_on_target_selection() {
    let app = YfpApp::new(vec![drive("C", 10)]);
    assert_eq!(app.screen, Screen::TargetSelection);
    assert_eq!(app.state, WipeState::Idle);
    assert_eq!(app.pattern, OverwritePattern::PseudoRandom);
    assert_eq!(app.status_text(), "Ready");
    assert_eq!(app.custom_folder_button_label(), "Choose a custom folder instead…");
}

#[test]
fn selection_prefers_custom_folder() {
    let mut app = YfpApp::new(vec![drive("C", 10), drive("D", 20)]);
    app.select_drive(1);
    assert_eq!(app.selected_target_root(), Some(("Local Disk (D:)".to_string(), "D:\\".to_string())));
    assert_eq!(app.selected_target_free_bytes(), FreeSpaceSource::Known(20));
    assert!(app.is_drive_selected(1));
    app.drain_folder_picker(Some("E:\\stuff".to_string()));
    assert_eq!(app.selected_target_root(), Some(("E:\\stuff".to_string(), "E:\\stuff".to_string())));
    assert_eq!(app.selected_target_free_bytes(), FreeSpaceSource::QueryFolder("E:\\stuff".to_string()));
    assert!(!app.is_drive_selected(1));
    assert_eq!(app.custom_folder_button_label(), "Custom folder: E:\\stuff");
    app.drain_folder_picker(None);
    assert_eq!(app.custom_folder.as_deref(), Some("E:\\stuff"));
    app.select_drive(0);
    assert!(app.custom_folder.is_none());
}

#[test]
fn no_drive_means_no_target() {
    let app = YfpApp::new(vec![]);
    assert_eq!(app.selected_target_root(), None);
    assert_eq!(app.selected_target_free_bytes(), FreeSpaceSource::Known(0));
    assert!(app.wipe_config(5).is_none());
}

#[test]
fn wipe_config_uses_defaults() {
    let mut app = YfpApp::new(vec![drive("C", 10)]);
    app.pattern = OverwritePattern::ZeroFill;
    let c = app.wipe_config(777).unwrap();
    assert_eq!(c.target.label, "Local Disk (C:)");
    assert_eq!(c.target.root_path, "C:\\");
    assert_eq!(c.target.free_bytes, 777);
    assert_eq!(c.target.total_bytes, 0);
    assert_eq!(c.pattern, OverwritePattern::ZeroFill);
    assert_eq!(c.target_fill_percent, WipeConfig::DEFAULT_FILL_PERCENT);
    assert_eq!(c.chunk_size_bytes, 2048 * 1024 * 1024);
}

#[test]
fn begin_and_reset() {
    let mut app = YfpApp::new(vec![drive("C", 10)]);
    app.begin_wipe(42);
    assert_eq!(app.screen, Screen::Progress);
    assert_eq!(
        app.state,
        WipeState::Running(WipeProgress {
            bytes_written_total: 42,
            bytes_target: 0,
            current_write_speed_bytes_per_sec: 0,
            files_created: 0
        })
    );
    assert!(app.shows_pause_button());
    assert!(!app.shows_resume_button());
    assert!(app.shows_delete_button());
    app.reset_to_idle(vec![drive("C", 5), drive("D", 6)]);
    assert_eq!(app.state, WipeState::Idle);
    assert_eq!(app.screen, Screen::TargetSelection);
    assert_eq!(app.drives.len(), 2);
    assert!(!app.shows_delete_button());
}

#[test]
fn only_latest_updates_are_applied() {
    let mut app = YfpApp::new(vec![drive("C", 10)]);
    app.begin_wipe(0);
    app.drain_updates(vec![
        UiUpdate::Progress(progress(1)),
        UiUpdate::State(WipeState::Paused(progress(1))),
        UiUpdate::Progress(progress(2)),
        UiUpdate::State(WipeState::Running(progress(2))),
        UiUpdate::Progress(progress(3)),
    ]);
    assert_eq!(app.progress, Some(progress(3)));
    assert_eq!(app.state, WipeState::Running(progress(2)));
    app.drain_updates(vec![]);
    assert_eq!(app.progress, Some(progress(3)));
}

#[test]
fn terminal_states_keep_progress_screen() {
    let mut app = YfpApp::new(vec![drive("C", 10)]);
    app.apply_state(WipeState::Cancelled(progress(5)));
    assert_eq!(app.screen, Screen::Progress);
    assert!(app.is_terminal_state());
    assert_eq!(app.status_text(), "Cancelled");
    app.apply_state(WipeState::Failed { message: "boom".to_string(), progress: None });
    assert_eq!(app.status_text(), "Failed: boom");
    // The failure is shown in the status line; no separate error dialog is raised.
    assert!(app.last_error_toast.is_none());
}

#[test]
fn status_lines() {
    let mut app = YfpApp::new(vec![]);
    app.apply_state(WipeState::Running(progress(1)));
    assert_eq!(app.status_text(), "Overwriting free space…");
    app.apply_state(WipeState::Paused(progress(1)));
    assert_eq!(app.status_text(), "Paused");
    assert!(app.shows_resume_button());
    app.apply_state(WipeState::Completed { progress: progress(100), hit_storage_limit: false });
    assert_eq!(app.status_text(), "Wipe complete");
    app.apply_state(WipeState::Completed { progress: progress(50), hit_storage_limit: true });
    assert_eq!(
        app.status_text(),
        "Wipe stopped — storage ran lower than expected. Files written so far are safe to delete below."
    );
}

#[test]
fn start_confirmation_names_target() {
    let app = YfpApp::new(vec![drive("C", 10)]);
    assert_eq!(
        app.start_confirm_message(),
        "YFP will fill up to 90% of free space on Local Disk (C:) with dummy files, then delete them. \
         This can take a while depending on drive speed and size. You can pause or cancel at any time."
    );
}

#[test]
fn tray_menu_ids_map_to_commands() {
    let show = "1".to_string();
    let exit = "2".to_string();
    assert_eq!(command_for_menu_event(&"1".to_string(), &show, &exit), Some(TrayCommand::ShowWindow));
    assert_eq!(command_for_menu_event(&"2".to_string(), &show, &exit), Some(TrayCommand::Exit));
    assert_eq!(command_for_menu_event(&"3".to_string(), &show, &exit), None);
}

#[test]
fn cleanup_idle_tears_down_to_target_selection() {
    let mut app = YfpApp::new(vec![drive("C", 10)]);
    app.begin_wipe(0);
    app.drain_updates(vec![UiUpdate::State(WipeState::Running(progress(3))), UiUpdate::Progress(progress(4))]);
    // A worker's own states never count as a finished cleanup.
    assert!(!app.drain_updates(vec![UiUpdate::State(WipeState::Cancelled(progress(4)))]));
    app.begin_cleanup();
    assert!(app.cleanup_pending);
    assert!(!app.drain_updates(vec![UiUpdate::Progress(progress(4))]));
    assert!(app.drain_updates(vec![UiUpdate::State(WipeState::Idle)]));
    app.reset_to_idle(vec![drive("C", 20)]);
    assert_eq!(app.screen, Screen::TargetSelection);
    assert_eq!(app.state, WipeState::Idle);
    assert!(app.progress.is_none());
    assert!(!app.cleanup_pending);
    assert_eq!(app.drives[0].free_bytes, 20);
}

#[test]
fn confirm_dialogs_open_and_answer() {
    let mut none = YfpApp::new(vec![]);
    assert!(!none.can_start());
    none.request_start();
    assert!(!none.show_start_confirm);

    let mut app = YfpApp::new(vec![drive("C", 10)]);
    assert!(app.can_start());
    // Dismissed, or answered while closed: nothing starts.
    assert!(!app.answer_start_confirm(ConfirmAnswer::Confirmed));
    app.request_start();
    assert!(app.show_start_confirm);
    assert!(!app.answer_start_confirm(ConfirmAnswer::Dismissed));
    assert!(!app.show_start_confirm);
    app.request_start();
    assert!(app.answer_start_confirm(ConfirmAnswer::Confirmed));
    assert!(!app.show_start_confirm);

    // The delete confirmation opens only while the delete button shows.
    app.request_delete();
    assert!(!app.show_delete_confirm);
    app.begin_wipe(0);
    app.request_delete();
    assert!(app.show_delete_confirm);
    assert!(app.answer_delete_confirm(ConfirmAnswer::Confirmed));
    assert!(!app.show_delete_confirm);

    app.last_error_toast = Some("boom".to_string());
    app.dismiss_error();
    assert!(app.last_error_toast.is_none());
}
