use memx::update_flow::{
    initial_update_phase, release_fetched, replace_steps, staging_path, update_step,
    windows_replace_script, FileStep, UpdateAction, UpdateEvent, UpdateFailure, UpdatePhase,
    UpdateResult,
};
use memx::updater::normalize_tag;

fn run(events: &[UpdateEvent]) -> Vec<UpdateAction> {
    let mut phase = initial_update_phase();
    let mut actions = Vec::new();
    for event in events {
        let (next, action) = update_step(phase, *event);
        phase = next;
        actions.push(action);
    }
    actions
}

#[test]
fn up_to_date_release_ends_the_update() {
    assert_eq!(
        run(&[UpdateEvent::ReleaseFetched { newer: false }]),
        vec![UpdateAction::Finish(UpdateResult::UpToDate)]
    );
}

#[test]
fn installed_service_is_stopped_replaced_and_restarted() {
    assert_eq!(
        run(&[
            UpdateEvent::ReleaseFetched { newer: true },
            UpdateEvent::Prepared,
            UpdateEvent::ServiceChecked { installed: true },
            UpdateEvent::ServiceStopped { ok: true },
            UpdateEvent::Replaced { scheduled: false },
            UpdateEvent::ServiceStarted { ok: true },
        ]),
        vec![
            UpdateAction::Prepare,
            UpdateAction::CheckService,
            UpdateAction::StopService,
            UpdateAction::Replace { restart_service: true },
            UpdateAction::StartService,
            UpdateAction::Finish(UpdateResult::Updated { restarted_service: true }),
        ]
    );
}

#[test]
fn failed_replacement_restarts_a_stopped_service_and_fails() {
    let actions = run(&[
        UpdateEvent::ReleaseFetched { newer: true },
        UpdateEvent::Prepared,
        UpdateEvent::ServiceChecked { installed: true },
        UpdateEvent::ServiceStopped { ok: true },
        UpdateEvent::ReplaceFailed,
        UpdateEvent::ServiceStarted { ok: true },
    ]);
    assert_eq!(actions[4], UpdateAction::StartService);
    assert_eq!(actions[5], UpdateAction::Fail(UpdateFailure::ReplaceFailed));
}

#[test]
fn failed_replacement_without_service_fails_at_once() {
    let actions = run(&[
        UpdateEvent::ReleaseFetched { newer: true },
        UpdateEvent::Prepared,
        UpdateEvent::ServiceChecked { installed: false },
        UpdateEvent::ReplaceFailed,
    ]);
    assert_eq!(actions[2], UpdateAction::Replace { restart_service: false });
    assert_eq!(actions[3], UpdateAction::Fail(UpdateFailure::ReplaceFailed));
}

#[test]
fn scheduled_replacement_leaves_restart_to_the_script() {
    let actions = run(&[
        UpdateEvent::ReleaseFetched { newer: true },
        UpdateEvent::Prepared,
        UpdateEvent::ServiceChecked { installed: true },
        UpdateEvent::ServiceStopped { ok: false },
        UpdateEvent::Replaced { scheduled: true },
    ]);
    assert_eq!(actions[4], UpdateAction::Finish(UpdateResult::Scheduled { restarted_service: true }));
}

#[test]
fn restart_failure_after_replacement_is_reported() {
    let (phase, action) = update_step(UpdatePhase::RestartingService, UpdateEvent::ServiceStarted { ok: false });
    assert_eq!(phase, UpdatePhase::Finished);
    assert_eq!(action, UpdateAction::Fail(UpdateFailure::RestartFailed));
}

#[test]
fn a_failed_step_ends_the_update() {
    let (phase, action) = update_step(UpdatePhase::Preparing, UpdateEvent::Failed);
    assert_eq!(phase, UpdatePhase::Finished);
    assert_eq!(action, UpdateAction::Fail(UpdateFailure::StepFailed));
}

#[test]
fn newer_release_is_told_by_semver_precedence() {
    let current = normalize_tag("1.2.3").unwrap();
    assert_eq!(release_fetched(&normalize_tag("v1.3.0").unwrap(), &current), UpdateEvent::ReleaseFetched { newer: true });
    assert_eq!(release_fetched(&normalize_tag("1.2.3").unwrap(), &current), UpdateEvent::ReleaseFetched { newer: false });
    assert_eq!(release_fetched(&normalize_tag("1.2.3-rc.1").unwrap(), &current), UpdateEvent::ReleaseFetched { newer: false });
}

#[test]
fn unix_replacement_stages_backs_up_and_moves() {
    assert_eq!(staging_path("/usr/local/bin/memx", false), "/usr/local/bin/memx.new");
    let steps = replace_steps("/usr/local/bin/memx", "/tmp/x/memx", false);
    assert_eq!(
        steps,
        vec![
            FileStep::RemoveIfExists { path: "/usr/local/bin/memx.bak".to_string() },
            FileStep::RemoveIfExists { path: "/usr/local/bin/memx.new".to_string() },
            FileStep::Copy { from: "/tmp/x/memx".to_string(), to: "/usr/local/bin/memx.new".to_string() },
            FileStep::MakeExecutable { path: "/usr/local/bin/memx.new".to_string() },
            FileStep::MoveIfExists { from: "/usr/local/bin/memx".to_string(), to: "/usr/local/bin/memx.bak".to_string() },
            FileStep::MoveOrRestore {
                from: "/usr/local/bin/memx.new".to_string(),
                to: "/usr/local/bin/memx".to_string(),
                restore_from: "/usr/local/bin/memx.bak".to_string(),
            },
        ]
    );
}

#[test]
fn windows_script_moves_binary_and_restarts_when_asked() {
    let script = windows_replace_script(r"C:\bin\memx.exe", r"C:\tmp\memx.exe", true);
    assert!(script.starts_with("@echo off\r\n"));
    assert!(script.contains("move /y \"C:\\tmp\\memx.exe\" \"C:\\bin\\memx.exe\" >NUL\r\n"));
    assert!(script.contains("schtasks /Run /TN MemX >NUL 2>&1"));
    let quiet = windows_replace_script(r"C:\bin\memx.exe", r"C:\tmp\memx.exe", false);
    assert!(!quiet.contains("schtasks"));
    assert!(quiet.ends_with("del /f /q \"%~f0\" >NUL 2>&1\r\n"));
}

#[test]
fn staging_and_backup_never_name_the_binary() {
    for current in ["/usr/local/bin/memx", "/opt/memx/memx.exe", "/opt/memx/memx/"] {
        let steps = replace_steps(current, "/tmp/new", false);
        let staging = staging_path(current, false);
        let backup = memx::updater::backup_path(current, false);
        assert_ne!(staging, current);
        assert_ne!(backup, current);
        assert_ne!(staging, backup);
        assert_eq!(steps.len(), 6);
    }
    assert_eq!(staging_path("/opt/memx/memx.exe", false), "/opt/memx/memx.new");
}

#[test]
fn only_a_newer_release_goes_on_to_be_installed() {
    let current = normalize_tag("v0.4.2").unwrap();
    let newer = release_fetched(&normalize_tag("v0.5.0").unwrap(), &current);
    assert_eq!(update_step(UpdatePhase::Fetching, newer), (UpdatePhase::Preparing, UpdateAction::Prepare));
    let older = release_fetched(&normalize_tag("v0.4.1").unwrap(), &current);
    assert_eq!(
        update_step(UpdatePhase::Fetching, older),
        (UpdatePhase::Finished, UpdateAction::Finish(UpdateResult::UpToDate))
    );
    let same = release_fetched(&normalize_tag("0.4.2").unwrap(), &current);
    assert_eq!(
        update_step(UpdatePhase::Fetching, same),
        (UpdatePhase::Finished, UpdateAction::Finish(UpdateResult::UpToDate))
    );
}
