use memx::os_service::{
    command_result, install, is_installed, macos_launchctl_target, remove, render_linux_unit, render_macos_plist,
    service_manager_name, start, status, status_report, stop, systemd_escape, windows_task_command,
    xml_escape, InstalledCheck, Platform, ServiceContext, ServiceStep,
};

fn ctx(platform: Platform) -> ServiceContext {
    ServiceContext {
        platform,
        home_dir: "/Users/demo".to_string(),
        launchctl_target: "gui/501".to_string(),
    }
}

fn commands(steps: &[ServiceStep]) -> Vec<String> {
    steps
        .iter()
        .filter_map(|s| match s {
            ServiceStep::Run { command, .. } => Some(format!("{} {}", command.program, command.args.join(" "))),
            _ => None,
        })
        .collect()
}

#[test]
fn linux_unit_contains_binary_and_memx_home() {
    let unit = render_linux_unit("/Users/demo/.local/bin/memx", "/Users/demo/.memx");

    assert!(unit.contains("ExecStart=\"/Users/demo/.local/bin/memx\" serve"));
    assert!(unit.contains("Environment=\"MEMX_HOME=/Users/demo/.memx\""));
}

#[test]
fn macos_plist_contains_binary_and_memx_home() {
    let plist = render_macos_plist("/Users/demo/.local/bin/memx", "/Users/demo/.memx");

    assert!(plist.contains("<string>/Users/demo/.local/bin/memx</string>"));
    assert!(plist.contains("<string>/Users/demo/.memx</string>"));
}

#[test]
fn windows_task_command_contains_binary_and_memx_home() {
    let command = windows_task_command(
        r"C:\Users\demo\AppData\Local\MemX\bin\memx.exe",
        r"C:\Users\demo\.memx",
    );

    assert!(command.contains(r#"MEMX_HOME=C:\Users\demo\.memx"#));
    assert!(command.contains(r#"memx.exe" serve"#));
}

#[test]
fn escapes_quote_and_backslash_for_systemd() {
    assert_eq!(systemd_escape(r#"a"b\c"#), r#"a\"b\\c"#);
}

#[test]
fn escapes_markup_characters_for_plists() {
    assert_eq!(xml_escape("a&b<c>\"d'"), "a&amp;b&lt;c&gt;&quot;d&apos;");
}

#[test]
fn service_manager_names_per_platform() {
    assert_eq!(service_manager_name(Platform::Linux), "systemd --user");
    assert_eq!(service_manager_name(Platform::MacOs), "launchd");
    assert_eq!(service_manager_name(Platform::Windows), "Task Scheduler");
}

#[test]
fn launchctl_target_is_gui_domain_of_user() {
    assert_eq!(macos_launchctl_target("501\n"), "gui/501");
}

#[test]
fn linux_install_writes_unit_then_enables_and_restarts() {
    let steps = install(&ctx(Platform::Linux), "/Users/demo/.local/bin/memx", "/Users/demo/.memx").unwrap();
    match &steps[1] {
        ServiceStep::WriteFile { path, contents } => {
            assert_eq!(path, "/Users/demo/.config/systemd/user/memx.service");
            assert!(contents.contains("ExecStart=\"/Users/demo/.local/bin/memx\" serve"));
        }
        other => panic!("unexpected step {other:?}"),
    }
    assert_eq!(
        commands(&steps),
        vec![
            "systemctl --user daemon-reload".to_string(),
            "systemctl --user enable memx.service".to_string(),
            "systemctl --user restart memx.service".to_string(),
        ]
    );
}

#[test]
fn windows_install_creates_and_runs_the_task() {
    let steps = install(&ctx(Platform::Windows), r"C:\bin\memx.exe", r"C:\home\.memx").unwrap();
    let cmds = commands(&steps);
    assert_eq!(cmds.len(), 2);
    assert!(cmds[0].starts_with("schtasks /Create /TN MemX /SC ONLOGON /TR"));
    assert_eq!(cmds[1], "schtasks /Run /TN MemX");
}

#[test]
fn service_commands_on_unsupported_platform_fail() {
    assert!(install(&ctx(Platform::Other), "/bin/memx", "/home/.memx").is_err());
    assert!(start(&ctx(Platform::Other)).is_err());
    assert!(stop(&ctx(Platform::Other)).is_err());
    assert!(status(&ctx(Platform::Other)).is_err());
    assert!(remove(&ctx(Platform::Other)).is_err());
    assert!(matches!(is_installed(&ctx(Platform::Other)), InstalledCheck::NotSupported));
}

#[test]
fn start_and_stop_on_linux_use_systemctl() {
    assert_eq!(commands(&start(&ctx(Platform::Linux)).unwrap()), vec!["systemctl --user restart memx.service".to_string()]);
    assert_eq!(commands(&stop(&ctx(Platform::Linux)).unwrap()), vec!["systemctl --user stop memx.service".to_string()]);
}

#[test]
fn linux_service_is_installed_when_its_unit_exists() {
    match is_installed(&ctx(Platform::Linux)) {
        InstalledCheck::FileExists { path } => assert_eq!(path, "/Users/demo/.config/systemd/user/memx.service"),
        other => panic!("unexpected check {other:?}"),
    }
}

#[test]
fn blank_status_output_is_reported_as_such() {
    assert_eq!(status_report("  \n"), "Service status returned no output.");
    assert_eq!(status_report("active"), "active");
}

#[test]
fn windows_task_command_quotes_each_part_once() {
    assert_eq!(
        windows_task_command(r"C:\b\memx.exe", r"C:\h"),
        r#"cmd.exe /C "set "MEMX_HOME=C:\h" && "C:\b\memx.exe" serve""#
    );
}

#[test]
fn command_output_is_chosen_by_outcome() {
    assert_eq!(command_result(true, " out \n", "err"), Ok("out".to_string()));
    assert_eq!(command_result(true, "  ", " err "), Ok("err".to_string()));
    assert_eq!(command_result(false, "out", " err "), Err("err".to_string()));
    assert_eq!(command_result(false, "out", ""), Err("out".to_string()));
    assert_eq!(command_result(false, "", ""), Err("no output".to_string()));
}
