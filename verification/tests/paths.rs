use memx::paths::{
    binary_backup_path, ensure_installed_binary_path, file_name, is_managed_binary_path, join_path,
    looks_like_cargo_target_binary, plan_binary_uninstall, uninstall_preview, with_extension,
    BinaryUninstallStatus, ManagedBinaryError,
};

#[test]
fn cargo_target_binary_is_not_treated_as_managed_install() {
    let path = "/tmp/memx-app/target/debug/memx";
    assert!(looks_like_cargo_target_binary(path, false));
    assert!(!is_managed_binary_path(path, false));
}

#[test]
fn installed_binary_path_is_treated_as_managed_install() {
    let path = "/Users/demo/.local/bin/memx";
    assert!(!looks_like_cargo_target_binary(path, false));
    assert!(is_managed_binary_path(path, false));
}

#[test]
fn backup_binary_path_appends_bak_suffix() {
    let path = "/Users/demo/.local/bin/memx";
    assert_eq!(binary_backup_path(path, false), "/Users/demo/.local/bin/memx.bak");
}

#[test]
fn release_build_output_is_a_cargo_target_binary() {
    assert!(looks_like_cargo_target_binary("/work/memx/target/release/memx", false));
    assert!(looks_like_cargo_target_binary("target/debug/memx.exe", false));
    assert!(!looks_like_cargo_target_binary("/opt/target/memx", false));
}

#[test]
fn other_binary_names_are_not_managed() {
    assert!(is_managed_binary_path("/usr/local/bin/memx.exe", false));
    assert!(!is_managed_binary_path("/usr/local/bin/memx-dev", false));
}

#[test]
fn installing_from_a_build_directory_is_refused() {
    assert_eq!(
        ensure_installed_binary_path("/tmp/memx-app/target/debug/memx", false),
        Err(ManagedBinaryError::DevelopmentBinary)
    );
    assert_eq!(ensure_installed_binary_path("/Users/demo/.local/bin/memx", false), Ok(()));
}

#[test]
fn uninstall_plan_follows_install_kind_and_platform() {
    assert_eq!(
        plan_binary_uninstall("/tmp/memx-app/target/debug/memx", true, false),
        BinaryUninstallStatus::SkippedDevelopmentBinary
    );
    assert_eq!(
        plan_binary_uninstall("/Users/demo/.local/bin/memx", false, false),
        BinaryUninstallStatus::NotFound
    );
    assert_eq!(
        plan_binary_uninstall("/Users/demo/.local/bin/memx", true, false),
        BinaryUninstallStatus::Removed
    );
    assert_eq!(
        plan_binary_uninstall("/Users/demo/.local/bin/memx", true, true),
        BinaryUninstallStatus::Scheduled
    );
}

#[test]
fn uninstall_preview_lists_binary_and_backup_only_for_managed_installs() {
    let managed = uninstall_preview("/Users/demo/.memx", "/Users/demo/.local/bin/memx", true, false);
    assert_eq!(managed.data_dir, "/Users/demo/.memx");
    assert_eq!(managed.binary.as_deref(), Some("/Users/demo/.local/bin/memx"));
    assert_eq!(managed.backup.as_deref(), Some("/Users/demo/.local/bin/memx.bak"));

    let no_backup = uninstall_preview("/Users/demo/.memx", "/Users/demo/.local/bin/memx", false, false);
    assert_eq!(no_backup.backup, None);

    let dev = uninstall_preview("/Users/demo/.memx", "/tmp/memx-app/target/debug/memx", true, false);
    assert_eq!(dev.binary, None);
    assert_eq!(dev.backup, None);
}

#[test]
fn join_adds_one_separator() {
    assert_eq!(join_path("/tmp/memx", "memory.db", false), "/tmp/memx/memory.db");
    assert_eq!(join_path("/tmp/memx/", "memory.db", false), "/tmp/memx/memory.db");
    assert_eq!(join_path("", "memory.db", false), "memory.db");
}

#[test]
fn file_name_skips_trailing_separators() {
    assert_eq!(file_name("/a/b/memx", false).as_deref(), Some("memx"));
    assert_eq!(file_name("/a/b/memx/", false).as_deref(), Some("memx"));
    assert_eq!(file_name("/", false), None);
    assert_eq!(file_name("/a/..", false), None);
}

#[test]
fn with_extension_replaces_or_appends() {
    assert_eq!(with_extension("/a/memx", "new", false), "/a/memx.new");
    assert_eq!(with_extension("/a/memx.exe", "new", false), "/a/memx.new");
    assert_eq!(with_extension("/a/config.toml", "toml.bak", false), "/a/config.toml.bak");
    assert_eq!(with_extension("/a/.hidden", "new", false), "/a/.hidden.new");
    assert_eq!(with_extension("/", "new", false), "/");
}

#[test]
fn backup_of_a_path_without_a_name_is_memx_bak_inside_it() {
    assert_eq!(binary_backup_path("/", false), "/memx.bak");
}

#[test]
fn windows_paths_split_at_backslashes_after_the_drive() {
    assert_eq!(file_name(r"C:\Users\demo\bin\memx.exe", true).as_deref(), Some("memx.exe"));
    assert_eq!(file_name(r"C:memx.exe", true).as_deref(), Some("memx.exe"));
    assert_eq!(file_name(r"C:\", true), None);
    assert_eq!(file_name(r"C:", true), None);
    assert_eq!(file_name(r"C:\bin\memx.exe", false).as_deref(), Some(r"C:\bin\memx.exe"));
}

#[test]
fn windows_installs_are_managed_and_build_outputs_are_not() {
    assert!(is_managed_binary_path(r"C:\memx.exe", true));
    assert!(is_managed_binary_path(r"C:\Users\demo\.local\bin\memx.exe", true));
    assert!(looks_like_cargo_target_binary(r"C:\work\memx\target\debug\memx.exe", true));
    assert!(!is_managed_binary_path(r"C:\work\memx\target\release\memx.exe", true));
    assert_eq!(
        ensure_installed_binary_path(r"C:\work\memx\target\debug\memx.exe", true),
        Err(ManagedBinaryError::DevelopmentBinary)
    );
    assert_eq!(
        plan_binary_uninstall(r"C:\Users\demo\bin\memx.exe", true, true),
        BinaryUninstallStatus::Scheduled
    );
}

#[test]
fn windows_backup_and_join_use_the_windows_separator() {
    assert_eq!(binary_backup_path(r"C:\bin\memx.exe", true), r"C:\bin\memx.exe.bak");
    assert_eq!(binary_backup_path(r"C:memx.exe", true), r"C:memx.exe.bak");
    assert_eq!(binary_backup_path(r"C:\memx.exe", true), r"C:\memx.exe.bak");
    assert_eq!(join_path(r"C:\Users\demo", ".memx", true), r"C:\Users\demo\.memx");
    assert_eq!(join_path("C:", "memx", true), "C:memx");
    assert_eq!(join_path("C:/Users/demo/", "memx", true), "C:/Users/demo/memx");
    assert_eq!(with_extension(r"C:\bin\memx.exe", "new", true), r"C:\bin\memx.new");
    let preview = uninstall_preview(r"C:\Users\demo\.memx", r"C:\bin\memx.exe", true, true);
    assert_eq!(preview.binary.as_deref(), Some(r"C:\bin\memx.exe"));
    assert_eq!(preview.backup.as_deref(), Some(r"C:\bin\memx.exe.bak"));
}

#[test]
fn unc_and_device_prefixes_hold_no_components() {
    assert_eq!(file_name(r"\\server\share\memx.exe", true).as_deref(), Some("memx.exe"));
    assert_eq!(file_name(r"\\server\share", true), None);
    assert_eq!(file_name(r"\\server\share\", true), None);
    assert_eq!(file_name(r"\\.\COM42", true), None);
    assert!(!looks_like_cargo_target_binary(r"\\server\target\debug\memx.exe", true));
    assert!(looks_like_cargo_target_binary(r"\\server\share\target\debug\memx.exe", true));
    assert_eq!(binary_backup_path(r"\\server\share\memx.exe", true), r"\\server\share\memx.exe.bak");
    assert_eq!(join_path(r"\\server\share", "memx", true), r"\\server\share\memx");
}

#[test]
fn verbatim_paths_split_only_at_backslashes() {
    assert_eq!(file_name(r"\\?\C:\bin\memx.exe", true).as_deref(), Some("memx.exe"));
    assert_eq!(file_name(r"\\?\C:\bin/memx.exe", true).as_deref(), Some("bin/memx.exe"));
    assert_eq!(file_name(r"\\?\C:\bin\.", true), None);
    assert_eq!(file_name(r"C:\bin\.", true).as_deref(), Some("bin"));
    assert_eq!(file_name(r"\\?\UNC\server\share\memx", true).as_deref(), Some("memx"));
    assert!(is_managed_binary_path(r"\\?\C:\Users\demo\bin\memx.exe", true));
    assert!(looks_like_cargo_target_binary(r"\\?\C:\work\target\debug\memx.exe", true));
    assert_eq!(binary_backup_path(r"\\?\C:\bin\memx.exe", true), r"\\?\C:\bin\memx.exe.bak");
}

#[test]
fn joining_follows_path_push() {
    assert_eq!(join_path(r"\\?\C:\a\\b", "x", true), r"\\?\C:\a\b\x");
    assert_eq!(join_path(r"\\?\C:", "x", true), r"\\?\C:\x");
    assert_eq!(join_path(r"\\?\C:\a", r"..\x", true), r"\\?\C:\x");
    assert_eq!(join_path(r"C:\a", r"\b", true), r"C:\b");
    assert_eq!(join_path(r"C:\a", r"D:\b", true), r"D:\b");
    assert_eq!(join_path("/a", "/b", false), "/b");
}
