use memx::version::{is_newer, parse_semver};
use memx::updater::{
    asset_name_for, backup_path, expected_binary_name, find_asset, is_zip_archive, normalize_tag,
    release_api_url, resolve_release, AssetError, ReleaseAsset, ReleaseError,
};

#[test]
fn normalize_tag_supports_v_prefix() {
    let version = normalize_tag("v1.2.3").unwrap();
    assert_eq!(version.to_text(), "1.2.3");
}

#[test]
fn normalize_tag_supports_plain_semver() {
    let version = normalize_tag("2.0.0-rc.1").unwrap();
    assert_eq!(version.to_text(), "2.0.0-rc.1");
}

#[test]
fn asset_name_for_known_targets() {
    assert_eq!(asset_name_for("macos", "aarch64").unwrap(), "memx-darwin-universal.tar.gz");
    assert_eq!(asset_name_for("linux", "x86_64").unwrap(), "memx-linux-x86_64.tar.gz");
    assert_eq!(asset_name_for("windows", "x86_64").unwrap(), "memx-windows-x86_64.zip");
}

#[test]
fn unpublished_and_unknown_targets_are_refused() {
    assert_eq!(asset_name_for("linux", "aarch64"), Err(AssetError::LinuxArm64NotPublished));
    assert_eq!(asset_name_for("windows", "aarch64"), Err(AssetError::WindowsArm64NotPublished));
    assert_eq!(
        asset_name_for("freebsd", "x86_64"),
        Err(AssetError::Unsupported { os: "freebsd".to_string(), arch: "x86_64".to_string() })
    );
}

#[test]
fn malformed_tags_are_refused_with_the_tag() {
    let err = normalize_tag("vnext").err().unwrap();
    assert_eq!(err.tag, "vnext");
    assert!(normalize_tag("1.2").is_err());
    assert_eq!(normalize_tag("vv3.0.0").unwrap().to_text(), "3.0.0");
}

#[test]
fn release_url_prefers_configured_url_then_repo() {
    assert_eq!(
        release_api_url(Some("https://mirror.example/latest".to_string()), None),
        "https://mirror.example/latest"
    );
    assert_eq!(
        release_api_url(Some("   ".to_string()), Some("me/fork".to_string())),
        "https://api.github.com/repos/me/fork/releases/latest"
    );
    assert_eq!(release_api_url(None, None), "https://api.github.com/repos/memxlab/memx/releases/latest");
}

#[test]
fn assets_are_found_by_exact_name() {
    let names = vec!["a.zip".to_string(), "memx-linux-x86_64.tar.gz".to_string()];
    assert_eq!(find_asset(&names, "memx-linux-x86_64.tar.gz"), Some(1));
    assert_eq!(find_asset(&names, "memx"), None);
}

#[test]
fn zip_archives_are_told_by_extension() {
    assert!(is_zip_archive("/tmp/memx-windows-x86_64.zip", false));
    assert!(!is_zip_archive("/tmp/memx-linux-x86_64.tar.gz", false));
    assert!(!is_zip_archive("/tmp/.zip", false));
}

#[test]
fn update_backup_sits_beside_the_binary() {
    assert_eq!(backup_path("/usr/local/bin/memx", false), "/usr/local/bin/memx.bak");
    assert_eq!(backup_path(r"C:\Program Files\MemX\memx.exe", true), r"C:\Program Files\MemX\memx.exe.bak");
    assert!(is_zip_archive(r"C:\Temp\memx.d\memx-windows-x86_64.zip", true));
}

#[test]
fn release_resolution_picks_the_platform_asset() {
    let assets = vec![
        ReleaseAsset { name: "memx-windows-x86_64.zip".to_string(), browser_download_url: "https://dl/win".to_string() },
        ReleaseAsset { name: "memx-linux-x86_64.tar.gz".to_string(), browser_download_url: "https://dl/linux".to_string() },
    ];
    let release = resolve_release("v1.4.0", &assets, "memx-linux-x86_64.tar.gz").ok().unwrap();
    assert_eq!(release.version.to_text(), "1.4.0");
    assert_eq!(release.asset_name, "memx-linux-x86_64.tar.gz");
    assert_eq!(release.asset_url, "https://dl/linux");

    assert!(matches!(
        resolve_release("v1.4.0", &assets, "memx-darwin-universal.tar.gz"),
        Err(ReleaseError::MissingAsset { .. })
    ));
    assert!(matches!(
        resolve_release("latest", &assets, "memx-linux-x86_64.tar.gz"),
        Err(ReleaseError::InvalidTag(_))
    ));
}

#[test]
fn archive_binary_name_depends_on_platform() {
    assert_eq!(expected_binary_name(true), "memx.exe");
    assert_eq!(expected_binary_name(false), "memx");
}

#[test]
fn versions_print_and_order_as_semver_does() {
    let v = parse_semver("1.2.3-rc.1+build.5").unwrap();
    assert_eq!(v.to_text(), "1.2.3-rc.1+build.5");
    assert_eq!(parse_semver("v1.2.3").err().unwrap().text, "v1.2.3");
    let a = parse_semver("1.5.0").unwrap();
    let b = parse_semver("1.19.0").unwrap();
    assert!(is_newer(&b, &a));
    assert!(!is_newer(&a, &b));
    let pre = parse_semver("1.0.0-alpha.1").unwrap();
    let rel = parse_semver("1.0.0").unwrap();
    assert!(is_newer(&rel, &pre));
    assert!(!is_newer(&rel, &rel));
    let beta2 = parse_semver("1.0.0-beta.2").unwrap();
    let beta11 = parse_semver("1.0.0-beta.11").unwrap();
    assert!(is_newer(&beta11, &beta2));
}
