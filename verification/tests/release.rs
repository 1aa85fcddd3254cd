use yuzu_updater::error::UpdateError;
use yuzu_updater::release::{is_platform_asset, Asset, Release, RemoteArtifact};

fn asset(name: &str) -> Asset {
    Asset {
        name: name.to_string(),
        browser_download_url: format!("https://example.invalid/download/{name}"),
        size: 7,
    }
}

fn release(names: &[&str]) -> Release {
    Release { tag_name: "mainline-0-1".to_string(), assets: names.iter().map(|n| asset(n)).collect() }
}

#[test]
fn platform_asset_is_told_by_its_extension() {
    assert!(is_platform_asset("yuzu-mainline-20240101-abc123.AppImage"));
    assert!(is_platform_asset(".AppImage"));
    assert!(!is_platform_asset("yuzu-windows-msvc-20240101-abc123.zip"));
    assert!(!is_platform_asset("yuzu.AppImage.zsync"));
    assert!(!is_platform_asset("yuzu.appimage"));
    assert!(!is_platform_asset(""));
}

#[test]
fn selects_last_of_two_matching_assets() {
    let release = release(&["x-1.AppImage", "x-2.AppImage"]);
    assert_eq!(release.select_asset_index(), Some(1));
    let chosen = release.select_asset().unwrap();
    assert_eq!(chosen.name, "x-2.AppImage");
    assert_eq!(chosen, &release.assets[1]);
}

#[test]
fn selects_the_only_matching_asset_wherever_it_stands() {
    let first = release(&["a.AppImage", "a.zip", "a.tar.xz"]);
    assert_eq!(first.select_asset_index(), Some(0));
    let middle = release(&["a.zip", "a.AppImage", "a.tar.xz"]);
    assert_eq!(middle.select_asset_index(), Some(1));
    let last = release(&["a.zip", "a.tar.xz", "a.AppImage"]);
    assert_eq!(last.select_asset_index(), Some(2));
}

#[test]
fn selects_last_match_with_others_between_and_after() {
    let release = release(&["a.AppImage", "a.zip", "b.AppImage", "b.AppImage.zsync", "c.7z"]);
    assert_eq!(release.select_asset_index(), Some(2));
    assert_eq!(release.select_asset().unwrap().name, "b.AppImage");
}

#[test]
fn fails_without_a_matching_asset() {
    let release = release(&["a.zip", "a.tar.xz", "a.AppImage.zsync"]);
    assert_eq!(release.select_asset_index(), None);
    assert_eq!(release.select_asset(), Err(UpdateError::NoMatchingAsset));
}

#[test]
fn fails_on_a_release_without_assets() {
    let release = release(&[]);
    assert_eq!(release.select_asset_index(), None);
    assert_eq!(release.select_asset(), Err(UpdateError::NoMatchingAsset));
}

#[test]
fn remote_artifact_is_the_selected_asset_with_its_token() {
    let release = release(&[
        "yuzu-linux-20240101-abc123.AppImage",
        "yuzu-linux-20240102-def456.AppImage",
        "yuzu-linux-20240102-def456.tar.xz",
    ]);
    assert_eq!(
        release.remote_artifact(),
        Ok(RemoteArtifact { asset: &release.assets[1], version: "def456".to_string() })
    );
}

#[test]
fn remote_artifact_fails_without_a_platform_asset() {
    let release = release(&["yuzu-linux-20240101-abc123.tar.xz"]);
    assert_eq!(release.remote_artifact(), Err(UpdateError::NoMatchingAsset));
}

#[test]
fn remote_artifact_fails_when_the_selected_name_holds_no_token() {
    let release = release(&["yuzu-linux-20240101-abc123.AppImage", "yuzu-nightly.AppImage"]);
    assert_eq!(release.remote_artifact(), Err(UpdateError::MalformedFilename));
}

#[test]
fn remote_artifact_ignores_malformed_names_that_are_not_selected() {
    let release = release(&["yuzu-nightly.AppImage", "yuzu-linux-20240101-abc123.AppImage"]);
    assert_eq!(release.remote_artifact().unwrap().version, "abc123");
}
