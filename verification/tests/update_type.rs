use std::str::FromStr;
use yuzu_updater::update_type::{UpdateType, UNKNOWN_UPDATE_TYPE};

#[test]
fn names_of_update_types_are_fixed() {
    assert_eq!(UpdateType::APP_IMAGE, "appimage");
    assert_eq!(UpdateType::STANDALONE, "standalone");
    assert_eq!(UNKNOWN_UPDATE_TYPE, "Unknown update type: ");
}

#[test]
fn parses_appimage() {
    assert_eq!(UpdateType::from_str("appimage"), Ok(UpdateType::AppImage));
    assert_eq!("appimage".parse::<UpdateType>(), Ok(UpdateType::AppImage));
}

#[test]
fn parses_standalone() {
    assert_eq!(UpdateType::from_str("standalone"), Ok(UpdateType::Standalone));
    assert_eq!("standalone".parse::<UpdateType>(), Ok(UpdateType::Standalone));
}

#[test]
fn rejects_unknown_name_and_quotes_it() {
    assert_eq!(UpdateType::from_str("flatpak"), Err("Unknown update type: flatpak".to_string()));
    assert_eq!(UpdateType::from_str(""), Err("Unknown update type: ".to_string()));
    assert_eq!(UpdateType::from_str("漢字"), Err("Unknown update type: 漢字".to_string()));
}

#[test]
fn matches_names_exactly() {
    assert_eq!(UpdateType::from_str("AppImage"), Err("Unknown update type: AppImage".to_string()));
    assert_eq!(
        UpdateType::from_str(" appimage"),
        Err("Unknown update type:  appimage".to_string())
    );
    assert_eq!(
        UpdateType::from_str("standalone "),
        Err("Unknown update type: standalone ".to_string())
    );
    assert_eq!(UpdateType::from_str("appimag"), Err("Unknown update type: appimag".to_string()));
}
