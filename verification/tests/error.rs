use yuzu_updater::error::{
    exit_code, UpdateError, EXIT_FAILURE, EXIT_NO_MATCHING_ASSET, EXIT_SUCCESS,
};

#[test]
fn success_exits_with_zero() {
    assert_eq!(EXIT_SUCCESS, 0);
    assert_eq!(exit_code(&Ok(())), 0);
}

#[test]
fn missing_asset_has_an_exit_status_of_its_own() {
    assert_eq!(EXIT_NO_MATCHING_ASSET, 1);
    assert_eq!(exit_code(&Err(UpdateError::NoMatchingAsset)), 1);
    for other in [
        UpdateError::Transport,
        UpdateError::Parse,
        UpdateError::MalformedFilename,
        UpdateError::Io,
    ] {
        assert_eq!(exit_code(&Err(other)), EXIT_FAILURE);
        assert_ne!(exit_code(&Err(other)), 0);
        assert_ne!(exit_code(&Err(other)), exit_code(&Err(UpdateError::NoMatchingAsset)));
    }
}

#[test]
fn every_error_has_its_own_message() {
    let all = [
        UpdateError::Transport,
        UpdateError::Parse,
        UpdateError::NoMatchingAsset,
        UpdateError::MalformedFilename,
        UpdateError::Io,
    ];
    for (i, a) in all.iter().enumerate() {
        assert!(!a.message().is_empty());
        for b in &all[i + 1..] {
            assert_ne!(a.message(), b.message());
        }
    }
}

#[test]
fn messages_name_the_failed_stage() {
    assert_eq!(UpdateError::Transport.message(), "network request failed");
    assert_eq!(UpdateError::Parse.message(), "release record could not be read");
    assert_eq!(UpdateError::NoMatchingAsset.message(), "release has no asset for this platform");
    assert_eq!(UpdateError::MalformedFilename.message(), "file name holds no version token");
    assert_eq!(UpdateError::Io.message(), "file system operation failed");
}
