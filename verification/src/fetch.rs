//! What the request for the latest release looks like and when its answer
//! counts as a release record.

use vstd::prelude::*;
use vstd::string::StringExecFns;
use crate::error::UpdateError;

verus! {

/// Root of the release service's repository API.
pub const GITHUB_URL: &'static str = "https://api.github.com/repos/";

/// Owner of the repository the releases are published in.
pub const REPOSITORY_OWNER: &'static str = "yuzu-emu";

/// Name of the repository the releases are published in.
pub const REPOSITORY_NAME: &'static str = "yuzu-mainline";

/// What follows the repository in the address of its latest release.
pub const LATEST_RELEASE: &'static str = "/releases/latest";

/// The `User-Agent` every request carries.
pub const USER_AGENT: &'static str = "yuzu-updater 0.1.0";

/// How many seconds a request may wait for the release record, or for the
/// next chunk of an artifact, before it counts as failed.
pub const REQUEST_TIMEOUT_SECONDS: u64 = 30;

/// The address of the latest release of repository `owner`/`repository`.
pub open spec fn latest_release_url_of(owner: Seq<char>, repository: Seq<char>) -> Seq<char> {
    GITHUB_URL@ + owner + "/"@ + repository + LATEST_RELEASE@
}

/// Builds the address to request the latest release of a repository from.
pub fn latest_release_url(owner: &str, repository: &str) -> (url: String)
    requires
        owner@.len() > 0,
        repository@.len() > 0,
    ensures
        url@ == latest_release_url_of(owner@, repository@),
{
    let mut url = GITHUB_URL.to_owned();
    url.append(owner);
    url.append("/");
    url.append(repository);
    url.append(LATEST_RELEASE);
    url
}

/// Whether an HTTP status lies in the success range.
pub open spec fn is_success(status: u16) -> bool {
    200 <= status < 300
}

/// Judges the status of the release service's answer: anything outside the
/// success range means the body is no release record.
pub fn check_status(status: u16) -> (verdict: Result<(), UpdateError>)
    ensures
        verdict == if is_success(status) {
            Ok::<(), UpdateError>(())
        } else {
            Err::<(), UpdateError>(UpdateError::Parse)
        },
{
    if 200 <= status && status < 300 {
        Ok(())
    } else {
        Err(UpdateError::Parse)
    }
}

} // verus!
