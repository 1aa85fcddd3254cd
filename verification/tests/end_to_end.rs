use std::collections::HashMap;
use yuzu_updater::download::{Action, Download, Event};
use yuzu_updater::error::{exit_code, UpdateError};
use yuzu_updater::inventory::{is_local_candidate, LocalCandidate};
use yuzu_updater::reconcile::{plan_update, Decision};
use yuzu_updater::release::{Asset, Release};

/// A download directory held in memory: file name to content and creation
/// time.
struct Directory {
    path: String,
    files: HashMap<String, (Vec<u8>, i128)>,
    clock: i128,
}

impl Directory {
    fn new(path: &str) -> Directory {
        Directory { path: path.to_string(), files: HashMap::new(), clock: 0 }
    }

    fn put(&mut self, name: &str, content: &[u8]) {
        self.clock += 1;
        self.files.insert(format!("{}/{}", self.path, name), (content.to_vec(), self.clock));
    }

    fn names(&self) -> Vec<String> {
        let mut names: Vec<String> =
            self.files.keys().map(|p| p[self.path.len() + 1..].to_string()).collect();
        names.sort();
        names
    }

    fn scan(&self) -> Vec<LocalCandidate> {
        let mut found = Vec::new();
        for name in self.names() {
            if is_local_candidate(&name) {
                let created = self.files[&format!("{}/{}", self.path, name)].1;
                found.push(LocalCandidate::new(name, created).unwrap());
            }
        }
        found
    }
}

/// One run against a release and a directory; `body` is what the server
/// sends for the asset, each item a chunk or a transport failure. Returns
/// the result and the number of requests made for an asset body.
fn run(
    release: &Release,
    directory: &mut Directory,
    body: Vec<Result<Vec<u8>, ()>>,
) -> (Result<(), UpdateError>, usize) {
    let candidates = directory.scan();
    let plan = match plan_update(release, &candidates) {
        Ok(plan) => plan,
        Err(error) => return (Err(error), 0),
    };
    let asset = match plan.decision {
        Decision::UpToDate => return (Ok(()), 0),
        Decision::UpdateAvailable(asset) => asset,
    };
    let mut download = Download::new(&directory.path, &asset.name);
    let mut body = body.into_iter();
    let mut event = Event::Opened;
    loop {
        let staging = download.staging_path().to_string();
        let report = match download.step(event) {
            Action::Create => {
                directory.clock += 1;
                directory.files.insert(staging, (Vec::new(), directory.clock));
                None
            }
            Action::Append(bytes) => {
                directory.files.get_mut(&staging).unwrap().0.extend_from_slice(&bytes);
                None
            }
            Action::Commit => {
                let staged = directory.files.remove(&staging).unwrap();
                directory.files.insert(download.target_path().to_string(), staged);
                Some(Event::Committed)
            }
            Action::Discard => {
                directory.files.remove(&staging);
                None
            }
            Action::Nothing => None,
        };
        event = match report {
            Some(report) => report,
            None => {
                if let Some(outcome) = download.outcome() {
                    return (outcome, 1);
                }
                match body.next() {
                    Some(Ok(bytes)) => Event::Chunk(bytes),
                    Some(Err(())) => Event::TransportFailed,
                    None => Event::Finished,
                }
            }
        };
    }
}

fn release_with(name: &str) -> Release {
    Release {
        tag_name: "mainline-0-1".to_string(),
        assets: vec![Asset {
            name: name.to_string(),
            browser_download_url: format!("https://example.invalid/{name}"),
            size: 8,
        }],
    }
}

#[test]
fn installed_release_is_left_alone() {
    let release = release_with("yuzu-windows-msvc-f00dcafe.AppImage");
    let mut directory = Directory::new("/home/ann/Downloads");
    directory.put("yuzu-windows-msvc-f00dcafe.AppImage", b"installed");

    let (outcome, requests) = run(&release, &mut directory, vec![Ok(b"fresh".to_vec())]);

    assert_eq!(outcome, Ok(()));
    assert_eq!(exit_code(&outcome), 0);
    assert_eq!(requests, 0);
    assert_eq!(directory.names(), ["yuzu-windows-msvc-f00dcafe.AppImage"]);
    assert_eq!(
        directory.files["/home/ann/Downloads/yuzu-windows-msvc-f00dcafe.AppImage"].0,
        b"installed"
    );
}

#[test]
fn newer_release_is_written_beside_the_installed_one() {
    let release = release_with("yuzu-windows-msvc-deadbeef.AppImage");
    let mut directory = Directory::new("/home/ann/Downloads");
    directory.put("yuzu-windows-msvc-f00dcafe.AppImage", b"installed");

    let body = vec![Ok(b"dead".to_vec()), Ok(b"beef".to_vec())];
    let (outcome, requests) = run(&release, &mut directory, body);

    assert_eq!(outcome, Ok(()));
    assert_eq!(exit_code(&outcome), 0);
    assert_eq!(requests, 1);
    assert_eq!(
        directory.names(),
        ["yuzu-windows-msvc-deadbeef.AppImage", "yuzu-windows-msvc-f00dcafe.AppImage"]
    );
    assert_eq!(
        directory.files["/home/ann/Downloads/yuzu-windows-msvc-deadbeef.AppImage"].0,
        b"deadbeef"
    );
}

#[test]
fn second_run_after_an_update_is_up_to_date() {
    let release = release_with("yuzu-windows-msvc-deadbeef.AppImage");
    let mut directory = Directory::new("dir");
    directory.put("yuzu-windows-msvc-f00dcafe.AppImage", b"installed");
    assert_eq!(run(&release, &mut directory, vec![Ok(b"deadbeef".to_vec())]), (Ok(()), 1));
    assert_eq!(run(&release, &mut directory, vec![Ok(b"again".to_vec())]), (Ok(()), 0));
    assert_eq!(directory.files["dir/yuzu-windows-msvc-deadbeef.AppImage"].0, b"deadbeef");
}

#[test]
fn first_install_downloads_into_an_empty_directory() {
    let release = release_with("yuzu-linux-20240101-abc123.AppImage");
    let mut directory = Directory::new("dir");

    let (outcome, requests) = run(&release, &mut directory, vec![Ok(b"abc".to_vec())]);

    assert_eq!(outcome, Ok(()));
    assert_eq!(requests, 1);
    assert_eq!(directory.names(), ["yuzu-linux-20240101-abc123.AppImage"]);
}

#[test]
fn broken_transfer_leaves_the_directory_as_it_was() {
    let release = release_with("yuzu-windows-msvc-deadbeef.AppImage");
    let mut directory = Directory::new("dir");
    directory.put("yuzu-windows-msvc-f00dcafe.AppImage", b"installed");

    let body = vec![Ok(b"dead".to_vec()), Err(()), Ok(b"beef".to_vec())];
    let (outcome, requests) = run(&release, &mut directory, body);

    assert_eq!(outcome, Err(UpdateError::Transport));
    assert_ne!(exit_code(&outcome), 0);
    assert_eq!(requests, 1);
    assert_eq!(directory.names(), ["yuzu-windows-msvc-f00dcafe.AppImage"]);
    assert_eq!(directory.files["dir/yuzu-windows-msvc-f00dcafe.AppImage"].0, b"installed");
}

#[test]
fn staging_file_of_a_broken_transfer_is_no_candidate() {
    let staging = Download::new("dir", "yuzu-windows-msvc-deadbeef.AppImage");
    assert!(!is_local_candidate(&staging.staging_path()["dir/".len()..]));
}

#[test]
fn release_without_platform_asset_ends_the_run_with_its_own_status() {
    let release = release_with("yuzu-windows-msvc-deadbeef.zip");
    let mut directory = Directory::new("dir");
    directory.put("yuzu-windows-msvc-f00dcafe.AppImage", b"installed");

    let (outcome, requests) = run(&release, &mut directory, vec![]);

    assert_eq!(outcome, Err(UpdateError::NoMatchingAsset));
    assert_eq!(exit_code(&outcome), 1);
    assert_eq!(requests, 0);
}
