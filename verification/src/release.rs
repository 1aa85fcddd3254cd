//! Published releases and the choice of the asset to install.

use vstd::prelude::*;
use crate::error::UpdateError;
use crate::text::ends_with;
use crate::version::{extract_version, version_of, PLATFORM_SUFFIX};

verus! {

/// One downloadable file attached to a release.
#[derive(Debug, PartialEq, Eq)]
pub struct Asset {
    /// File name as published.
    pub name: String,
    /// Where the file can be fetched directly.
    pub browser_download_url: String,
    /// Declared length in bytes; advisory only.
    pub size: u64,
}

/// What is known of the latest published release.
#[derive(Debug, PartialEq, Eq)]
pub struct Release {
    /// Human-readable tag of the release.
    pub tag_name: String,
    /// The downloadable files, in the order the service lists them.
    pub assets: Vec<Asset>,
}

/// The mathematical content of an [`Asset`].
pub struct AssetView {
    pub name: Seq<char>,
    pub browser_download_url: Seq<char>,
    pub size: u64,
}

/// The mathematical content of a [`Release`].
pub struct ReleaseView {
    pub tag_name: Seq<char>,
    pub assets: Seq<AssetView>,
}

impl View for Asset {
    type V = AssetView;

    open spec fn view(&self) -> AssetView {
        AssetView {
            name: self.name@,
            browser_download_url: self.browser_download_url@,
            size: self.size,
        }
    }
}

impl View for Release {
    type V = ReleaseView;

    open spec fn view(&self) -> ReleaseView {
        ReleaseView {
            tag_name: self.tag_name@,
            assets: Seq::new(self.assets@.len(), |i: int| self.assets@[i]@),
        }
    }
}

/// Whether a file name marks an asset for this platform.
pub open spec fn is_platform_name(name: Seq<char>) -> bool {
    PLATFORM_SUFFIX@.is_suffix_of(name)
}

/// The position of the asset to install: the last one, in list order, whose
/// name carries the platform extension.
pub open spec fn selected_index(assets: Seq<AssetView>) -> Option<int>
    decreases assets.len(),
{
    if assets.len() == 0 {
        None
    } else if is_platform_name(assets.last().name) {
        Some(assets.len() - 1)
    } else {
        selected_index(assets.drop_last())
    }
}

/// `selected_index` names a platform asset after which no platform asset
/// follows, and is `None` only if the list holds no platform asset at all.
pub proof fn lemma_selected_index(assets: Seq<AssetView>)
    ensures
        match selected_index(assets) {
            Some(i) => {
                &&& 0 <= i < assets.len()
                &&& is_platform_name(assets[i].name)
                &&& forall|j: int| i < j < assets.len() ==> !is_platform_name(#[trigger] assets[j].name)
            },
            None => forall|j: int| 0 <= j < assets.len() ==> !is_platform_name(#[trigger] assets[j].name),
        },
    decreases assets.len(),
{
    if assets.len() > 0 && !is_platform_name(assets.last().name) {
        let init = assets.drop_last();
        lemma_selected_index(init);
        assert forall|j: int| 0 <= j < init.len() implies init[j] == assets[j] by {}
    }
}

/// The asset a release offers for this platform, with the version token its
/// name carries.
#[derive(Debug, PartialEq, Eq)]
pub struct RemoteArtifact<'a> {
    /// The asset to download if an update is due.
    pub asset: &'a Asset,
    /// The version token read from the asset's name.
    pub version: String,
}

/// The mathematical content of a [`RemoteArtifact`].
pub struct RemoteArtifactView {
    pub asset: AssetView,
    pub version: Seq<char>,
}

impl<'a> View for RemoteArtifact<'a> {
    type V = RemoteArtifactView;

    open spec fn view(&self) -> RemoteArtifactView {
        RemoteArtifactView { asset: self.asset@, version: self.version@ }
    }
}

/// What a release offers for this platform: the selected asset and its
/// version token. A release without platform asset fails with
/// `NoMatchingAsset`; a selected asset whose name holds no token fails with
/// `MalformedFilename`.
pub open spec fn offered_artifact(release: ReleaseView) -> Result<RemoteArtifactView, UpdateError> {
    match selected_index(release.assets) {
        None => Err(UpdateError::NoMatchingAsset),
        Some(i) => match version_of(release.assets[i].name) {
            None => Err(UpdateError::MalformedFilename),
            Some(version) => Ok(RemoteArtifactView { asset: release.assets[i], version }),
        },
    }
}

/// Whether a published file name carries the platform extension.
pub fn is_platform_asset(name: &str) -> (yes: bool)
    ensures
        yes == is_platform_name(name@),
{
    ends_with(name, PLATFORM_SUFFIX)
}

impl Release {
    /// Position of the asset to install, if the release has one for this
    /// platform. When several assets qualify, the last one listed wins.
    pub fn select_asset_index(&self) -> (index: Option<usize>)
        ensures
            match index {
                Some(i) => selected_index(self@.assets) == Some(i as int),
                None => selected_index(self@.assets) is None,
            },
    {
        let mut chosen: Option<usize> = None;
        let mut i: usize = 0;
        let ghost assets = self@.assets;
        while i < self.assets.len()
            invariant
                i <= self.assets.len(),
                assets == self@.assets,
                assets.len() == self.assets.len(),
                match chosen {
                    Some(c) => selected_index(assets.take(i as int)) == Some(c as int),
                    None => selected_index(assets.take(i as int)) is None,
                },
            decreases self.assets.len() - i,
        {
            let matched = is_platform_asset(self.assets[i].name.as_str());
            proof {
                let upto = assets.take(i + 1);
                assert(upto.drop_last() =~= assets.take(i as int));
            }
            if matched {
                chosen = Some(i);
            }
            i = i + 1;
        }
        assert(assets.take(i as int) =~= assets);
        chosen
    }

    /// The asset to install, or `NoMatchingAsset` if no asset of the release
    /// carries the platform extension.
    pub fn select_asset(&self) -> (asset: Result<&Asset, UpdateError>)
        ensures
            match asset {
                Ok(a) => selected_index(self@.assets) matches Some(i) && *a == self.assets@[i] && a@
                    == self@.assets[i],
                Err(e) => e == UpdateError::NoMatchingAsset && selected_index(self@.assets) is None,
            },
    {
        match self.select_asset_index() {
            Some(i) => {
                proof {
                    lemma_selected_index(self@.assets);
                }
                Ok(&self.assets[i])
            },
            None => Err(UpdateError::NoMatchingAsset),
        }
    }

    /// Resolves what the release offers for this platform: the asset to
    /// install and the version token in its name.
    pub fn remote_artifact(&self) -> (artifact: Result<RemoteArtifact<'_>, UpdateError>)
        ensures
            match artifact {
                Ok(a) => offered_artifact(self@) == Ok::<RemoteArtifactView, UpdateError>(a@),
                Err(e) => offered_artifact(self@) == Err::<RemoteArtifactView, UpdateError>(e),
            },
    {
        let asset = match self.select_asset() {
            Ok(asset) => asset,
            Err(e) => {
                return Err(e);
            },
        };
        match extract_version(asset.name.as_str()) {
            Ok(version) => Ok(RemoteArtifact { asset, version }),
            Err(e) => Err(e),
        }
    }
}

} // verus!
