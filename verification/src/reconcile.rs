//! The decision whether to download: remote version against local version.

use vstd::prelude::*;
use crate::error::UpdateError;
use crate::inventory::{
    installed_version, inventory_view, latest_index, local_version, CandidateView, LocalCandidate,
    LocalVersion,
};
use crate::release::{
    offered_artifact, selected_index, Asset, AssetView, Release, ReleaseView, RemoteArtifact,
};
use crate::text::str_eq;
use crate::version::version_of;

verus! {

/// The outcome of comparing the remote version with the local one.
#[derive(Clone, Copy, Debug, PartialEq, Eq)]
pub enum Decision<'a> {
    /// The installed artifact already is the latest release.
    UpToDate,
    /// This asset has to be downloaded.
    UpdateAvailable(&'a Asset),
}

/// The mathematical content of a [`Decision`].
pub enum DecisionView {
    UpToDate,
    UpdateAvailable(AssetView),
}

impl<'a> View for Decision<'a> {
    type V = DecisionView;

    open spec fn view(&self) -> DecisionView {
        match self {
            Decision::UpToDate => DecisionView::UpToDate,
            Decision::UpdateAvailable(asset) => DecisionView::UpdateAvailable(asset@),
        }
    }
}

/// The decision for a remote token, a local token (absent if nothing is
/// installed) and the asset that carries the remote version.
///
/// Tokens are compared character by character: there is no ordering of
/// versions and no normalisation. An absent local token always calls for a
/// download.
pub open spec fn decide(remote: Seq<char>, local: Option<Seq<char>>, asset: AssetView) -> DecisionView {
    if local == Some(remote) {
        DecisionView::UpToDate
    } else {
        DecisionView::UpdateAvailable(asset)
    }
}

/// Compares the remote version token with the local one and decides whether
/// `asset` has to be downloaded.
pub fn reconcile<'a>(remote: &str, local: &LocalVersion, asset: &'a Asset) -> (decision: Decision<'a>)
    ensures
        decision@ == decide(remote@, local@, asset@),
        decision matches Decision::UpdateAvailable(a) ==> a == asset,
{
    match local {
        LocalVersion::Found(token) => {
            if str_eq(remote, token.as_str()) {
                Decision::UpToDate
            } else {
                Decision::UpdateAvailable(asset)
            }
        },
        LocalVersion::NotFound => Decision::UpdateAvailable(asset),
    }
}

/// A token reconciled with itself is up to date, whatever the asset.
pub proof fn lemma_reconcile_reflexive(token: Seq<char>, asset: AssetView)
    ensures
        decide(token, Some(token), asset) == DecisionView::UpToDate,
{
}

/// The decision is `UpToDate` exactly when a local token is present and
/// equal to the remote one; in every other case it is `UpdateAvailable` with
/// the given asset.
pub proof fn lemma_reconcile_exact(remote: Seq<char>, local: Option<Seq<char>>, asset: AssetView)
    ensures
        decide(remote, local, asset) == DecisionView::UpToDate <==> local == Some(remote),
        decide(remote, local, asset) != DecisionView::UpToDate ==> decide(remote, local, asset)
            == DecisionView::UpdateAvailable(asset),
{
}

/// What one run resolved: both version tokens and the decision taken.
#[derive(Debug, PartialEq, Eq)]
pub struct UpdatePlan<'a> {
    /// Version token of the latest release.
    pub remote_version: String,
    /// Version token found on disk, if any.
    pub local_version: LocalVersion,
    /// Whether a download is needed, and of which asset.
    pub decision: Decision<'a>,
}

/// The mathematical content of an [`UpdatePlan`].
pub struct PlanView {
    pub remote_version: Seq<char>,
    pub local_version: Option<Seq<char>>,
    pub decision: DecisionView,
}

impl<'a> View for UpdatePlan<'a> {
    type V = PlanView;

    open spec fn view(&self) -> PlanView {
        PlanView {
            remote_version: self.remote_version@,
            local_version: self.local_version@,
            decision: self.decision@,
        }
    }
}

/// The plan for a release and the candidates of a local scan.
///
/// The stages run in a fixed order and the first failure ends the run: the
/// asset is selected, its version token extracted, the installed version
/// resolved, and the two tokens compared.
pub open spec fn plan(release: ReleaseView, candidates: Seq<CandidateView>) -> Result<
    PlanView,
    UpdateError,
> {
    match offered_artifact(release) {
        Err(e) => Err(e),
        Ok(remote) => match installed_version(candidates) {
            Err(e) => Err(e),
            Ok(local) => Ok(
                PlanView {
                    remote_version: remote.version,
                    local_version: local,
                    decision: decide(remote.version, local, remote.asset),
                },
            ),
        },
    }
}

/// Runs the whole reconciliation for an already fetched release and an
/// already performed scan.
pub fn plan_update<'a>(release: &'a Release, candidates: &[LocalCandidate]) -> (outcome: Result<
    UpdatePlan<'a>,
    UpdateError,
>)
    ensures
        match outcome {
            Ok(p) => plan(release@, inventory_view(candidates@)) == Ok::<PlanView, UpdateError>(p@),
            Err(e) => plan(release@, inventory_view(candidates@)) == Err::<PlanView, UpdateError>(e),
        },
{
    let remote = match release.remote_artifact() {
        Ok(remote) => remote,
        Err(e) => {
            return Err(e);
        },
    };
    let local_version = match local_version(candidates) {
        Ok(version) => version,
        Err(e) => {
            return Err(e);
        },
    };
    let RemoteArtifact { asset, version } = remote;
    let decision = reconcile(version.as_str(), &local_version, asset);
    Ok(UpdatePlan { remote_version: version, local_version, decision })
}

/// With nothing installed, every release that offers a well-named platform
/// asset is planned for download; an empty scan is never an error.
pub proof fn lemma_first_install_downloads(release: ReleaseView)
    requires
        selected_index(release.assets) matches Some(i) && version_of(release.assets[i].name) is Some,
    ensures
        plan(release, Seq::empty()) matches Ok(p) && p.local_version is None && p.decision
            == DecisionView::UpdateAvailable(release.assets[selected_index(release.assets)->0]),
{
}

/// When the latest installed artifact bears the very name of the asset the
/// release offers, and that name holds a version token, nothing is
/// downloaded.
pub proof fn lemma_same_artifact_is_up_to_date(release: ReleaseView, candidates: Seq<CandidateView>)
    requires
        selected_index(release.assets) matches Some(i) && latest_index(candidates) matches Some(j)
            && candidates[j].name == release.assets[i].name && version_of(release.assets[i].name)
            is Some,
    ensures
        plan(release, candidates) matches Ok(p) && p.decision == DecisionView::UpToDate,
{
}

/// When the latest installed artifact carries another version token than
/// the asset the release offers, that asset is planned for download.
pub proof fn lemma_other_version_is_downloaded(release: ReleaseView, candidates: Seq<CandidateView>)
    requires
        selected_index(release.assets) matches Some(i) && latest_index(candidates) matches Some(j)
            && version_of(release.assets[i].name) is Some && version_of(candidates[j].name)
            is Some && version_of(candidates[j].name) != version_of(release.assets[i].name),
    ensures
        plan(release, candidates) matches Ok(p) && p.decision == DecisionView::UpdateAvailable(
            release.assets[selected_index(release.assets)->0],
        ),
{
}

/// A plan is `UpToDate` exactly when the scan resolved a local token equal
/// to the remote one.
pub proof fn lemma_plan_up_to_date(release: ReleaseView, candidates: Seq<CandidateView>)
    requires
        plan(release, candidates) is Ok,
    ensures
        plan(release, candidates)->Ok_0.decision == DecisionView::UpToDate <==> plan(
            release,
            candidates,
        )->Ok_0.local_version == Some(plan(release, candidates)->Ok_0.remote_version),
{
}

} // verus!
