//! The artifacts already present on disk and the version they stand for.

use vstd::prelude::*;
use crate::error::UpdateError;
use crate::text::{ends_with, starts_with};
use crate::version::{extract_version, version_of, PLATFORM_SUFFIX};

verus! {

/// The product name every artifact file name begins with.
pub const PRODUCT_PREFIX: &'static str = "yuzu";

/// Whether a file name is that of a locally installed artifact: it begins
/// with the product name and ends with the platform extension.
pub open spec fn is_candidate_name(name: Seq<char>) -> bool {
    PRODUCT_PREFIX@.is_prefix_of(name) && PLATFORM_SUFFIX@.is_suffix_of(name)
}

/// Decides from its base name whether a directory entry is an installed
/// artifact.
pub fn is_local_candidate(file_name: &str) -> (yes: bool)
    ensures
        yes == is_candidate_name(file_name@),
{
    starts_with(file_name, PRODUCT_PREFIX) && ends_with(file_name, PLATFORM_SUFFIX)
}

/// An installed artifact found by a scan: its file name and the time the
/// file was created, in nanoseconds relative to the Unix epoch.
///
/// Every value of this type has a name that `is_candidate_name` accepts.
#[derive(Debug, PartialEq, Eq)]
pub struct LocalCandidate {
    name: String,
    created_at: i128,
}

/// The mathematical content of a [`LocalCandidate`].
pub struct CandidateView {
    pub name: Seq<char>,
    pub created_at: int,
}

impl View for LocalCandidate {
    type V = CandidateView;

    closed spec fn view(&self) -> CandidateView {
        CandidateView { name: self.name@, created_at: self.created_at as int }
    }
}

impl LocalCandidate {
    #[verifier::type_invariant]
    spec fn well_named(self) -> bool {
        is_candidate_name(self.name@)
    }

    /// Records a directory entry as an installed artifact, or returns `None`
    /// if its name is not that of one.
    pub fn new(name: String, created_at: i128) -> (candidate: Option<LocalCandidate>)
        ensures
            candidate is Some <==> is_candidate_name(name@),
            candidate matches Some(c) ==> c@ == (CandidateView {
                name: name@,
                created_at: created_at as int,
            }),
    {
        if is_local_candidate(name.as_str()) {
            Some(LocalCandidate { name, created_at })
        } else {
            None
        }
    }

    /// The file name of the artifact.
    pub fn name(&self) -> (name: &str)
        ensures
            name@ == self@.name,
            is_candidate_name(name@),
    {
        proof {
            use_type_invariant(self);
        }
        self.name.as_str()
    }

    /// When the file was created, in nanoseconds relative to the Unix epoch.
    pub fn created_at(&self) -> (created_at: i128)
        ensures
            created_at == self@.created_at,
    {
        self.created_at
    }
}

/// The candidates of a scan, by their content and in scan order.
pub open spec fn inventory_view(candidates: Seq<LocalCandidate>) -> Seq<CandidateView> {
    Seq::new(candidates.len(), |i: int| candidates[i]@)
}

/// The position of the currently installed artifact: the candidate created
/// last, and among candidates created at the same instant the one scanned
/// last.
pub open spec fn latest_index(candidates: Seq<CandidateView>) -> Option<int>
    decreases candidates.len(),
{
    if candidates.len() == 0 {
        None
    } else {
        match latest_index(candidates.drop_last()) {
            Some(i) if candidates[i].created_at > candidates.last().created_at => Some(i),
            _ => Some(candidates.len() - 1),
        }
    }
}

/// `latest_index` is `None` only for an empty scan; otherwise it names a
/// candidate that none is newer than and that every later one is older than.
pub proof fn lemma_latest_index(candidates: Seq<CandidateView>)
    ensures
        match latest_index(candidates) {
            Some(i) => {
                &&& 0 <= i < candidates.len()
                &&& forall|j: int|
                    0 <= j < candidates.len() ==> (#[trigger] candidates[j]).created_at
                        <= candidates[i].created_at
                &&& forall|j: int|
                    i < j < candidates.len() ==> (#[trigger] candidates[j]).created_at
                        < candidates[i].created_at
            },
            None => candidates.len() == 0,
        },
    decreases candidates.len(),
{
    if candidates.len() > 0 {
        let init = candidates.drop_last();
        lemma_latest_index(init);
        assert forall|j: int| 0 <= j < init.len() implies init[j] == candidates[j] by {}
    }
}

/// Picks the currently installed artifact out of the candidates of a scan,
/// or `None` if the scan found nothing.
pub fn latest_candidate(candidates: &[LocalCandidate]) -> (index: Option<usize>)
    ensures
        match index {
            Some(i) => latest_index(inventory_view(candidates@)) == Some(i as int),
            None => latest_index(inventory_view(candidates@)) is None,
        },
{
    let ghost all = inventory_view(candidates@);
    let mut latest: Option<usize> = None;
    let mut i: usize = 0;
    while i < candidates.len()
        invariant
            i <= candidates.len(),
            all == inventory_view(candidates@),
            match latest {
                Some(l) => l < i && latest_index(all.take(i as int)) == Some(l as int),
                None => latest_index(all.take(i as int)) is None,
            },
        decreases candidates.len() - i,
    {
        proof {
            let upto = all.take(i + 1);
            assert(upto.drop_last() =~= all.take(i as int));
        }
        let newer = match latest {
            Some(l) => candidates[l].created_at() <= candidates[i].created_at(),
            None => true,
        };
        if newer {
            latest = Some(i);
        }
        i = i + 1;
    }
    assert(all.take(i as int) =~= all);
    latest
}

/// The version found on disk.
#[derive(Debug, PartialEq, Eq)]
pub enum LocalVersion {
    /// An artifact is installed and carries this version token.
    Found(String),
    /// Nothing is installed yet.
    NotFound,
}

impl View for LocalVersion {
    type V = Option<Seq<char>>;

    open spec fn view(&self) -> Option<Seq<char>> {
        match self {
            LocalVersion::Found(token) => Some(token@),
            LocalVersion::NotFound => None,
        }
    }
}

/// The installed version according to a scan: the token of the latest
/// candidate, `None` for an empty scan, and an error if the latest
/// candidate's name holds no token.
pub open spec fn installed_version(candidates: Seq<CandidateView>) -> Result<
    Option<Seq<char>>,
    UpdateError,
> {
    match latest_index(candidates) {
        None => Ok(None),
        Some(i) => match version_of(candidates[i].name) {
            Some(token) => Ok(Some(token)),
            None => Err(UpdateError::MalformedFilename),
        },
    }
}

/// Resolves the installed version from the candidates of a scan.
///
/// An empty scan is not an error: it yields `NotFound`.
pub fn local_version(candidates: &[LocalCandidate]) -> (version: Result<LocalVersion, UpdateError>)
    ensures
        match version {
            Ok(v) => installed_version(inventory_view(candidates@)) == Ok::<
                Option<Seq<char>>,
                UpdateError,
            >(v@),
            Err(e) => installed_version(inventory_view(candidates@)) == Err::<
                Option<Seq<char>>,
                UpdateError,
            >(e),
        },
{
    match latest_candidate(candidates) {
        None => Ok(LocalVersion::NotFound),
        Some(i) => {
            proof {
                lemma_latest_index(inventory_view(candidates@));
            }
            match extract_version(candidates[i].name()) {
                Ok(token) => Ok(LocalVersion::Found(token)),
                Err(e) => Err(e),
            }
        },
    }
}

} // verus!
