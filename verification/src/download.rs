//! The streamed download as a state machine.
//!
//! The machine never touches the network or the disk. Its driver reports
//! what happened as an [`Event`] and carries out the [`Action`] the machine
//! answers with. Bytes go to a staging file first; only when the stream has
//! ended is the staging file renamed to the target, and on any failure it is
//! removed, so a failed download leaves nothing under the target name.

use vstd::prelude::*;
use vstd::string::StringExecFns;
use crate::error::UpdateError;
use crate::version::PLATFORM_SUFFIX;

verus! {

/// Separates a directory from the file name inside it.
pub const PATH_SEPARATOR: &'static str = "/";

/// Appended to the target path to name the staging file.
pub const STAGING_SUFFIX: &'static str = ".part";

/// Where artifacts are kept below the home directory unless the operator
/// names another place.
pub const DEFAULT_SUBDIRECTORY: &'static str = "/Downloads";

/// The download directory of an operator whose home directory is `home`.
pub fn default_directory(home: &str) -> (directory: String)
    ensures
        directory@ == home@ + DEFAULT_SUBDIRECTORY@,
{
    let mut directory = home.to_owned();
    directory.append(DEFAULT_SUBDIRECTORY);
    directory
}

/// The path of `file_name` inside `directory`.
pub open spec fn target_path_of(directory: Seq<char>, file_name: Seq<char>) -> Seq<char> {
    directory + PATH_SEPARATOR@ + file_name
}

/// The path of the staging file that belongs to a target path.
pub open spec fn staging_path_of(target: Seq<char>) -> Seq<char> {
    target + STAGING_SUFFIX@
}

/// How far a download has come.
#[derive(Clone, Copy, Debug, PartialEq, Eq, Structural)]
pub enum Phase {
    /// No response has been opened yet.
    Pending,
    /// The response is open and chunks are being appended to the staging file.
    Streaming,
    /// The stream has ended and the staging file is being renamed.
    Committing,
    /// The artifact is complete under its target name.
    Completed,
    /// The download was abandoned for the given reason.
    Failed(UpdateError),
}

/// What the driver observed.
#[derive(Debug, PartialEq, Eq)]
pub enum Event {
    /// The response arrived and its body can be read.
    Opened,
    /// The next chunk of the body.
    Chunk(Vec<u8>),
    /// The body has ended.
    Finished,
    /// The staging file has been renamed to the target.
    Committed,
    /// The request or the reading of the body failed.
    TransportFailed,
    /// The last file operation failed.
    WriteFailed,
}

/// What the driver has to do next.
#[derive(Debug, PartialEq, Eq)]
pub enum Action {
    /// Create the staging file, empty.
    Create,
    /// Append these bytes to the staging file.
    Append(Vec<u8>),
    /// Rename the staging file to the target.
    Commit,
    /// Remove the staging file.
    Discard,
    /// Nothing.
    Nothing,
}

/// The mathematical content of an [`Event`].
pub enum EventView {
    Opened,
    Chunk(Seq<u8>),
    Finished,
    Committed,
    TransportFailed,
    WriteFailed,
}

/// The mathematical content of an [`Action`].
pub enum ActionView {
    Create,
    Append(Seq<u8>),
    Commit,
    Discard,
    Nothing,
}

impl View for Event {
    type V = EventView;

    open spec fn view(&self) -> EventView {
        match self {
            Event::Opened => EventView::Opened,
            Event::Chunk(bytes) => EventView::Chunk(bytes@),
            Event::Finished => EventView::Finished,
            Event::Committed => EventView::Committed,
            Event::TransportFailed => EventView::TransportFailed,
            Event::WriteFailed => EventView::WriteFailed,
        }
    }
}

impl View for Action {
    type V = ActionView;

    open spec fn view(&self) -> ActionView {
        match self {
            Action::Create => ActionView::Create,
            Action::Append(bytes) => ActionView::Append(bytes@),
            Action::Commit => ActionView::Commit,
            Action::Discard => ActionView::Discard,
            Action::Nothing => ActionView::Nothing,
        }
    }
}

/// The failure an event reports, if it reports one.
pub open spec fn failure_of(event: EventView) -> Option<UpdateError> {
    match event {
        EventView::TransportFailed => Some(UpdateError::Transport),
        EventView::WriteFailed => Some(UpdateError::Io),
        _ => None,
    }
}

/// The transition function: the phase after `event` and the action it calls
/// for.
///
/// A failure ends the download in every phase that is not final; once a
/// staging file may exist it is discarded. The target is written by `Commit`
/// alone, and `Commit` answers only the end of the stream. Events that make
/// no sense in a phase change nothing.
pub open spec fn next(phase: Phase, event: EventView) -> (Phase, ActionView) {
    match phase {
        Phase::Pending => match event {
            EventView::Opened => (Phase::Streaming, ActionView::Create),
            EventView::TransportFailed | EventView::WriteFailed => (
                Phase::Failed(failure_of(event)->0),
                ActionView::Nothing,
            ),
            _ => (phase, ActionView::Nothing),
        },
        Phase::Streaming => match event {
            EventView::Chunk(bytes) => (Phase::Streaming, ActionView::Append(bytes)),
            EventView::Finished => (Phase::Committing, ActionView::Commit),
            EventView::TransportFailed | EventView::WriteFailed => (
                Phase::Failed(failure_of(event)->0),
                ActionView::Discard,
            ),
            _ => (phase, ActionView::Nothing),
        },
        Phase::Committing => match event {
            EventView::Committed => (Phase::Completed, ActionView::Nothing),
            EventView::TransportFailed | EventView::WriteFailed => (
                Phase::Failed(failure_of(event)->0),
                ActionView::Discard,
            ),
            _ => (phase, ActionView::Nothing),
        },
        Phase::Completed | Phase::Failed(_) => (phase, ActionView::Nothing),
    }
}

/// One download: where the artifact goes, where it is staged, and how far
/// the download has come.
#[derive(Debug, PartialEq, Eq)]
pub struct Download {
    target: String,
    staging: String,
    phase: Phase,
}

/// The mathematical content of a [`Download`].
pub struct DownloadView {
    pub target: Seq<char>,
    pub staging: Seq<char>,
    pub phase: Phase,
}

impl DownloadView {
    /// Every download stages its bytes beside its target, under the path
    /// `staging_path_of` gives.
    pub open spec fn well_formed(self) -> bool {
        self.staging == staging_path_of(self.target)
    }
}

impl View for Download {
    type V = DownloadView;

    closed spec fn view(&self) -> DownloadView {
        DownloadView { target: self.target@, staging: self.staging@, phase: self.phase }
    }
}

impl Download {
    #[verifier::type_invariant]
    spec fn staged_beside_target(self) -> bool {
        self@.well_formed()
    }

    /// A download of `file_name` into `directory` that has not started.
    pub fn new(directory: &str, file_name: &str) -> (download: Download)
        ensures
            download@ == (DownloadView {
                target: target_path_of(directory@, file_name@),
                staging: staging_path_of(target_path_of(directory@, file_name@)),
                phase: Phase::Pending,
            }),
    {
        let mut target = directory.to_owned();
        target.append(PATH_SEPARATOR);
        target.append(file_name);
        let mut staging = target.clone();
        staging.append(STAGING_SUFFIX);
        Download { target, staging, phase: Phase::Pending }
    }

    /// The path the finished artifact is stored under.
    pub fn target_path(&self) -> (path: &str)
        ensures
            path@ == self@.target,
    {
        self.target.as_str()
    }

    /// The path the bytes are written to while the download runs. It always
    /// differs from the target path.
    pub fn staging_path(&self) -> (path: &str)
        ensures
            path@ == self@.staging,
            self@.well_formed(),
            path@ != self@.target,
    {
        proof {
            use_type_invariant(self);
            lemma_staging_differs(self.target@);
        }
        self.staging.as_str()
    }

    /// How far the download has come.
    pub fn phase(&self) -> (phase: Phase)
        ensures
            phase == self@.phase,
    {
        self.phase
    }

    /// The result of the download once it has ended, `None` while it runs.
    pub fn outcome(&self) -> (outcome: Option<Result<(), UpdateError>>)
        ensures
            outcome == match self@.phase {
                Phase::Completed => Some(Ok::<(), UpdateError>(())),
                Phase::Failed(cause) => Some(Err::<(), UpdateError>(cause)),
                _ => None,
            },
    {
        match self.phase {
            Phase::Completed => Some(Ok(())),
            Phase::Failed(cause) => Some(Err(cause)),
            _ => None,
        }
    }

    /// Takes in what the driver observed and answers with what it has to do.
    ///
    /// The paths never change; phase and action are those of [`next`], and a
    /// chunk is handed on to be appended without being copied.
    pub fn step(&mut self, event: Event) -> (action: Action)
        ensures
            final(self)@.target == old(self)@.target,
            final(self)@.staging == old(self)@.staging,
            final(self)@.well_formed(),
            (final(self)@.phase, action@) == next(old(self)@.phase, event@),
    {
        proof {
            use_type_invariant(&*self);
        }
        let (phase, action) = match self.phase {
            Phase::Pending => match event {
                Event::Opened => (Phase::Streaming, Action::Create),
                Event::TransportFailed => (Phase::Failed(UpdateError::Transport), Action::Nothing),
                Event::WriteFailed => (Phase::Failed(UpdateError::Io), Action::Nothing),
                _ => (self.phase, Action::Nothing),
            },
            Phase::Streaming => match event {
                Event::Chunk(bytes) => (Phase::Streaming, Action::Append(bytes)),
                Event::Finished => (Phase::Committing, Action::Commit),
                Event::TransportFailed => (Phase::Failed(UpdateError::Transport), Action::Discard),
                Event::WriteFailed => (Phase::Failed(UpdateError::Io), Action::Discard),
                _ => (self.phase, Action::Nothing),
            },
            Phase::Committing => match event {
                Event::Committed => (Phase::Completed, Action::Nothing),
                Event::TransportFailed => (Phase::Failed(UpdateError::Transport), Action::Discard),
                Event::WriteFailed => (Phase::Failed(UpdateError::Io), Action::Discard),
                _ => (self.phase, Action::Nothing),
            },
            Phase::Completed => (self.phase, Action::Nothing),
            Phase::Failed(_) => (self.phase, Action::Nothing),
        };
        self.phase = phase;
        action
    }
}

/// A staging path is never the target path it belongs to.
pub proof fn lemma_staging_differs(target: Seq<char>)
    ensures
        staging_path_of(target) != target,
{
    reveal_strlit(".part");
}

/// A staging file never passes for an artifact: its name does not end in
/// the platform extension, so a scan of the directory skips it.
pub proof fn lemma_staging_is_no_artifact(target: Seq<char>)
    ensures
        !PLATFORM_SUFFIX@.is_suffix_of(staging_path_of(target)),
{
    reveal_strlit(".part");
    reveal_strlit(".AppImage");
    let staging = staging_path_of(target);
    if PLATFORM_SUFFIX@.is_suffix_of(staging) {
        let tail = staging.subrange(staging.len() - 9, staging.len() as int);
        assert(tail[8] == staging[staging.len() - 1]);
    }
}

/// A model of the files on disk: the content stored under each path.
pub type Files = Map<Seq<char>, Seq<u8>>;

/// The files after the driver has carried out `action`.
///
/// `Commit` changes nothing here on purpose: a rename either happens as a
/// whole or not at all, and the driver says which by reporting `Committed`
/// or `WriteFailed`, so its effect is that of the report (see [`observe`]).
pub open spec fn perform(download: DownloadView, files: Files, action: ActionView) -> Files {
    match action {
        ActionView::Create => files.insert(download.staging, Seq::empty()),
        ActionView::Append(bytes) => if files.contains_key(download.staging) {
            files.insert(download.staging, files[download.staging] + bytes)
        } else {
            files
        },
        ActionView::Discard => files.remove(download.staging),
        ActionView::Commit | ActionView::Nothing => files,
    }
}

/// The files as they are when the driver reports `event`: a `Committed`
/// that answers a `Commit` means the staging file now is the target.
pub open spec fn observe(download: DownloadView, files: Files, event: EventView) -> Files {
    if download.phase == Phase::Committing && event == EventView::Committed && files.contains_key(
        download.staging,
    ) {
        files.remove(download.staging).insert(download.target, files[download.staging])
    } else {
        files
    }
}

/// One turn of machine and driver: the event is taken in and the answering
/// action carried out.
pub open spec fn advance(download: DownloadView, files: Files, event: EventView) -> (
    DownloadView,
    Files,
) {
    let (phase, action) = next(download.phase, event);
    (
        DownloadView { phase, ..download },
        perform(download, observe(download, files, event), action),
    )
}

/// Machine and files after a whole sequence of events.
pub open spec fn run(download: DownloadView, files: Files, events: Seq<EventView>) -> (
    DownloadView,
    Files,
)
    decreases events.len(),
{
    if events.len() == 0 {
        (download, files)
    } else {
        let (before, files_before) = run(download, files, events.drop_last());
        advance(before, files_before, events.last())
    }
}

/// The events of a body that arrives in the given chunks, up to but not
/// including its end.
pub open spec fn arrival(chunks: Seq<Seq<u8>>) -> Seq<EventView> {
    seq![EventView::Opened] + chunks.map_values(|bytes: Seq<u8>| EventView::Chunk(bytes))
}

/// The total number of bytes in a sequence of chunks.
pub open spec fn total_len(chunks: Seq<Seq<u8>>) -> nat
    decreases chunks.len(),
{
    if chunks.len() == 0 {
        0
    } else {
        total_len(chunks.drop_last()) + chunks.last().len()
    }
}

/// The chunks laid end to end are as long as the chunks together.
pub proof fn lemma_flatten_len(chunks: Seq<Seq<u8>>)
    ensures
        chunks.flatten().len() == total_len(chunks),
    decreases chunks.len(),
{
    if chunks.len() > 0 {
        let init = chunks.drop_last();
        lemma_flatten_len(init);
        init.lemma_flatten_push(chunks.last());
        assert(init.push(chunks.last()) =~= chunks);
    }
}

/// While a body arrives the staging file holds exactly the chunks received
/// so far, in order, and nothing else on disk has changed.
pub proof fn lemma_streaming(download: DownloadView, files: Files, chunks: Seq<Seq<u8>>)
    requires
        download.phase == Phase::Pending,
    ensures
        run(download, files, arrival(chunks)) == (
            DownloadView { phase: Phase::Streaming, ..download },
            files.insert(download.staging, chunks.flatten()),
        ),
    decreases chunks.len(),
{
    let events = arrival(chunks);
    if chunks.len() == 0 {
        assert(run(download, files, events.drop_last()) == (download, files));
    } else {
        let init = chunks.drop_last();
        lemma_streaming(download, files, init);
        assert(events.drop_last() =~= arrival(init));
        init.lemma_flatten_push(chunks.last());
        assert(init.push(chunks.last()) =~= chunks);
        let staged = files.insert(download.staging, init.flatten());
        assert(staged.insert(download.staging, staged[download.staging] + chunks.last())
            =~= files.insert(download.staging, chunks.flatten()));
    }
}

/// A body of N bytes that arrives in any number of chunks and is committed
/// ends up under the target path as exactly those N bytes, in the order
/// received; the staging file is gone, and no other file has changed.
pub proof fn lemma_complete_download(download: DownloadView, files: Files, chunks: Seq<Seq<u8>>)
    requires
        download.phase == Phase::Pending,
        download.well_formed(),
    ensures
        run(download, files, arrival(chunks) + seq![EventView::Finished, EventView::Committed]) == (
            DownloadView { phase: Phase::Completed, ..download },
            files.remove(download.staging).insert(download.target, chunks.flatten()),
        ),
        chunks.flatten().len() == total_len(chunks),
{
    let streamed = arrival(chunks);
    let ended = streamed.push(EventView::Finished);
    let events = streamed + seq![EventView::Finished, EventView::Committed];
    lemma_staging_differs(download.target);
    lemma_streaming(download, files, chunks);
    lemma_flatten_len(chunks);
    assert(ended.drop_last() =~= streamed);
    assert(events.drop_last() =~= ended);
    let staged = files.insert(download.staging, chunks.flatten());
    assert(run(download, files, ended) == (
        DownloadView { phase: Phase::Committing, ..download },
        staged,
    ));
    assert(staged.remove(download.staging).insert(download.target, staged[download.staging])
        =~= files.remove(download.staging).insert(download.target, chunks.flatten()));
}

/// A download that fails after any part of the body has arrived leaves no
/// staging file behind and leaves every other file, the target included, as
/// it was.
pub proof fn lemma_interrupted_download(
    download: DownloadView,
    files: Files,
    chunks: Seq<Seq<u8>>,
    failure: EventView,
)
    requires
        download.phase == Phase::Pending,
        failure_of(failure) is Some,
    ensures
        run(download, files, arrival(chunks).push(failure)) == (
            DownloadView { phase: Phase::Failed(failure_of(failure)->0), ..download },
            files.remove(download.staging),
        ),
{
    let streamed = arrival(chunks);
    lemma_streaming(download, files, chunks);
    assert(streamed.push(failure).drop_last() =~= streamed);
    assert(files.insert(download.staging, chunks.flatten()).remove(download.staging)
        =~= files.remove(download.staging));
}

/// Whatever events arrive in whatever order: the paths of the download stay
/// the same, files other than target and staging file are never touched, and
/// the target is as it was unless the download has completed.
pub proof fn lemma_target_safe(download: DownloadView, files: Files, events: Seq<EventView>)
    requires
        download.phase == Phase::Pending,
        download.well_formed(),
    ensures
        ({
            let (after, files_after) = run(download, files, events);
            &&& after.target == download.target
            &&& after.staging == download.staging
            &&& forall|path: Seq<char>|
                path != download.staging && path != download.target ==> (
                #[trigger] files_after.contains_key(path) == files.contains_key(path)
                    && files_after[path] == files[path])
            &&& after.phase != Phase::Completed ==> files_after.contains_key(download.target)
                == files.contains_key(download.target) && files_after[download.target]
                == files[download.target]
            &&& after.phase is Failed ==> after.phase->Failed_0 == UpdateError::Transport
                || after.phase->Failed_0 == UpdateError::Io
        }),
    decreases events.len(),
{
    lemma_staging_differs(download.target);
    if events.len() > 0 {
        lemma_target_safe(download, files, events.drop_last());
    }
}

} // verus!
