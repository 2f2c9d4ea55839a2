//! Staging plaintext for an external editor.
//!
//! The editor needs a real file. To keep the plaintext off durable storage
//! the file is put on a memory-backed file system: the one the host has, or,
//! where it has none, a RAM volume made for the occasion. Whatever happens,
//! the file is removed and such a volume is detached before the session ends.
//!
//! Nothing here touches a file or starts a process. A [`Session`] says what
//! is to be done next and is told what came of it.

use crate::command::{
    device_named, device_of, Command, CommandView, ExitStatus, NATIVE_DIR, VOLUME_DIR,
    VOLUME_MEGABYTES,
};
use crate::error::Error;
use vstd::prelude::*;
use vstd::string::StringExecFns;

verus! {

/// The kind of host, as far as staging goes.
#[derive(Debug, Clone, Copy, PartialEq, Eq, Structural)]
pub enum Platform {
    /// A host without a memory-backed file system of its own: a RAM volume
    /// is made and detached again.
    Osx,
    /// Any other host: it has one under [`NATIVE_DIR`].
    Other,
}

/// A memory-backed file system to stage plaintext on.
#[derive(Debug, Clone, PartialEq, Eq)]
pub enum InMemoryFS {
    /// The one that the host provides.
    Linux { path: String },
    /// A RAM volume made for this session, and the device that carries it.
    OSX { volume: String, device: String },
}

/// [`InMemoryFS`] as contracts see it.
pub enum FsView {
    Linux { path: Seq<char> },
    OSX { volume: Seq<char>, device: Seq<char> },
}

impl View for InMemoryFS {
    type V = FsView;

    open spec fn view(&self) -> FsView {
        match self {
            InMemoryFS::Linux { path } => FsView::Linux { path: path@ },
            InMemoryFS::OSX { volume, device } => FsView::OSX { volume: volume@, device: device@ },
        }
    }
}

impl FsView {
    /// The file system that the host provides.
    pub open spec fn native() -> FsView {
        FsView::Linux { path: NATIVE_DIR@ }
    }

    /// The RAM volume carried by `device`.
    pub open spec fn provisioned(device: Seq<char>) -> FsView {
        FsView::OSX { volume: VOLUME_DIR@, device }
    }

    /// The directory in which files are staged.
    pub open spec fn tmpdir(self) -> Seq<char> {
        match self {
            FsView::Linux { path } => path,
            FsView::OSX { volume, .. } => volume,
        }
    }

    /// The command that gives up what was made for this session, if anything
    /// was.
    pub open spec fn teardown(self) -> Option<CommandView> {
        match self {
            FsView::Linux { .. } => None,
            FsView::OSX { device, .. } => Some(CommandView::Detach { device }),
        }
    }
}

impl InMemoryFS {
    /// The file system that the host provides.
    pub fn native() -> (fs: InMemoryFS)
        ensures
            fs@ == FsView::native(),
    {
        InMemoryFS::Linux { path: String::from_str(NATIVE_DIR) }
    }

    /// The RAM volume carried by `device`.
    pub fn provisioned(device: String) -> (fs: InMemoryFS)
        ensures
            fs@ == FsView::provisioned(device@),
    {
        InMemoryFS::OSX { volume: String::from_str(VOLUME_DIR), device }
    }

    /// The directory in which files are staged.
    pub fn tmpdir(&self) -> (dir: &String)
        ensures
            dir@ == self@.tmpdir(),
    {
        match self {
            InMemoryFS::Linux { path } => path,
            InMemoryFS::OSX { volume, device: _ } => volume,
        }
    }

    /// The command that gives up what was made for this session: none for
    /// the host's own file system, the detaching of the device for a RAM
    /// volume.
    pub fn teardown(&self) -> (command: Option<Command>)
        ensures
            match command {
                Some(command) => self@.teardown() == Some(command@),
                None => self@.teardown() is None,
            },
    {
        match self {
            InMemoryFS::Linux { path: _ } => None,
            InMemoryFS::OSX { volume: _, device } => Some(
                Command::Detach { device: device.clone() },
            ),
        }
    }
}

/// How an editing session ended.
#[derive(Debug, Clone, PartialEq, Eq)]
pub enum Outcome {
    /// The editor returned zero: these are the contents it left.
    Saved(Vec<u8>),
    /// The editor returned something else: the user wants nothing changed.
    Aborted,
    /// The session could not be carried through.
    Failed(Error),
}

/// [`Outcome`] as contracts see it.
pub enum OutcomeView {
    Saved(Seq<u8>),
    Aborted,
    Failed(Error),
}

impl View for Outcome {
    type V = OutcomeView;

    open spec fn view(&self) -> OutcomeView {
        match self {
            Outcome::Saved(contents) => OutcomeView::Saved(contents@),
            Outcome::Aborted => OutcomeView::Aborted,
            Outcome::Failed(e) => OutcomeView::Failed(*e),
        }
    }
}

impl OutcomeView {
    /// The outcome after a step of the cleanup failed: a failure, the earlier
    /// one if there was one.
    pub open spec fn worsened(self) -> OutcomeView {
        match self {
            OutcomeView::Failed(e) => OutcomeView::Failed(e),
            _ => OutcomeView::Failed(Error::Io),
        }
    }
}

impl Outcome {
    /// The outcome after a step of the cleanup failed.
    fn worsen(self) -> (worse: Outcome)
        ensures
            worse@ == self@.worsened(),
    {
        match self {
            Outcome::Failed(e) => Outcome::Failed(e),
            _ => Outcome::Failed(Error::Io),
        }
    }
}

/// What the caller is to do next.
#[derive(Debug, Clone, PartialEq, Eq)]
pub enum Request {
    /// Run the command to its end and report what it printed.
    Capture(Command),
    /// Run the command to its end and report how it ended.
    Run(Command),
    /// Create an empty file under a fresh random name in the directory and
    /// report its path.
    Create { dir: String },
    /// Write the contents into the file.
    Write { file: String, contents: Vec<u8> },
    /// Report the contents of the file.
    Read { file: String },
    /// Remove the file.
    Remove { file: String },
    /// Nothing: the session is over, with this outcome.
    Finish(Outcome),
}

/// [`Request`] as contracts see it.
pub enum RequestView {
    Capture(CommandView),
    Run(CommandView),
    Create { dir: Seq<char> },
    Write { file: Seq<char>, contents: Seq<u8> },
    Read { file: Seq<char> },
    Remove { file: Seq<char> },
    Finish(OutcomeView),
}

impl View for Request {
    type V = RequestView;

    open spec fn view(&self) -> RequestView {
        match self {
            Request::Capture(command) => RequestView::Capture(command@),
            Request::Run(command) => RequestView::Run(command@),
            Request::Create { dir } => RequestView::Create { dir: dir@ },
            Request::Write { file, contents } => RequestView::Write {
                file: file@,
                contents: contents@,
            },
            Request::Read { file } => RequestView::Read { file: file@ },
            Request::Remove { file } => RequestView::Remove { file: file@ },
            Request::Finish(outcome) => RequestView::Finish(outcome@),
        }
    }
}

/// What came of the last request.
#[derive(Debug, Clone, PartialEq, Eq)]
pub enum Reply {
    /// What the captured command printed, and how it ended.
    Output { stdout: Vec<u8>, status: ExitStatus },
    /// How the command ended.
    Exited(ExitStatus),
    /// The path of the file that was created.
    Created(String),
    /// The contents of the file that was read.
    Contents(Vec<u8>),
    /// The file was written or removed.
    Done,
    /// The request could not be carried out.
    Failed,
}

/// [`Reply`] as contracts see it.
pub enum ReplyView {
    Output { stdout: Seq<u8>, status: ExitStatus },
    Exited(ExitStatus),
    Created(Seq<char>),
    Contents(Seq<u8>),
    Done,
    Failed,
}

impl View for Reply {
    type V = ReplyView;

    open spec fn view(&self) -> ReplyView {
        match self {
            Reply::Output { stdout, status } => ReplyView::Output {
                stdout: stdout@,
                status: *status,
            },
            Reply::Exited(status) => ReplyView::Exited(*status),
            Reply::Created(file) => ReplyView::Created(file@),
            Reply::Contents(bytes) => ReplyView::Contents(bytes@),
            Reply::Done => ReplyView::Done,
            Reply::Failed => ReplyView::Failed,
        }
    }
}

/// Where an editing session stands: which request is out, and what is held
/// meanwhile.
#[derive(Debug, Clone, PartialEq, Eq)]
pub enum Session {
    /// The RAM device is being attached.
    Attaching { initial: Vec<u8> },
    /// The volume is being made on the device.
    Erasing { initial: Vec<u8>, device: String },
    /// The file is being created.
    Creating { fs: InMemoryFS, initial: Vec<u8> },
    /// The plaintext is being written into the file.
    Writing { fs: InMemoryFS, file: String },
    /// The editor is running on the file.
    Editing { fs: InMemoryFS, file: String },
    /// The file is being read back.
    Reading { fs: InMemoryFS, file: String },
    /// The file is being removed.
    Removing { fs: InMemoryFS, outcome: Outcome },
    /// The device is being detached.
    Detaching { outcome: Outcome },
    /// The session is over.
    Finished,
}

/// [`Session`] as contracts see it.
pub enum SessionView {
    Attaching { initial: Seq<u8> },
    Erasing { initial: Seq<u8>, device: Seq<char> },
    Creating { fs: FsView, initial: Seq<u8> },
    Writing { fs: FsView, file: Seq<char> },
    Editing { fs: FsView, file: Seq<char> },
    Reading { fs: FsView, file: Seq<char> },
    Removing { fs: FsView, outcome: OutcomeView },
    Detaching { outcome: OutcomeView },
    Finished,
}

impl View for Session {
    type V = SessionView;

    open spec fn view(&self) -> SessionView {
        match self {
            Session::Attaching { initial } => SessionView::Attaching { initial: initial@ },
            Session::Erasing { initial, device } => SessionView::Erasing {
                initial: initial@,
                device: device@,
            },
            Session::Creating { fs, initial } => SessionView::Creating {
                fs: fs@,
                initial: initial@,
            },
            Session::Writing { fs, file } => SessionView::Writing { fs: fs@, file: file@ },
            Session::Editing { fs, file } => SessionView::Editing { fs: fs@, file: file@ },
            Session::Reading { fs, file } => SessionView::Reading { fs: fs@, file: file@ },
            Session::Removing { fs, outcome } => SessionView::Removing {
                fs: fs@,
                outcome: outcome@,
            },
            Session::Detaching { outcome } => SessionView::Detaching { outcome: outcome@ },
            Session::Finished => SessionView::Finished,
        }
    }
}

/// How a session starts: on a host with a memory-backed file system with
/// the creation of the file, on any other with the attaching of a RAM device.
pub open spec fn spawned(platform: Platform, initial: Seq<u8>) -> (SessionView, RequestView) {
    match platform {
        Platform::Osx => (
            SessionView::Attaching { initial },
            RequestView::Capture(CommandView::Attach { megabytes: VOLUME_MEGABYTES }),
        ),
        Platform::Other => created_in(FsView::native(), initial),
    }
}

/// The step that asks for the file, once the file system stands.
pub open spec fn created_in(fs: FsView, initial: Seq<u8>) -> (SessionView, RequestView) {
    (SessionView::Creating { fs, initial }, RequestView::Create { dir: fs.tmpdir() })
}

/// The step that gives the file system up, once the file is gone: the
/// detaching of the device, or, where none was attached, the end.
pub open spec fn released(fs: FsView, outcome: OutcomeView) -> (SessionView, RequestView) {
    match fs.teardown() {
        Some(command) => (SessionView::Detaching { outcome }, RequestView::Run(command)),
        None => (SessionView::Finished, RequestView::Finish(outcome)),
    }
}

/// The step that removes the file.
pub open spec fn removed(fs: FsView, file: Seq<char>, outcome: OutcomeView) -> (
    SessionView,
    RequestView,
) {
    (SessionView::Removing { fs, outcome }, RequestView::Remove { file })
}

/// The step that follows on a reply. A reply of a kind that the request out
/// does not call for counts as its failure. So does an attach or an erase
/// command that returns anything but zero, and an attach command that names
/// no device: the plaintext is staged on the volume or not at all.
pub open spec fn advanced(session: SessionView, reply: ReplyView) -> (SessionView, RequestView) {
    match session {
        SessionView::Attaching { initial } => match reply {
            ReplyView::Output { stdout, status } => match device_named(stdout) {
                Some(device) => if status.accepted() {
                    (
                        SessionView::Erasing { initial, device },
                        RequestView::Run(CommandView::Erase { device }),
                    )
                } else {
                    released(
                        FsView::provisioned(device),
                        OutcomeView::Failed(Error::StagingUnavailable),
                    )
                },
                None => (
                    SessionView::Finished,
                    RequestView::Finish(OutcomeView::Failed(Error::StagingUnavailable)),
                ),
            },
            _ => (
                SessionView::Finished,
                RequestView::Finish(OutcomeView::Failed(Error::StagingUnavailable)),
            ),
        },
        SessionView::Erasing { initial, device } => match reply {
            ReplyView::Exited(status) if status.accepted() => created_in(
                FsView::provisioned(device),
                initial,
            ),
            _ => released(
                FsView::provisioned(device),
                OutcomeView::Failed(Error::StagingUnavailable),
            ),
        },
        SessionView::Creating { fs, initial } => match reply {
            ReplyView::Created(file) => (
                SessionView::Writing { fs, file },
                RequestView::Write { file, contents: initial },
            ),
            _ => released(fs, OutcomeView::Failed(Error::StagingUnavailable)),
        },
        SessionView::Writing { fs, file } => match reply {
            ReplyView::Done => (
                SessionView::Editing { fs, file },
                RequestView::Run(CommandView::Editor { file }),
            ),
            _ => removed(fs, file, OutcomeView::Failed(Error::StagingUnavailable)),
        },
        SessionView::Editing { fs, file } => match reply {
            ReplyView::Exited(status) => if status.accepted() {
                (SessionView::Reading { fs, file }, RequestView::Read { file })
            } else {
                removed(fs, file, OutcomeView::Aborted)
            },
            _ => removed(fs, file, OutcomeView::Failed(Error::Io)),
        },
        SessionView::Reading { fs, file } => match reply {
            ReplyView::Contents(contents) => removed(fs, file, OutcomeView::Saved(contents)),
            _ => removed(fs, file, OutcomeView::Failed(Error::Io)),
        },
        SessionView::Removing { fs, outcome } => match reply {
            ReplyView::Done => released(fs, outcome),
            _ => released(fs, outcome.worsened()),
        },
        SessionView::Detaching { outcome } => match reply {
            ReplyView::Exited(_) => (SessionView::Finished, RequestView::Finish(outcome)),
            _ => (SessionView::Finished, RequestView::Finish(outcome.worsened())),
        },
        SessionView::Finished => (
            SessionView::Finished,
            RequestView::Finish(OutcomeView::Failed(Error::Io)),
        ),
    }
}

impl FsView {
    /// The device that was attached for this file system.
    pub open spec fn device(self) -> Option<Seq<char>> {
        match self {
            FsView::Linux { .. } => None,
            FsView::OSX { device, .. } => Some(device),
        }
    }
}

impl SessionView {
    /// The file that was created and that no request has yet removed.
    pub open spec fn staged_file(self) -> Option<Seq<char>> {
        match self {
            SessionView::Writing { file, .. } => Some(file),
            SessionView::Editing { file, .. } => Some(file),
            SessionView::Reading { file, .. } => Some(file),
            _ => None,
        }
    }

    /// The device that was attached and that no request has yet detached.
    pub open spec fn attached_device(self) -> Option<Seq<char>> {
        match self {
            SessionView::Erasing { device, .. } => Some(device),
            SessionView::Creating { fs, .. } => fs.device(),
            SessionView::Writing { fs, .. } => fs.device(),
            SessionView::Editing { fs, .. } => fs.device(),
            SessionView::Reading { fs, .. } => fs.device(),
            SessionView::Removing { fs, .. } => fs.device(),
            _ => None,
        }
    }
}

/// A staged file is never forgotten: whatever the reply, the session either
/// still holds the file afterwards or asks for its removal.
pub proof fn lemma_file_is_removed(session: SessionView, reply: ReplyView)
    requires
        session.staged_file() is Some,
    ensures
        ({
            let (next, request) = advanced(session, reply);
            let file = session.staged_file()->0;
            next.staged_file() == Some(file) || request == (RequestView::Remove { file })
        }),
{
}

/// An attached device is never forgotten: whatever the reply, the session
/// either still holds the device afterwards or asks for its detaching.
pub proof fn lemma_device_is_detached(session: SessionView, reply: ReplyView)
    requires
        session.attached_device() is Some,
    ensures
        ({
            let (next, request) = advanced(session, reply);
            let device = session.attached_device()->0;
            next.attached_device() == Some(device) || request == RequestView::Run(
                CommandView::Detach { device },
            )
        }),
{
}

/// A session ends with nothing in hand: when it says that it is over, it
/// holds no staged file and no attached device, and it stays over.
pub proof fn lemma_finish_holds_nothing(session: SessionView, reply: ReplyView)
    requires
        advanced(session, reply).1 is Finish,
    ensures
        session.staged_file() is None,
        session.attached_device() is None,
        advanced(session, reply).0 == SessionView::Finished,
{
}

/// The session after a run of replies, each answering the request before it.
pub open spec fn session_after(session: SessionView, replies: Seq<ReplyView>) -> SessionView
    decreases replies.len(),
{
    if replies.len() == 0 {
        session
    } else {
        session_after(advanced(session, replies[0]).0, replies.skip(1))
    }
}

/// The requests that a run of replies draws from the session, in order.
pub open spec fn requests_after(session: SessionView, replies: Seq<ReplyView>) -> Seq<RequestView>
    decreases replies.len(),
{
    if replies.len() == 0 {
        Seq::empty()
    } else {
        let (next, request) = advanced(session, replies[0]);
        seq![request] + requests_after(next, replies.skip(1))
    }
}

/// Release is guaranteed on every path: however a session gets to its end,
/// whatever the replies, by then it has asked for the removal of the file
/// that it held and for the detaching of the device that it held.
pub proof fn lemma_release_is_guaranteed(session: SessionView, replies: Seq<ReplyView>)
    requires
        session_after(session, replies) == SessionView::Finished,
    ensures
        session.staged_file() matches Some(file) ==> requests_after(session, replies).contains(
            RequestView::Remove { file },
        ),
        session.attached_device() matches Some(device) ==> requests_after(
            session,
            replies,
        ).contains(RequestView::Run(CommandView::Detach { device })),
    decreases replies.len(),
{
    if replies.len() > 0 {
        let (next, request) = advanced(session, replies[0]);
        let rest = requests_after(next, replies.skip(1));
        let all = requests_after(session, replies);
        lemma_release_is_guaranteed(next, replies.skip(1));
        assert(all[0] == request);
        assert forall|r: RequestView| rest.contains(r) implies all.contains(r) by {
            let k = choose|k: int| 0 <= k < rest.len() && rest[k] == r;
            assert(all[k + 1] == r);
        }
        if session.staged_file() is Some {
            lemma_file_is_removed(session, replies[0]);
        }
        if session.attached_device() is Some {
            lemma_device_is_detached(session, replies[0]);
        }
    }
}

impl SessionView {
    /// A bound on the requests that are still to come.
    pub open spec fn steps_left(self) -> nat {
        match self {
            SessionView::Attaching { .. } => 8,
            SessionView::Erasing { .. } => 7,
            SessionView::Creating { .. } => 6,
            SessionView::Writing { .. } => 5,
            SessionView::Editing { .. } => 4,
            SessionView::Reading { .. } => 3,
            SessionView::Removing { .. } => 2,
            SessionView::Detaching { .. } => 1,
            SessionView::Finished => 0,
        }
    }
}

/// A session ends: every reply brings it closer to its end, which it says
/// with [`Request::Finish`] and with nothing else.
pub proof fn lemma_session_ends(session: SessionView, reply: ReplyView)
    ensures
        session != SessionView::Finished ==> advanced(session, reply).0.steps_left()
            < session.steps_left(),
        advanced(session, reply).1 is Finish <==> advanced(session, reply).0
            == SessionView::Finished,
{
}

/// No file is staged on unsound ground: a file is asked for only at the
/// start, on a host with a memory-backed file system of its own, or after
/// the volume was made, by an erase command that returned zero on a device
/// that an attach command, returning zero, had named. No step of a session
/// asks for a file otherwise.
pub proof fn lemma_file_is_asked_for_on_a_volume_only(session: SessionView, reply: ReplyView)
    requires
        advanced(session, reply).1 is Create,
    ensures
        session is Erasing,
        reply matches ReplyView::Exited(status) && status.accepted(),
        advanced(session, reply).1 == (RequestView::Create { dir: VOLUME_DIR@ }),
{
}

/// The making of the volume has failed: the attach command returned
/// something else than zero or named no device, or the erase command
/// returned something else than zero.
pub open spec fn provisioning_failed(session: SessionView, reply: ReplyView) -> bool {
    match (session, reply) {
        (SessionView::Attaching { .. }, ReplyView::Output { stdout, status }) => {
            !status.accepted() || device_named(stdout) is None
        },
        (SessionView::Erasing { .. }, ReplyView::Exited(status)) => !status.accepted(),
        _ => false,
    }
}

/// Where the attach command fails, or names no device, no volume is made;
/// where the erase command fails, no file is created. Either way the session
/// is on its way to end as unavailable, the device, if one was named,
/// detached before.
pub proof fn lemma_failed_provisioning_is_unavailable(session: SessionView, reply: ReplyView)
    requires
        provisioning_failed(session, reply),
    ensures
        ({
            let (next, request) = advanced(session, reply);
            &&& !(request is Create)
            &&& !(request matches RequestView::Run(command) && command is Erase)
            &&& next == (SessionView::Detaching {
                outcome: OutcomeView::Failed(Error::StagingUnavailable),
            }) || (next == SessionView::Finished && request == RequestView::Finish(
                OutcomeView::Failed(Error::StagingUnavailable),
            ))
        }),
{
}

/// An editor that returns anything but zero changes nothing: the file is
/// not read back, and the session is on its way to end as aborted.
pub proof fn lemma_rejected_edit_is_aborted(fs: FsView, file: Seq<char>, status: ExitStatus)
    requires
        !status.accepted(),
    ensures
        advanced(SessionView::Editing { fs, file }, ReplyView::Exited(status)) == (
            SessionView::Removing { fs, outcome: OutcomeView::Aborted },
            RequestView::Remove { file },
        ),
{
}

/// The first step towards a RAM volume of [`VOLUME_MEGABYTES`]: the
/// attaching of the device. The making of the volume follows when the
/// device is known.
fn create_osx_tmpfs(initial: Vec<u8>) -> (step: (Session, Request))
    ensures
        (step.0@, step.1@) == spawned(Platform::Osx, initial@),
{
    (
        Session::Attaching { initial },
        Request::Capture(Command::Attach { megabytes: VOLUME_MEGABYTES }),
    )
}

/// The step that asks for the file, once the file system stands.
fn create_in(fs: InMemoryFS, initial: Vec<u8>) -> (step: (Session, Request))
    ensures
        (step.0@, step.1@) == created_in(fs@, initial@),
{
    let dir = fs.tmpdir().clone();
    (Session::Creating { fs, initial }, Request::Create { dir })
}

/// The step that gives the file system up, once the file is gone.
fn release(fs: InMemoryFS, outcome: Outcome) -> (step: (Session, Request))
    ensures
        (step.0@, step.1@) == released(fs@, outcome@),
{
    match fs.teardown() {
        Some(command) => (Session::Detaching { outcome }, Request::Run(command)),
        None => (Session::Finished, Request::Finish(outcome)),
    }
}

/// The step that removes the file.
fn remove(fs: InMemoryFS, file: String, outcome: Outcome) -> (step: (Session, Request))
    ensures
        (step.0@, step.1@) == removed(fs@, file@, outcome@),
{
    (Session::Removing { fs, outcome }, Request::Remove { file })
}

/// Starts a session that lets the user edit `initial_contents`.
///
/// Returns the session and the first thing to do. From then on
/// [`Session::advance`] takes what came of each request and says what to do
/// next, until it says [`Request::Finish`].
pub fn spawn(platform: Platform, initial_contents: Vec<u8>) -> (step: (Session, Request))
    ensures
        (step.0@, step.1@) == spawned(platform, initial_contents@),
{
    match platform {
        Platform::Osx => create_osx_tmpfs(initial_contents),
        Platform::Other => create_in(InMemoryFS::native(), initial_contents),
    }
}

impl Session {
    /// Takes what came of the last request and says what to do next.
    pub fn advance(self, reply: Reply) -> (step: (Session, Request))
        ensures
            (step.0@, step.1@) == advanced(self@, reply@),
    {
        match self {
            Session::Attaching { initial } => match reply {
                Reply::Output { stdout, status } => match device_of(stdout) {
                    Some(device) => {
                        if status.is_accepted() {
                            let argument = device.clone();
                            (
                                Session::Erasing { initial, device },
                                Request::Run(Command::Erase { device: argument }),
                            )
                        } else {
                            release(
                                InMemoryFS::provisioned(device),
                                Outcome::Failed(Error::StagingUnavailable),
                            )
                        }
                    },
                    None => (
                        Session::Finished,
                        Request::Finish(Outcome::Failed(Error::StagingUnavailable)),
                    ),
                },
                _ => (
                    Session::Finished,
                    Request::Finish(Outcome::Failed(Error::StagingUnavailable)),
                ),
            },
            Session::Erasing { initial, device } => match reply {
                Reply::Exited(status) if status.is_accepted() => create_in(
                    InMemoryFS::provisioned(device),
                    initial,
                ),
                _ => release(
                    InMemoryFS::provisioned(device),
                    Outcome::Failed(Error::StagingUnavailable),
                ),
            },
            Session::Creating { fs, initial } => match reply {
                Reply::Created(file) => {
                    let target = file.clone();
                    (
                        Session::Writing { fs, file },
                        Request::Write { file: target, contents: initial },
                    )
                },
                _ => release(fs, Outcome::Failed(Error::StagingUnavailable)),
            },
            Session::Writing { fs, file } => match reply {
                Reply::Done => {
                    let target = file.clone();
                    (Session::Editing { fs, file }, Request::Run(Command::Editor { file: target }))
                },
                _ => remove(fs, file, Outcome::Failed(Error::StagingUnavailable)),
            },
            Session::Editing { fs, file } => match reply {
                Reply::Exited(status) => {
                    if status.is_accepted() {
                        let target = file.clone();
                        (Session::Reading { fs, file }, Request::Read { file: target })
                    } else {
                        remove(fs, file, Outcome::Aborted)
                    }
                },
                _ => remove(fs, file, Outcome::Failed(Error::Io)),
            },
            Session::Reading { fs, file } => match reply {
                Reply::Contents(contents) => remove(fs, file, Outcome::Saved(contents)),
                _ => remove(fs, file, Outcome::Failed(Error::Io)),
            },
            Session::Removing { fs, outcome } => match reply {
                Reply::Done => release(fs, outcome),
                _ => release(fs, outcome.worsen()),
            },
            Session::Detaching { outcome } => match reply {
                Reply::Exited(_) => (Session::Finished, Request::Finish(outcome)),
                _ => (Session::Finished, Request::Finish(outcome.worsen())),
            },
            Session::Finished => (Session::Finished, Request::Finish(Outcome::Failed(Error::Io))),
        }
    }
}

} // verus!
