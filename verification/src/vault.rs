//! The three operations on a vault: view, edit, change password.
//!
//! Each is a sequence of decisions with outside work between them: asking
//! for a password, loading the vault's file, letting the user edit, storing
//! the new container. A [`Vault`] makes the decisions. It says what is to be
//! done next and is told what came of it. The new container is whole before
//! storing is asked for, and storing is the last thing asked for: whatever
//! fails earlier leaves the file as it was.
//!
//! Only editing makes a vault. To view a file that is not there, or to
//! change its password, fails, and no file is made.

use crate::cmdline::{Opts, OptsView};
use crate::crypt::{
    container_from_bytes, container_from_text, container_text, decrypt_under, decrypted,
    encrypt_under, is_encryption_of, refused, Encrypted, EncryptedView,
};
use crate::editor::{Outcome, OutcomeView};
use crate::error::Error;
use crate::kdf::KdfParams;
use vstd::prelude::*;
use vstd::string::StringSliceAdditionalSpecFns;
use vstd::utf8::encode_utf8;

verus! {

/// A password to ask the user for.
#[derive(Debug, Clone, Copy, PartialEq, Eq, Structural)]
pub enum Prompt {
    /// The password of the vault.
    FilePassword,
    /// The same once more, as the vault is being made.
    ConfirmNewVault,
    /// The password that the vault has now.
    CurrentPassword,
    /// The password that the vault shall have.
    NewPassword,
    /// The same once more.
    ConfirmNewPassword,
}

impl Prompt {
    /// The text to ask with.
    pub open spec fn label(self) -> Seq<char> {
        match self {
            Prompt::FilePassword => "file password: "@,
            Prompt::ConfirmNewVault => "confirm password: "@,
            Prompt::CurrentPassword => "current password: "@,
            Prompt::NewPassword => "new password: "@,
            Prompt::ConfirmNewPassword => "confirm password: "@,
        }
    }

    /// The text to ask with.
    pub fn text(&self) -> (text: &'static str)
        ensures
            text@ == self.label(),
    {
        match self {
            Prompt::FilePassword => "file password: ",
            Prompt::ConfirmNewVault => "confirm password: ",
            Prompt::CurrentPassword => "current password: ",
            Prompt::NewPassword => "new password: ",
            Prompt::ConfirmNewPassword => "confirm password: ",
        }
    }

    /// The prompt tells the user that a new vault is being made.
    pub fn announces_creation(&self) -> (announces: bool)
        ensures
            announces == (*self == Prompt::ConfirmNewVault),
    {
        match self {
            Prompt::ConfirmNewVault => true,
            _ => false,
        }
    }
}

/// How an operation ended.
#[derive(Debug, Clone, Copy, PartialEq, Eq, Structural)]
pub enum Completion {
    /// It went through.
    Done,
    /// The user left the editor without accepting: the vault is as it was.
    /// This is no failure.
    Unchanged,
    /// It failed, and the vault is as it was.
    Failed(Error),
}

impl Completion {
    /// The status that the process is to exit with.
    pub open spec fn status(self) -> i32 {
        match self {
            Completion::Failed(_) => 1,
            _ => 0,
        }
    }

    /// The status that the process is to exit with: zero unless the
    /// operation failed.
    pub fn exit_code(&self) -> (code: i32)
        ensures
            code == self.status(),
    {
        match self {
            Completion::Failed(_) => 1,
            _ => 0,
        }
    }
}

/// What the caller is to do next.
#[derive(Debug, Clone, PartialEq, Eq)]
pub enum Action {
    /// Ask the user for a password, input masked.
    Prompt(Prompt),
    /// Read the vault's file, or find that there is none.
    Load,
    /// Let the user edit these contents (see [`crate::editor::spawn`]).
    Edit(Vec<u8>),
    /// Write this text to the vault's file, replacing what it held.
    Store(String),
    /// Write these bytes to standard output.
    Print(Vec<u8>),
    /// Nothing more: the operation is over.
    Finish(Completion),
}

/// [`Action`] as contracts see it.
pub enum ActionView {
    Prompt(Prompt),
    Load,
    Edit(Seq<u8>),
    Store(Seq<char>),
    Print(Seq<u8>),
    Finish(Completion),
}

impl View for Action {
    type V = ActionView;

    open spec fn view(&self) -> ActionView {
        match self {
            Action::Prompt(prompt) => ActionView::Prompt(*prompt),
            Action::Load => ActionView::Load,
            Action::Edit(contents) => ActionView::Edit(contents@),
            Action::Store(text) => ActionView::Store(text@),
            Action::Print(contents) => ActionView::Print(contents@),
            Action::Finish(completion) => ActionView::Finish(*completion),
        }
    }
}

/// What came of the last action.
#[derive(Debug, Clone, PartialEq, Eq)]
pub enum Event {
    /// The password that the user entered.
    Password(String),
    /// The bytes of the vault's file, or `None` where there is no such file.
    Loaded(Option<Vec<u8>>),
    /// How the editing session ended.
    Edited(Outcome),
    /// The text was written.
    Stored,
    /// The bytes were printed.
    Printed,
    /// The action could not be carried out.
    Failed,
}

/// [`Event`] as contracts see it.
pub enum EventView {
    Password(Seq<char>),
    Loaded(Option<Seq<u8>>),
    Edited(OutcomeView),
    Stored,
    Printed,
    Failed,
}

impl View for Event {
    type V = EventView;

    open spec fn view(&self) -> EventView {
        match self {
            Event::Password(password) => EventView::Password(password@),
            Event::Loaded(Some(bytes)) => EventView::Loaded(Some(bytes@)),
            Event::Loaded(None) => EventView::Loaded(None),
            Event::Edited(outcome) => EventView::Edited(outcome@),
            Event::Stored => EventView::Stored,
            Event::Printed => EventView::Printed,
            Event::Failed => EventView::Failed,
        }
    }
}

/// Where an operation stands: which action is out, and what is kept
/// meanwhile.
#[derive(Debug, Clone, PartialEq, Eq)]
pub enum Stage {
    /// View: the file is being loaded.
    ViewLoading,
    /// View: the password is being asked for.
    ViewPassword { container: Encrypted },
    /// View: the plaintext is being printed.
    Printing,
    /// Edit: the password is being asked for.
    EditPassword,
    /// Edit: the file is being loaded.
    EditLoading { password: String },
    /// Edit: there is no file, and the password is being asked for again.
    EditConfirming { password: String },
    /// Edit: the user is editing.
    Editing { password: String },
    /// Change password: the current password is being asked for.
    ChangeCurrent,
    /// Change password: the file is being loaded.
    ChangeLoading { current: String },
    /// Change password: the new password is being asked for.
    ChangeNew { plaintext: Vec<u8> },
    /// Change password: the new password is being asked for again.
    ChangeConfirming { plaintext: Vec<u8>, password: String },
    /// The new container is being stored.
    Storing,
    /// The operation is over.
    Finished,
}

/// [`Stage`] as contracts see it.
pub enum StageView {
    ViewLoading,
    ViewPassword { container: EncryptedView },
    Printing,
    EditPassword,
    EditLoading { password: Seq<char> },
    EditConfirming { password: Seq<char> },
    Editing { password: Seq<char> },
    ChangeCurrent,
    ChangeLoading { current: Seq<char> },
    ChangeNew { plaintext: Seq<u8> },
    ChangeConfirming { plaintext: Seq<u8>, password: Seq<char> },
    Storing,
    Finished,
}

impl View for Stage {
    type V = StageView;

    open spec fn view(&self) -> StageView {
        match self {
            Stage::ViewLoading => StageView::ViewLoading,
            Stage::ViewPassword { container } => StageView::ViewPassword { container: container@ },
            Stage::Printing => StageView::Printing,
            Stage::EditPassword => StageView::EditPassword,
            Stage::EditLoading { password } => StageView::EditLoading { password: password@ },
            Stage::EditConfirming { password } => StageView::EditConfirming { password: password@ },
            Stage::Editing { password } => StageView::Editing { password: password@ },
            Stage::ChangeCurrent => StageView::ChangeCurrent,
            Stage::ChangeLoading { current } => StageView::ChangeLoading { current: current@ },
            Stage::ChangeNew { plaintext } => StageView::ChangeNew { plaintext: plaintext@ },
            Stage::ChangeConfirming { plaintext, password } => StageView::ChangeConfirming {
                plaintext: plaintext@,
                password: password@,
            },
            Stage::Storing => StageView::Storing,
            Stage::Finished => StageView::Finished,
        }
    }
}

/// An operation under way: the work factor that its vault is encrypted
/// with, and where it stands.
#[derive(Debug, Clone, PartialEq, Eq)]
pub struct Vault {
    pub params: KdfParams,
    pub stage: Stage,
}

/// The plaintext that a vault holds: that of its file, decrypted under the
/// password, or the empty one where there is no file yet.
pub open spec fn decrypted_contents(
    existing: Option<Seq<u8>>,
    password: Seq<u8>,
    params: KdfParams,
) -> Result<Seq<u8>, Error> {
    match existing {
        None => Ok(Seq::empty()),
        Some(bytes) => match container_from_bytes(bytes) {
            Some(container) => decrypted(container, password, params),
            None => Err(Error::MalformedContainer),
        },
    }
}

/// Gets the plaintext that a vault holds, from the bytes of its file if it
/// has one.
///
/// A vault without a file holds the empty plaintext. Bytes that are no
/// container fail as [`Error::MalformedContainer`], a container that does
/// not open under the password as [`Error::AuthenticationFailed`].
pub fn get_decrypted_contents(existing: Option<Vec<u8>>, password: &str, params: &KdfParams) -> (
    contents: Result<Vec<u8>, Error>
)
    ensures
        match contents {
            Ok(plaintext) => decrypted_contents(
                match existing {
                    Some(bytes) => Some(bytes@),
                    None => None,
                },
                password.spec_bytes(),
                *params,
            ) == Ok::<Seq<u8>, Error>(plaintext@),
            Err(e) => decrypted_contents(
                match existing {
                    Some(bytes) => Some(bytes@),
                    None => None,
                },
                password.spec_bytes(),
                *params,
            ) == Err::<Seq<u8>, Error>(e),
        },
{
    match existing {
        None => Ok(Vec::new()),
        Some(bytes) => {
            let container = match Encrypted::from_bytes(bytes) {
                Ok(container) => container,
                Err(e) => {
                    return Err(e);
                },
            };
            decrypt_under(&container, password, params)
        },
    }
}

/// What follows on an event: a step whose every part is decided, or the
/// sealing of a plaintext under a password, whose salt and nonce are drawn
/// when it is done.
pub enum Plan {
    Go(StageView, ActionView),
    Seal { plaintext: Seq<u8>, password: Seq<char> },
}

/// The step that ends an operation in failure.
pub open spec fn failing(e: Error) -> Plan {
    Plan::Go(StageView::Finished, ActionView::Finish(Completion::Failed(e)))
}

/// How an operation starts: viewing with the loading of the file, the two
/// others with the asking for the password.
pub open spec fn started(op: OptsView) -> (StageView, ActionView) {
    match op {
        OptsView::View { .. } => (StageView::ViewLoading, ActionView::Load),
        OptsView::Edit { .. } => (
            StageView::EditPassword,
            ActionView::Prompt(Prompt::FilePassword),
        ),
        OptsView::ChangePassword { .. } => (
            StageView::ChangeCurrent,
            ActionView::Prompt(Prompt::CurrentPassword),
        ),
    }
}

/// The step that follows on an event. An event of a kind that the action out
/// does not call for counts as a failure of input or output.
pub open spec fn planned(stage: StageView, event: EventView, params: KdfParams) -> Plan {
    match stage {
        StageView::ViewLoading => match event {
            EventView::Loaded(Some(bytes)) => match container_from_bytes(bytes) {
                Some(container) => Plan::Go(
                    StageView::ViewPassword { container },
                    ActionView::Prompt(Prompt::FilePassword),
                ),
                None => failing(Error::MalformedContainer),
            },
            _ => failing(Error::Io),
        },
        StageView::ViewPassword { container } => match event {
            EventView::Password(password) => match decrypted(
                container,
                encode_utf8(password),
                params,
            ) {
                Ok(plaintext) => Plan::Go(StageView::Printing, ActionView::Print(plaintext)),
                Err(e) => failing(e),
            },
            _ => failing(Error::Io),
        },
        StageView::Printing => match event {
            EventView::Printed => Plan::Go(
                StageView::Finished,
                ActionView::Finish(Completion::Done),
            ),
            _ => failing(Error::Io),
        },
        StageView::EditPassword => match event {
            EventView::Password(password) => Plan::Go(
                StageView::EditLoading { password },
                ActionView::Load,
            ),
            _ => failing(Error::Io),
        },
        StageView::EditLoading { password } => match event {
            EventView::Loaded(None) => Plan::Go(
                StageView::EditConfirming { password },
                ActionView::Prompt(Prompt::ConfirmNewVault),
            ),
            EventView::Loaded(existing) => match decrypted_contents(
                existing,
                encode_utf8(password),
                params,
            ) {
                Ok(plaintext) => Plan::Go(
                    StageView::Editing { password },
                    ActionView::Edit(plaintext),
                ),
                Err(e) => failing(e),
            },
            _ => failing(Error::Io),
        },
        StageView::EditConfirming { password } => match event {
            EventView::Password(again) => if again == password {
                Plan::Go(StageView::Editing { password }, ActionView::Edit(Seq::empty()))
            } else {
                failing(Error::PasswordMismatch)
            },
            _ => failing(Error::Io),
        },
        StageView::Editing { password } => match event {
            EventView::Edited(OutcomeView::Saved(plaintext)) => sealing(
                plaintext,
                password,
                params,
            ),
            EventView::Edited(OutcomeView::Aborted) => Plan::Go(
                StageView::Finished,
                ActionView::Finish(Completion::Unchanged),
            ),
            EventView::Edited(OutcomeView::Failed(e)) => failing(e),
            _ => failing(Error::Io),
        },
        StageView::ChangeCurrent => match event {
            EventView::Password(current) => Plan::Go(
                StageView::ChangeLoading { current },
                ActionView::Load,
            ),
            _ => failing(Error::Io),
        },
        StageView::ChangeLoading { current } => match event {
            EventView::Loaded(Some(bytes)) => match decrypted_contents(
                Some(bytes),
                encode_utf8(current),
                params,
            ) {
                Ok(plaintext) => Plan::Go(
                    StageView::ChangeNew { plaintext },
                    ActionView::Prompt(Prompt::NewPassword),
                ),
                Err(e) => failing(e),
            },
            _ => failing(Error::Io),
        },
        StageView::ChangeNew { plaintext } => match event {
            EventView::Password(password) => Plan::Go(
                StageView::ChangeConfirming { plaintext, password },
                ActionView::Prompt(Prompt::ConfirmNewPassword),
            ),
            _ => failing(Error::Io),
        },
        StageView::ChangeConfirming { plaintext, password } => match event {
            EventView::Password(again) => if again == password {
                sealing(plaintext, password, params)
            } else {
                failing(Error::PasswordMismatch)
            },
            _ => failing(Error::Io),
        },
        StageView::Storing => match event {
            EventView::Stored => Plan::Go(
                StageView::Finished,
                ActionView::Finish(Completion::Done),
            ),
            _ => failing(Error::Io),
        },
        StageView::Finished => failing(Error::Io),
    }
}

/// The sealing of a plaintext, unless it is refused: a work factor that is
/// not valid and a plaintext that is longer than one nonce can cover end the
/// operation instead.
pub open spec fn sealing(plaintext: Seq<u8>, password: Seq<char>, params: KdfParams) -> Plan {
    match refused(plaintext, params) {
        Some(e) => failing(e),
        None => Plan::Seal { plaintext, password },
    }
}

/// `text` is the text of a container that holds `plaintext` encrypted under
/// `password`: the container's own text, with the four fields in their
/// order and in unpadded base64, and nothing else; the container has a salt,
/// a nonce and a tag of the right lengths and a ciphertext as long as the
/// plaintext; and it decrypts to the plaintext under the password.
#[verifier::opaque]
pub open spec fn stores(
    text: Seq<char>,
    plaintext: Seq<u8>,
    password: Seq<char>,
    params: KdfParams,
) -> bool {
    match container_from_text(text) {
        Some(container) => {
            &&& text == container_text(container)
            &&& container.well_formed()
            &&& container.ciphertext.len() == plaintext.len()
            &&& is_encryption_of(container, plaintext, encode_utf8(password), params)
            &&& decrypted(container, encode_utf8(password), params) == Ok::<Seq<u8>, Error>(
                plaintext,
            )
        },
        None => false,
    }
}

/// A step carries out a plan: it is the step that the plan decides, or,
/// for a sealing, the storing of the text of a container that holds the
/// plaintext encrypted under the password (see [`stores`]).
pub open spec fn carries_out(
    plan: Plan,
    stage: StageView,
    action: ActionView,
    params: KdfParams,
) -> bool {
    match plan {
        Plan::Go(next, act) => stage == next && action == act,
        Plan::Seal { plaintext, password } => stage == StageView::Storing && match action {
            ActionView::Store(text) => stores(text, plaintext, password, params),
            _ => false,
        },
    }
}

/// A confirmation that differs from the password ends the operation with
/// [`Error::PasswordMismatch`], whether a vault is being made or a password
/// changed: nothing is encrypted and nothing is stored.
pub proof fn lemma_mismatch_stores_nothing(
    stage: StageView,
    password: Seq<char>,
    again: Seq<char>,
    params: KdfParams,
)
    requires
        again != password,
        stage == (StageView::EditConfirming { password }) || exists|plaintext: Seq<u8>|
            stage == (StageView::ChangeConfirming { plaintext, password }),
    ensures
        planned(stage, EventView::Password(again), params) == failing(Error::PasswordMismatch),
{
}

/// Only editing makes a vault: where there is no file, viewing and the
/// changing of the password end in failure at once, with nothing asked of
/// the user any more and nothing stored.
pub proof fn lemma_missing_file_is_not_made(stage: StageView, params: KdfParams)
    requires
        stage == StageView::ViewLoading || exists|current: Seq<char>|
            stage == (StageView::ChangeLoading { current }),
    ensures
        planned(stage, EventView::Loaded(None), params) == failing(Error::Io),
{
}

/// An editor that the user leaves without accepting ends the operation at
/// once, as unchanged and with exit status zero: nothing is encrypted and
/// nothing is stored.
pub proof fn lemma_abort_changes_nothing(password: Seq<char>, params: KdfParams)
    ensures
        planned(
            StageView::Editing { password },
            EventView::Edited(OutcomeView::Aborted),
            params,
        ) == Plan::Go(StageView::Finished, ActionView::Finish(Completion::Unchanged)),
        Completion::Unchanged.status() == 0,
{
}

/// Storing is the last thing asked for, and only a whole container is
/// stored: a step that asks for storing carries out a sealing, so its text
/// is that of a container which holds the plaintext; and what follows it
/// is the end of the operation, whatever the event.
pub proof fn lemma_store_is_last(
    stage: StageView,
    event: EventView,
    params: KdfParams,
    next: StageView,
    action: ActionView,
    after: EventView,
)
    requires
        carries_out(planned(stage, event, params), next, action, params),
        action is Store,
    ensures
        planned(stage, event, params) is Seal,
        next == StageView::Storing,
        planned(next, after, params) matches Plan::Go(last, end) && last == StageView::Finished
            && end is Finish,
{
}

/// Until storing is asked for, no step asks for anything that changes the
/// vault's file: every step but a sealing is to ask for a password, to load,
/// to let the user edit, to print, or to end.
pub proof fn lemma_only_sealing_stores(stage: StageView, event: EventView, params: KdfParams)
    ensures
        planned(stage, event, params) matches Plan::Go(_, action) ==> !(action is Store),
{
}

/// The step from one stage to the next carries out what is planned for the
/// event.
#[verifier::opaque]
pub open spec fn follows(
    before: StageView,
    event: EventView,
    after: StageView,
    action: ActionView,
    params: KdfParams,
) -> bool {
    carries_out(planned(before, event, params), after, action, params)
}

/// The stage before a step of a run.
pub open spec fn stage_before(start: StageView, stages: Seq<StageView>, k: int) -> StageView {
    if k == 0 {
        start
    } else {
        stages[k - 1]
    }
}

/// A run of an operation: the events that came in, and the stage and the
/// action that each of them led to.
pub open spec fn is_run(
    start: StageView,
    events: Seq<EventView>,
    stages: Seq<StageView>,
    actions: Seq<ActionView>,
    params: KdfParams,
) -> bool {
    &&& stages.len() == events.len()
    &&& actions.len() == events.len()
    &&& forall|k: int|
        0 <= k < events.len() ==> follows(
            stage_before(start, stages, k),
            events[k],
            stages[k],
            #[trigger] actions[k],
            params,
        )
}

/// The step that asks for storing leads to the stage in which the storing
/// is awaited; the step after that ends the operation, as done or as failed
/// in input or output; a step that ends the operation leads to the end; and
/// every step after the end says so again.
proof fn lemma_steps_around_store(
    before: StageView,
    event: EventView,
    after: StageView,
    action: ActionView,
    params: KdfParams,
)
    requires
        follows(before, event, after, action, params),
    ensures
        action is Store ==> after == StageView::Storing,
        action is Finish ==> after == StageView::Finished,
        before == StageView::Storing ==> after == StageView::Finished && (action
            == ActionView::Finish(Completion::Done) || action == ActionView::Finish(
            Completion::Failed(Error::Io),
        )),
        before == StageView::Finished ==> after == StageView::Finished && action
            == ActionView::Finish(Completion::Failed(Error::Io)),
{
    reveal(follows);
}

/// Once a run has come to the stage at which it is, or is about to be,
/// over, every later step says that the operation is over, and none of them
/// that it failed otherwise than in input or output.
proof fn lemma_over_stays_over(
    start: StageView,
    events: Seq<EventView>,
    stages: Seq<StageView>,
    actions: Seq<ActionView>,
    params: KdfParams,
    from: int,
    later: int,
)
    requires
        is_run(start, events, stages, actions, params),
        0 <= from < later < events.len(),
        stages[from] == StageView::Storing || stages[from] == StageView::Finished,
    ensures
        stages[later] == StageView::Finished,
        actions[later] == ActionView::Finish(Completion::Done) || actions[later]
            == ActionView::Finish(Completion::Failed(Error::Io)),
    decreases later - from,
{
    if later > from + 1 {
        lemma_over_stays_over(start, events, stages, actions, params, from, later - 1);
    }
    assert(follows(stages[later - 1], events[later], stages[later], actions[later], params));
    lemma_steps_around_store(
        stages[later - 1],
        events[later],
        stages[later],
        actions[later],
        params,
    );
}

/// The vault's file is written at most once in an operation, and last:
/// whatever the events, a run asks for storing no more than once, and after
/// it for nothing but the end.
pub proof fn lemma_stores_at_most_once(
    start: StageView,
    events: Seq<EventView>,
    stages: Seq<StageView>,
    actions: Seq<ActionView>,
    params: KdfParams,
    stored: int,
    other: int,
)
    requires
        is_run(start, events, stages, actions, params),
        0 <= stored < events.len(),
        0 <= other < events.len(),
        actions[stored] is Store,
        other != stored,
    ensures
        !(actions[other] is Store),
        other > stored ==> actions[other] is Finish,
{
    let first = if other > stored {
        stored
    } else {
        other
    };
    let second = if other > stored {
        other
    } else {
        stored
    };
    if actions[first] is Store {
        assert(follows(
            stage_before(start, stages, first),
            events[first],
            stages[first],
            actions[first],
            params,
        ));
        lemma_steps_around_store(
            stage_before(start, stages, first),
            events[first],
            stages[first],
            actions[first],
            params,
        );
        lemma_over_stays_over(start, events, stages, actions, params, first, second);
    }
}

/// Whatever fails leaves the vault's file as it was: a run that ends
/// otherwise than as done, or as failed in input or output, has not asked
/// for storing at any step; nor has a run in which the editor was left
/// without accepting, or a confirmation differed.
pub proof fn lemma_failure_stored_nothing(
    start: StageView,
    events: Seq<EventView>,
    stages: Seq<StageView>,
    actions: Seq<ActionView>,
    params: KdfParams,
    ended: int,
    other: int,
)
    requires
        is_run(start, events, stages, actions, params),
        0 <= ended < events.len(),
        0 <= other < events.len(),
        actions[ended] is Finish,
        actions[ended] != ActionView::Finish(Completion::Done),
        actions[ended] != ActionView::Finish(Completion::Failed(Error::Io)),
    ensures
        !(actions[other] is Store),
{
    if actions[other] is Store {
        let first = if other > ended {
            ended
        } else {
            other
        };
        let second = if other > ended {
            other
        } else {
            ended
        };
        assert(follows(
            stage_before(start, stages, first),
            events[first],
            stages[first],
            actions[first],
            params,
        ));
        lemma_steps_around_store(
            stage_before(start, stages, first),
            events[first],
            stages[first],
            actions[first],
            params,
        );
        lemma_over_stays_over(start, events, stages, actions, params, first, second);
    }
}

impl StageView {
    /// A bound on the actions that are still to come.
    pub open spec fn steps_left(self) -> nat {
        match self {
            StageView::ViewLoading => 3,
            StageView::ViewPassword { .. } => 2,
            StageView::Printing => 1,
            StageView::EditPassword => 5,
            StageView::EditLoading { .. } => 4,
            StageView::EditConfirming { .. } => 3,
            StageView::Editing { .. } => 2,
            StageView::ChangeCurrent => 5,
            StageView::ChangeLoading { .. } => 4,
            StageView::ChangeNew { .. } => 3,
            StageView::ChangeConfirming { .. } => 2,
            StageView::Storing => 1,
            StageView::Finished => 0,
        }
    }
}

/// An operation ends: every event brings it closer to its end, which it says
/// with [`Action::Finish`] and with nothing else.
pub proof fn lemma_operation_ends(
    stage: StageView,
    event: EventView,
    params: KdfParams,
    next: StageView,
    action: ActionView,
)
    requires
        carries_out(planned(stage, event, params), next, action, params),
    ensures
        stage != StageView::Finished ==> next.steps_left() < stage.steps_left(),
        action is Finish <==> next == StageView::Finished,
{
}

/// The step that ends an operation in failure.
fn fail(params: KdfParams, e: Error) -> (step: (Vault, Action))
    ensures
        step.0.params == params,
        Plan::Go(step.0.stage@, step.1@) == failing(e),
{
    (Vault { params, stage: Stage::Finished }, Action::Finish(Completion::Failed(e)))
}

impl Vault {
    /// Starts an operation on a vault that is encrypted under the work
    /// factor `params`: [`KdfParams::standard`] for every vault that is to
    /// last.
    ///
    /// Returns the operation and the first thing to do. From then on
    /// [`Vault::step`] takes what came of each action and says what to do
    /// next, until it says [`Action::Finish`].
    pub fn start(op: &Opts, params: KdfParams) -> (step: (Vault, Action))
        ensures
            step.0.params == params,
            (step.0.stage@, step.1@) == started(op@),
    {
        match op {
            Opts::View { .. } => (Vault { params, stage: Stage::ViewLoading }, Action::Load),
            Opts::Edit { .. } => (
                Vault { params, stage: Stage::EditPassword },
                Action::Prompt(Prompt::FilePassword),
            ),
            Opts::ChangePassword { .. } => (
                Vault { params, stage: Stage::ChangeCurrent },
                Action::Prompt(Prompt::CurrentPassword),
            ),
        }
    }

    /// Encrypts `plaintext` under `password` into a new container, with a
    /// fresh salt and nonce, and asks for its text to be stored.
    fn seal(params: KdfParams, plaintext: Vec<u8>, password: String) -> (step: (Vault, Action))
        ensures
            step.0.params == params,
            carries_out(sealing(plaintext@, password@, params), step.0.stage@, step.1@, params),
    {
        reveal(stores);
        match encrypt_under(plaintext.as_slice(), password.as_str(), &params) {
            Ok(container) => (
                Vault { params, stage: Stage::Storing },
                Action::Store(container.to_text()),
            ),
            Err(e) => fail(params, e),
        }
    }

    /// The step from a stage that keeps nothing, to the stage and the action
    /// given.
    fn go(params: KdfParams, stage: Stage, action: Action) -> (step: (Vault, Action))
        ensures
            step.0.params == params,
            step.0.stage == stage,
            step.1 == action,
    {
        (Vault { params, stage }, action)
    }

    /// View: the file was loaded.
    fn view_loaded(params: KdfParams, event: Event) -> (step: (Vault, Action))
        ensures
            step.0.params == params,
            carries_out(
                planned(StageView::ViewLoading, event@, params),
                step.0.stage@,
                step.1@,
                params,
            ),
    {
        match event {
            Event::Loaded(Some(bytes)) => match Encrypted::from_bytes(bytes) {
                Ok(container) => Vault::go(
                    params,
                    Stage::ViewPassword { container },
                    Action::Prompt(Prompt::FilePassword),
                ),
                Err(e) => fail(params, e),
            },
            _ => fail(params, Error::Io),
        }
    }

    /// View: the password was entered.
    fn view_password(params: KdfParams, container: Encrypted, event: Event) -> (step: (
        Vault,
        Action,
    ))
        ensures
            step.0.params == params,
            carries_out(
                planned(StageView::ViewPassword { container: container@ }, event@, params),
                step.0.stage@,
                step.1@,
                params,
            ),
    {
        match event {
            Event::Password(password) => match decrypt_under(
                &container,
                password.as_str(),
                &params,
            ) {
                Ok(plaintext) => Vault::go(params, Stage::Printing, Action::Print(plaintext)),
                Err(e) => fail(params, e),
            },
            _ => fail(params, Error::Io),
        }
    }

    /// Edit: the file was loaded, or found missing.
    fn edit_loaded(params: KdfParams, password: String, event: Event) -> (step: (Vault, Action))
        ensures
            step.0.params == params,
            carries_out(
                planned(StageView::EditLoading { password: password@ }, event@, params),
                step.0.stage@,
                step.1@,
                params,
            ),
    {
        match event {
            Event::Loaded(None) => Vault::go(
                params,
                Stage::EditConfirming { password },
                Action::Prompt(Prompt::ConfirmNewVault),
            ),
            Event::Loaded(existing) => match get_decrypted_contents(
                existing,
                password.as_str(),
                &params,
            ) {
                Ok(plaintext) => Vault::go(
                    params,
                    Stage::Editing { password },
                    Action::Edit(plaintext),
                ),
                Err(e) => fail(params, e),
            },
            _ => fail(params, Error::Io),
        }
    }

    /// Edit: the password of a new vault was entered again.
    fn edit_confirmed(params: KdfParams, password: String, event: Event) -> (step: (Vault, Action))
        ensures
            step.0.params == params,
            carries_out(
                planned(StageView::EditConfirming { password: password@ }, event@, params),
                step.0.stage@,
                step.1@,
                params,
            ),
    {
        match event {
            Event::Password(again) => {
                if again == password {
                    Vault::go(params, Stage::Editing { password }, Action::Edit(Vec::new()))
                } else {
                    fail(params, Error::PasswordMismatch)
                }
            },
            _ => fail(params, Error::Io),
        }
    }

    /// Edit: the editing session ended.
    fn edited(params: KdfParams, password: String, event: Event) -> (step: (Vault, Action))
        ensures
            step.0.params == params,
            carries_out(
                planned(StageView::Editing { password: password@ }, event@, params),
                step.0.stage@,
                step.1@,
                params,
            ),
    {
        match event {
            Event::Edited(Outcome::Saved(plaintext)) => Vault::seal(params, plaintext, password),
            Event::Edited(Outcome::Aborted) => Vault::go(
                params,
                Stage::Finished,
                Action::Finish(Completion::Unchanged),
            ),
            Event::Edited(Outcome::Failed(e)) => fail(params, e),
            _ => fail(params, Error::Io),
        }
    }

    /// Change password: the file was loaded. Without a file there is nothing
    /// to change the password of.
    fn change_loaded(params: KdfParams, current: String, event: Event) -> (step: (Vault, Action))
        ensures
            step.0.params == params,
            carries_out(
                planned(StageView::ChangeLoading { current: current@ }, event@, params),
                step.0.stage@,
                step.1@,
                params,
            ),
    {
        match event {
            Event::Loaded(Some(bytes)) => match get_decrypted_contents(
                Some(bytes),
                current.as_str(),
                &params,
            ) {
                Ok(plaintext) => Vault::go(
                    params,
                    Stage::ChangeNew { plaintext },
                    Action::Prompt(Prompt::NewPassword),
                ),
                Err(e) => fail(params, e),
            },
            _ => fail(params, Error::Io),
        }
    }

    /// Change password: the new password was entered again.
    fn change_confirmed(
        params: KdfParams,
        plaintext: Vec<u8>,
        password: String,
        event: Event,
    ) -> (step: (Vault, Action))
        ensures
            step.0.params == params,
            carries_out(
                planned(
                    StageView::ChangeConfirming { plaintext: plaintext@, password: password@ },
                    event@,
                    params,
                ),
                step.0.stage@,
                step.1@,
                params,
            ),
    {
        match event {
            Event::Password(again) => {
                if again == password {
                    Vault::seal(params, plaintext, password)
                } else {
                    fail(params, Error::PasswordMismatch)
                }
            },
            _ => fail(params, Error::Io),
        }
    }

    /// Takes what came of the last action and says what to do next.
    ///
    /// Every step is decided by the stage and the event, but for the salt
    /// and the nonce of a new container: of the text to store it is stated
    /// that it is the own text of a container which has the lengths of the
    /// format and holds the plaintext encrypted under the password.
    pub fn step(self, event: Event) -> (step: (Vault, Action))
        ensures
            step.0.params == self.params,
            carries_out(
                planned(self.stage@, event@, self.params),
                step.0.stage@,
                step.1@,
                self.params,
            ),
    {
        let params = self.params;
        match self.stage {
            Stage::ViewLoading => Vault::view_loaded(params, event),
            Stage::ViewPassword { container } => Vault::view_password(params, container, event),
            Stage::Printing => match event {
                Event::Printed => Vault::go(
                    params,
                    Stage::Finished,
                    Action::Finish(Completion::Done),
                ),
                _ => fail(params, Error::Io),
            },
            Stage::EditPassword => match event {
                Event::Password(password) => Vault::go(
                    params,
                    Stage::EditLoading { password },
                    Action::Load,
                ),
                _ => fail(params, Error::Io),
            },
            Stage::EditLoading { password } => Vault::edit_loaded(params, password, event),
            Stage::EditConfirming { password } => Vault::edit_confirmed(params, password, event),
            Stage::Editing { password } => Vault::edited(params, password, event),
            Stage::ChangeCurrent => match event {
                Event::Password(current) => Vault::go(
                    params,
                    Stage::ChangeLoading { current },
                    Action::Load,
                ),
                _ => fail(params, Error::Io),
            },
            Stage::ChangeLoading { current } => Vault::change_loaded(params, current, event),
            Stage::ChangeNew { plaintext } => match event {
                Event::Password(password) => Vault::go(
                    params,
                    Stage::ChangeConfirming { plaintext, password },
                    Action::Prompt(Prompt::ConfirmNewPassword),
                ),
                _ => fail(params, Error::Io),
            },
            Stage::ChangeConfirming { plaintext, password } => Vault::change_confirmed(
                params,
                plaintext,
                password,
                event,
            ),
            Stage::Storing => match event {
                Event::Stored => Vault::go(
                    params,
                    Stage::Finished,
                    Action::Finish(Completion::Done),
                ),
                _ => fail(params, Error::Io),
            },
            Stage::Finished => fail(params, Error::Io),
        }
    }
}

} // verus!
