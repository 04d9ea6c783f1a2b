//! The conversation with an SSH server: how a connection is made, and how a command is run on it.
//! What the network does comes in as answers; what is to be done goes out as actions.

use crate::profile::{AuthView, ProfileView, RemoteAuth, RemoteProfile};
use crate::text::{concat, decode_lossy, lossy_text, outcome_view};
use vstd::prelude::*;

verus! {

/// How often, in milliseconds, a waiting loop looks whether it has been cancelled.
pub const POLL_INTERVAL_MS: u64 = 100;

/// How long a connection may stay silent. A `cp`, `mv` or `rm` on a server can be silent for a long
/// time while it still makes progress.
#[derive(Debug, Clone, Copy, PartialEq, Eq, Structural)]
pub struct SshSettings {
    pub inactivity_timeout_secs: u64,
    pub keepalive_interval_secs: u64,
    pub keepalive_max: usize,
}

/// The settings of every connection: a day of silence, with a sign of life every half minute, three
/// of which may go unanswered.
pub open spec fn ssh_settings() -> SshSettings {
    SshSettings {
        inactivity_timeout_secs: 86400,
        keepalive_interval_secs: 30,
        keepalive_max: 3,
    }
}

/// Makes the settings of a connection.
pub fn make_ssh_settings() -> (settings: SshSettings)
    ensures
        settings == ssh_settings(),
{
    SshSettings {
        inactivity_timeout_secs: 24 * 60 * 60,
        keepalive_interval_secs: 30,
        keepalive_max: 3,
    }
}

/// What is to be done next to make a connection.
#[derive(Debug, PartialEq, Eq)]
pub enum ConnectAction {
    /// Set up the runtime that the connection runs on.
    MakeRuntime,
    /// Connect to the server.
    Dial { host: String, port: u16, settings: SshSettings },
    /// Offer a password.
    TryPassword { user: String, password: String },
    /// Fill the home directory into the path of a key file.
    ExpandKeyPath(String),
    /// Load a key file.
    LoadKey { path: String, passphrase: Option<String> },
    /// Ask the server for the best hash that it supports for RSA keys.
    NegotiateHash,
    /// Offer the loaded key, with the negotiated hash.
    TryKey { user: String },
    /// The connection stands.
    Ready,
    /// There is no connection.
    Fail(String),
}

/// An action, by the text that it holds.
#[verifier::ext_equal]
pub enum ConnectActionView {
    MakeRuntime,
    Dial { host: Seq<char>, port: u16, settings: SshSettings },
    TryPassword { user: Seq<char>, password: Seq<char> },
    ExpandKeyPath(Seq<char>),
    LoadKey { path: Seq<char>, passphrase: Option<Seq<char>> },
    NegotiateHash,
    TryKey { user: Seq<char> },
    Ready,
    Fail(Seq<char>),
}

impl View for ConnectAction {
    type V = ConnectActionView;

    open spec fn view(&self) -> ConnectActionView {
        match self {
            ConnectAction::MakeRuntime => ConnectActionView::MakeRuntime,
            ConnectAction::Dial { host, port, settings } => ConnectActionView::Dial {
                host: host@,
                port: *port,
                settings: *settings,
            },
            ConnectAction::TryPassword { user, password } => ConnectActionView::TryPassword {
                user: user@,
                password: password@,
            },
            ConnectAction::ExpandKeyPath(path) => ConnectActionView::ExpandKeyPath(path@),
            ConnectAction::LoadKey { path, passphrase } => ConnectActionView::LoadKey {
                path: path@,
                passphrase: passphrase.deep_view(),
            },
            ConnectAction::NegotiateHash => ConnectActionView::NegotiateHash,
            ConnectAction::TryKey { user } => ConnectActionView::TryKey { user: user@ },
            ConnectAction::Ready => ConnectActionView::Ready,
            ConnectAction::Fail(reason) => ConnectActionView::Fail(reason@),
        }
    }
}

/// What came of an action.
#[derive(Debug, PartialEq, Eq)]
pub enum ConnectAnswer {
    RuntimeMade(Result<(), String>),
    Dialed(Result<(), String>),
    /// Whether the server accepted the password or the key.
    Authenticated(Result<bool, String>),
    KeyPath(String),
    KeyLoaded(Result<(), String>),
    HashNegotiated(Result<(), String>),
}

/// An answer, by the text that it holds.
#[verifier::ext_equal]
pub enum ConnectAnswerView {
    RuntimeMade(Result<(), Seq<char>>),
    Dialed(Result<(), Seq<char>>),
    Authenticated(Result<bool, Seq<char>>),
    KeyPath(Seq<char>),
    KeyLoaded(Result<(), Seq<char>>),
    HashNegotiated(Result<(), Seq<char>>),
}

impl View for ConnectAnswer {
    type V = ConnectAnswerView;

    open spec fn view(&self) -> ConnectAnswerView {
        match self {
            ConnectAnswer::RuntimeMade(r) => ConnectAnswerView::RuntimeMade(outcome_view(*r)),
            ConnectAnswer::Dialed(r) => ConnectAnswerView::Dialed(outcome_view(*r)),
            ConnectAnswer::Authenticated(r) => ConnectAnswerView::Authenticated(outcome_view(*r)),
            ConnectAnswer::KeyPath(path) => ConnectAnswerView::KeyPath(path@),
            ConnectAnswer::KeyLoaded(r) => ConnectAnswerView::KeyLoaded(outcome_view(*r)),
            ConnectAnswer::HashNegotiated(r) => ConnectAnswerView::HashNegotiated(outcome_view(*r)),
        }
    }
}

/// How far a connection has come: the answer that it waits for, or its end.
#[derive(Debug, Clone, Copy, PartialEq, Eq, Structural)]
pub enum ConnectStage {
    Runtime,
    Dialing,
    Password,
    KeyPath,
    LoadingKey,
    Hash,
    Key,
    Ready,
    Failed,
}

/// Whether an answer is one to what was asked last.
pub open spec fn connect_expects(stage: ConnectStage, answer: ConnectAnswerView) -> bool {
    match (stage, answer) {
        (ConnectStage::Runtime, ConnectAnswerView::RuntimeMade(_)) => true,
        (ConnectStage::Dialing, ConnectAnswerView::Dialed(_)) => true,
        (ConnectStage::Password, ConnectAnswerView::Authenticated(_)) => true,
        (ConnectStage::KeyPath, ConnectAnswerView::KeyPath(_)) => true,
        (ConnectStage::LoadingKey, ConnectAnswerView::KeyLoaded(_)) => true,
        (ConnectStage::Hash, ConnectAnswerView::HashNegotiated(_)) => true,
        (ConnectStage::Key, ConnectAnswerView::Authenticated(_)) => true,
        _ => false,
    }
}

/// The end of an attempt to connect.
pub open spec fn connect_failed(prefix: Seq<char>, reason: Seq<char>) -> (
    ConnectStage,
    ConnectActionView,
) {
    (ConnectStage::Failed, ConnectActionView::Fail(prefix + reason))
}

/// The verdict of the server on a password or a key.
pub open spec fn connect_verdict(verdict: Result<bool, Seq<char>>, prefix: Seq<char>) -> (
    ConnectStage,
    ConnectActionView,
) {
    match verdict {
        Ok(true) => (ConnectStage::Ready, ConnectActionView::Ready),
        Ok(false) => (
            ConnectStage::Failed,
            ConnectActionView::Fail("Authentication rejected by server"@),
        ),
        Err(reason) => connect_failed(prefix, reason),
    }
}

/// The next stage and action, for an answer that was expected.
pub open spec fn connect_next(
    profile: ProfileView,
    stage: ConnectStage,
    answer: ConnectAnswerView,
) -> (ConnectStage, ConnectActionView) {
    match answer {
        ConnectAnswerView::RuntimeMade(Ok(())) => (
            ConnectStage::Dialing,
            ConnectActionView::Dial {
                host: profile.host,
                port: profile.port,
                settings: ssh_settings(),
            },
        ),
        ConnectAnswerView::RuntimeMade(Err(reason)) => connect_failed(
            "Failed to create runtime: "@,
            reason,
        ),
        ConnectAnswerView::Dialed(Ok(())) => match profile.auth {
            AuthView::Password { password } => (
                ConnectStage::Password,
                ConnectActionView::TryPassword { user: profile.user, password },
            ),
            AuthView::KeyFile { path, .. } => (
                ConnectStage::KeyPath,
                ConnectActionView::ExpandKeyPath(path),
            ),
        },
        ConnectAnswerView::Dialed(Err(reason)) => connect_failed(
            "SSH connection failed: "@,
            reason,
        ),
        ConnectAnswerView::KeyPath(path) => (
            ConnectStage::LoadingKey,
            ConnectActionView::LoadKey {
                path,
                passphrase: match profile.auth {
                    AuthView::KeyFile { passphrase, .. } => passphrase,
                    AuthView::Password { .. } => None,
                },
            },
        ),
        ConnectAnswerView::KeyLoaded(Ok(())) => (
            ConnectStage::Hash,
            ConnectActionView::NegotiateHash,
        ),
        ConnectAnswerView::KeyLoaded(Err(reason)) => connect_failed(
            "Failed to load key: "@,
            reason,
        ),
        ConnectAnswerView::HashNegotiated(Ok(())) => (
            ConnectStage::Key,
            ConnectActionView::TryKey { user: profile.user },
        ),
        ConnectAnswerView::HashNegotiated(Err(reason)) => connect_failed(
            "RSA algorithm negotiation failed: "@,
            reason,
        ),
        ConnectAnswerView::Authenticated(verdict) => connect_verdict(
            verdict,
            if stage is Password {
                "Password auth failed: "@
            } else {
                "Key auth failed: "@
            },
        ),
    }
}

/// An attempt to connect to a server and to authenticate there.
#[derive(Debug, PartialEq, Eq)]
pub struct SshConnect {
    pub profile: RemoteProfile,
    pub stage: ConnectStage,
}

/// Starts to connect to the server of a profile.
pub fn connect(profile: &RemoteProfile) -> (started: (SshConnect, ConnectAction))
    ensures
        started.0.profile@ == profile@,
        started.0.stage == ConnectStage::Runtime,
        started.1@ == ConnectActionView::MakeRuntime,
{
    (
        SshConnect { profile: profile.clone(), stage: ConnectStage::Runtime },
        ConnectAction::MakeRuntime,
    )
}

/// The end of an attempt to connect.
fn fail_connect(prefix: &str, reason: &String) -> (next: (ConnectStage, ConnectAction))
    ensures
        (next.0, next.1@) == connect_failed(prefix@, reason@),
{
    (ConnectStage::Failed, ConnectAction::Fail(concat(prefix, reason.as_str())))
}

impl SshConnect {
    /// Tells whether an answer is one to what was asked last.
    pub fn expects(&self, answer: &ConnectAnswer) -> (expected: bool)
        ensures
            expected == connect_expects(self.stage, answer@),
    {
        match (self.stage, answer) {
            (ConnectStage::Runtime, ConnectAnswer::RuntimeMade(_)) => true,
            (ConnectStage::Dialing, ConnectAnswer::Dialed(_)) => true,
            (ConnectStage::Password, ConnectAnswer::Authenticated(_)) => true,
            (ConnectStage::KeyPath, ConnectAnswer::KeyPath(_)) => true,
            (ConnectStage::LoadingKey, ConnectAnswer::KeyLoaded(_)) => true,
            (ConnectStage::Hash, ConnectAnswer::HashNegotiated(_)) => true,
            (ConnectStage::Key, ConnectAnswer::Authenticated(_)) => true,
            _ => false,
        }
    }

    /// Takes the answer to what was asked last, and says what is to be done next.
    pub fn advance(&mut self, answer: &ConnectAnswer) -> (action: ConnectAction)
        requires
            connect_expects(old(self).stage, answer@),
        ensures
            final(self).profile@ == old(self).profile@,
            (final(self).stage, action@) == connect_next(
                old(self).profile@,
                old(self).stage,
                answer@,
            ),
    {
        let (stage, action) = match answer {
            ConnectAnswer::RuntimeMade(Ok(())) => (
                ConnectStage::Dialing,
                ConnectAction::Dial {
                    host: self.profile.host.clone(),
                    port: self.profile.port,
                    settings: make_ssh_settings(),
                },
            ),
            ConnectAnswer::RuntimeMade(Err(e)) => fail_connect("Failed to create runtime: ", e),
            ConnectAnswer::Dialed(Ok(())) => match &self.profile.auth {
                RemoteAuth::Password { password } => (
                    ConnectStage::Password,
                    ConnectAction::TryPassword {
                        user: self.profile.user.clone(),
                        password: password.clone(),
                    },
                ),
                RemoteAuth::KeyFile { path, .. } => (
                    ConnectStage::KeyPath,
                    ConnectAction::ExpandKeyPath(path.clone()),
                ),
            },
            ConnectAnswer::Dialed(Err(e)) => fail_connect("SSH connection failed: ", e),
            ConnectAnswer::KeyPath(path) => (
                ConnectStage::LoadingKey,
                ConnectAction::LoadKey {
                    path: path.clone(),
                    passphrase: match &self.profile.auth {
                        RemoteAuth::KeyFile { passphrase: Some(secret), .. } => Some(
                            secret.clone(),
                        ),
                        _ => None,
                    },
                },
            ),
            ConnectAnswer::KeyLoaded(Ok(())) => (ConnectStage::Hash, ConnectAction::NegotiateHash),
            ConnectAnswer::KeyLoaded(Err(e)) => fail_connect("Failed to load key: ", e),
            ConnectAnswer::HashNegotiated(Ok(())) => (
                ConnectStage::Key,
                ConnectAction::TryKey { user: self.profile.user.clone() },
            ),
            ConnectAnswer::HashNegotiated(Err(e)) => fail_connect(
                "RSA algorithm negotiation failed: ",
                e,
            ),
            ConnectAnswer::Authenticated(Ok(true)) => (ConnectStage::Ready, ConnectAction::Ready),
            ConnectAnswer::Authenticated(Ok(false)) => (
                ConnectStage::Failed,
                ConnectAction::Fail("Authentication rejected by server".to_string()),
            ),
            ConnectAnswer::Authenticated(Err(e)) => match self.stage {
                ConnectStage::Password => fail_connect("Password auth failed: ", e),
                _ => fail_connect("Key auth failed: ", e),
            },
        };
        self.stage = stage;
        action
    }
}

/// The stage that a sequence of answers leads to.
pub open spec fn connect_stage_after(
    profile: ProfileView,
    answers: Seq<ConnectAnswerView>,
) -> ConnectStage
    decreases answers.len(),
{
    if answers.len() == 0 {
        ConnectStage::Runtime
    } else {
        connect_next(
            profile,
            connect_stage_after(profile, answers.drop_last()),
            answers.last(),
        ).0
    }
}

/// Whether each of a sequence of answers is one to what was asked last.
pub open spec fn connect_follows(profile: ProfileView, answers: Seq<ConnectAnswerView>) -> bool
    decreases answers.len(),
{
    answers.len() > 0 ==> {
        &&& connect_follows(profile, answers.drop_last())
        &&& connect_expects(connect_stage_after(profile, answers.drop_last()), answers.last())
    }
}

/// A connection stands only when the server has accepted what the profile offers: the password of
/// a profile that holds one, or the key that was loaded for a profile that names a key file.
/// Nothing else that has been tried has failed by then.
pub proof fn law_connection_needs_acceptance(
    profile: ProfileView,
    answers: Seq<ConnectAnswerView>,
)
    requires
        connect_follows(profile, answers),
        connect_stage_after(profile, answers) is Ready,
    ensures
        answers[0] matches ConnectAnswerView::RuntimeMade(Ok(_)),
        answers[1] matches ConnectAnswerView::Dialed(Ok(_)),
        profile.auth is Password ==> answers.len() == 3,
        profile.auth is KeyFile ==> {
            &&& answers.len() == 6
            &&& answers[2] is KeyPath
            &&& answers[3] matches ConnectAnswerView::KeyLoaded(Ok(_))
            &&& answers[4] matches ConnectAnswerView::HashNegotiated(Ok(_))
        },
        answers.last() == ConnectAnswerView::Authenticated(Ok(true)),
{
    lemma_connect_history(profile, answers.drop_last());
}

/// The answers that lead to each stage.
proof fn lemma_connect_history(profile: ProfileView, answers: Seq<ConnectAnswerView>)
    requires
        connect_follows(profile, answers),
    ensures
        ({
            let n = answers.len();
            &&& connect_stage_after(profile, answers) is Runtime ==> n == 0
            &&& connect_stage_after(profile, answers) is Dialing ==> n == 1
            &&& connect_stage_after(profile, answers) is Password ==> n == 2
                && profile.auth is Password
            &&& connect_stage_after(profile, answers) is KeyPath ==> n == 2
                && profile.auth is KeyFile
            &&& connect_stage_after(profile, answers) is LoadingKey ==> n == 3
                && profile.auth is KeyFile
            &&& connect_stage_after(profile, answers) is Hash ==> n == 4
                && profile.auth is KeyFile
            &&& connect_stage_after(profile, answers) is Key ==> n == 5 && profile.auth is KeyFile
            &&& !(connect_stage_after(profile, answers) is Failed) && !(connect_stage_after(
                profile,
                answers,
            ) is Ready) ==> {
                &&& n >= 1 ==> (answers[0] matches ConnectAnswerView::RuntimeMade(Ok(_)))
                &&& n >= 2 ==> (answers[1] matches ConnectAnswerView::Dialed(Ok(_)))
                &&& n >= 3 ==> answers[2] is KeyPath
                &&& n >= 4 ==> (answers[3] matches ConnectAnswerView::KeyLoaded(Ok(_)))
                &&& n >= 5 ==> (answers[4] matches ConnectAnswerView::HashNegotiated(Ok(_)))
            }
        }),
    decreases answers.len(),
{
    if answers.len() > 0 {
        lemma_connect_history(profile, answers.drop_last());
    }
}

/// What comes over the channel of a running command.
#[derive(Debug, PartialEq, Eq)]
pub enum ChannelEvent {
    /// Nothing came for a while.
    Timeout,
    /// The channel is closed.
    Closed,
    /// Output beside the normal one; type 1 is the error output.
    ExtendedData { data: Vec<u8>, ext: u32 },
    /// The command is over.
    ExitStatus(u32),
    /// Anything else.
    Other,
}

/// An event, by the bytes that it holds.
#[verifier::ext_equal]
pub enum EventView {
    Timeout,
    Closed,
    ExtendedData { data: Seq<u8>, ext: u32 },
    ExitStatus(u32),
    Other,
}

impl View for ChannelEvent {
    type V = EventView;

    open spec fn view(&self) -> EventView {
        match self {
            ChannelEvent::Timeout => EventView::Timeout,
            ChannelEvent::Closed => EventView::Closed,
            ChannelEvent::ExtendedData { data, ext } => EventView::ExtendedData {
                data: data@,
                ext: *ext,
            },
            ChannelEvent::ExitStatus(status) => EventView::ExitStatus(*status),
            ChannelEvent::Other => EventView::Other,
        }
    }
}

/// What is to be done next to run a command.
#[derive(Debug, PartialEq, Eq)]
pub enum ExecAction {
    /// Open a channel on the connection.
    OpenChannel,
    /// Start the command on the channel.
    Start(String),
    /// Look whether the command has been cancelled.
    PollCancel,
    /// Wait for what comes over the channel, for a poll interval at most.
    AwaitEvent,
    /// Disconnect from the server, with this description, and give up with this error.
    Abort { description: String, error: String },
    /// The command is over: whether it succeeded, and its error output; or why it could not run.
    Finish(Result<(bool, String), String>),
}

/// The outcome of a command, by the text that it holds.
pub open spec fn exec_outcome_view(outcome: Result<(bool, String), String>) -> Result<
    (bool, Seq<char>),
    Seq<char>,
> {
    match outcome {
        Ok((success, stderr)) => Ok((success, stderr@)),
        Err(reason) => Err(reason@),
    }
}

/// An action, by the text that it holds.
#[verifier::ext_equal]
pub enum ExecActionView {
    OpenChannel,
    Start(Seq<char>),
    PollCancel,
    AwaitEvent,
    Abort { description: Seq<char>, error: Seq<char> },
    Finish(Result<(bool, Seq<char>), Seq<char>>),
}

impl View for ExecAction {
    type V = ExecActionView;

    open spec fn view(&self) -> ExecActionView {
        match self {
            ExecAction::OpenChannel => ExecActionView::OpenChannel,
            ExecAction::Start(cmd) => ExecActionView::Start(cmd@),
            ExecAction::PollCancel => ExecActionView::PollCancel,
            ExecAction::AwaitEvent => ExecActionView::AwaitEvent,
            ExecAction::Abort { description, error } => ExecActionView::Abort {
                description: description@,
                error: error@,
            },
            ExecAction::Finish(outcome) => ExecActionView::Finish(exec_outcome_view(*outcome)),
        }
    }
}

/// What came of an action.
#[derive(Debug, PartialEq, Eq)]
pub enum ExecAnswer {
    Opened(Result<(), String>),
    Started(Result<(), String>),
    Cancelled(bool),
    Event(ChannelEvent),
}

/// An answer, by the text that it holds.
#[verifier::ext_equal]
pub enum ExecAnswerView {
    Opened(Result<(), Seq<char>>),
    Started(Result<(), Seq<char>>),
    Cancelled(bool),
    Event(EventView),
}

impl View for ExecAnswer {
    type V = ExecAnswerView;

    open spec fn view(&self) -> ExecAnswerView {
        match self {
            ExecAnswer::Opened(r) => ExecAnswerView::Opened(outcome_view(*r)),
            ExecAnswer::Started(r) => ExecAnswerView::Started(outcome_view(*r)),
            ExecAnswer::Cancelled(flag) => ExecAnswerView::Cancelled(*flag),
            ExecAnswer::Event(event) => ExecAnswerView::Event(event@),
        }
    }
}

/// How far a command has come: the answer that it waits for, or its end.
#[derive(Debug, Clone, Copy, PartialEq, Eq, Structural)]
pub enum ExecStage {
    Opening,
    Starting,
    Polling,
    Waiting,
    Finished,
}

/// A command that is run on a connection, and what has come of it so far.
#[derive(Debug, PartialEq, Eq)]
pub struct RemoteCommand {
    pub cmd: String,
    /// Whether the command is given up when the transfer is cancelled.
    pub cancelable: bool,
    pub stage: ExecStage,
    pub stderr: Vec<u8>,
    pub exit_status: Option<u32>,
}

/// A command, by the text that it holds.
#[verifier::ext_equal]
pub struct RemoteCommandView {
    pub cmd: Seq<char>,
    pub cancelable: bool,
    pub stage: ExecStage,
    pub stderr: Seq<u8>,
    pub exit_status: Option<u32>,
}

impl View for RemoteCommand {
    type V = RemoteCommandView;

    open spec fn view(&self) -> RemoteCommandView {
        RemoteCommandView {
            cmd: self.cmd@,
            cancelable: self.cancelable,
            stage: self.stage,
            stderr: self.stderr@,
            exit_status: self.exit_status,
        }
    }
}

/// Whether an answer is one to what was asked last.
pub open spec fn exec_expects(stage: ExecStage, answer: ExecAnswerView) -> bool {
    match (stage, answer) {
        (ExecStage::Opening, ExecAnswerView::Opened(_)) => true,
        (ExecStage::Starting, ExecAnswerView::Started(_)) => true,
        (ExecStage::Polling, ExecAnswerView::Cancelled(_)) => true,
        (ExecStage::Waiting, ExecAnswerView::Event(_)) => true,
        _ => false,
    }
}

/// The command as it is started.
pub open spec fn exec_start(cmd: Seq<char>, cancelable: bool) -> RemoteCommandView {
    RemoteCommandView {
        cmd,
        cancelable,
        stage: ExecStage::Opening,
        stderr: Seq::empty(),
        exit_status: None,
    }
}

/// The end of a command that could not be run.
pub open spec fn exec_failed(command: RemoteCommandView, reason: Seq<char>) -> (
    RemoteCommandView,
    ExecActionView,
) {
    (
        RemoteCommandView { stage: ExecStage::Finished, ..command },
        ExecActionView::Finish(Err(reason)),
    )
}

/// The next turn of the wait: a look at the cancellation first, if there can be one.
pub open spec fn exec_turn(command: RemoteCommandView) -> (RemoteCommandView, ExecActionView) {
    if command.cancelable {
        (RemoteCommandView { stage: ExecStage::Polling, ..command }, ExecActionView::PollCancel)
    } else {
        (RemoteCommandView { stage: ExecStage::Waiting, ..command }, ExecActionView::AwaitEvent)
    }
}

/// How a command that was cancelled is given up.
pub open spec fn exec_abort() -> ExecActionView {
    ExecActionView::Abort { description: "cancelled"@, error: "Cancelled"@ }
}

/// The command after an answer that was expected, and what is to be done next.
pub open spec fn exec_next(command: RemoteCommandView, answer: ExecAnswerView) -> (
    RemoteCommandView,
    ExecActionView,
) {
    match answer {
        ExecAnswerView::Opened(Ok(())) => (
            RemoteCommandView { stage: ExecStage::Starting, ..command },
            ExecActionView::Start(command.cmd),
        ),
        ExecAnswerView::Opened(Err(reason)) => exec_failed(
            command,
            "Failed to open channel: "@ + reason,
        ),
        ExecAnswerView::Started(Ok(())) => exec_turn(command),
        ExecAnswerView::Started(Err(reason)) => exec_failed(
            command,
            "Failed to exec command: "@ + reason,
        ),
        ExecAnswerView::Cancelled(true) => (
            RemoteCommandView { stage: ExecStage::Finished, ..command },
            exec_abort(),
        ),
        ExecAnswerView::Cancelled(false) => (
            RemoteCommandView { stage: ExecStage::Waiting, ..command },
            ExecActionView::AwaitEvent,
        ),
        ExecAnswerView::Event(EventView::Closed) => (
            RemoteCommandView { stage: ExecStage::Finished, ..command },
            ExecActionView::Finish(
                Ok((command.exit_status == Some(0u32), lossy_text(command.stderr))),
            ),
        ),
        ExecAnswerView::Event(EventView::ExtendedData { data, ext }) => exec_turn(
            if ext == 1 {
                RemoteCommandView { stderr: command.stderr + data, ..command }
            } else {
                command
            },
        ),
        ExecAnswerView::Event(EventView::ExitStatus(status)) => exec_turn(
            RemoteCommandView { exit_status: Some(status), ..command },
        ),
        ExecAnswerView::Event(_) => exec_turn(command),
    }
}

/// Starts a command that runs until it ends.
pub fn exec(cmd: &str) -> (started: (RemoteCommand, ExecAction))
    ensures
        started.0@ == exec_start(cmd@, false),
        started.1@ == ExecActionView::OpenChannel,
{
    exec_cancelable(cmd, false)
}

/// Starts a command. A cancelable one is given up, and the session with it, when the transfer is
/// cancelled: `cp`, `mv` and `rm` can be silent for a long time.
pub fn exec_cancelable(cmd: &str, cancelable: bool) -> (started: (RemoteCommand, ExecAction))
    ensures
        started.0@ == exec_start(cmd@, cancelable),
        started.1@ == ExecActionView::OpenChannel,
{
    (
        RemoteCommand {
            cmd: cmd.to_string(),
            cancelable,
            stage: ExecStage::Opening,
            stderr: Vec::new(),
            exit_status: None,
        },
        ExecAction::OpenChannel,
    )
}

/// Appends bytes to bytes.
fn append_bytes(all: &mut Vec<u8>, more: &Vec<u8>)
    ensures
        final(all)@ == old(all)@ + more@,
{
    let mut i: usize = 0;
    assert(old(all)@ + more@.take(0) == old(all)@);
    while i < more.len()
        invariant
            i <= more.len(),
            all@ == old(all)@ + more@.take(i as int),
        decreases more.len() - i,
    {
        all.push(more[i]);
        i += 1;
        assert(more@.take(i as int) == more@.take(i - 1).push(more@[i - 1]));
    }
    assert(more@.take(more.len() as int) == more@);
}

impl RemoteCommand {
    /// Tells whether an answer is one to what was asked last.
    pub fn expects(&self, answer: &ExecAnswer) -> (expected: bool)
        ensures
            expected == exec_expects(self.stage, answer@),
    {
        match (self.stage, answer) {
            (ExecStage::Opening, ExecAnswer::Opened(_)) => true,
            (ExecStage::Starting, ExecAnswer::Started(_)) => true,
            (ExecStage::Polling, ExecAnswer::Cancelled(_)) => true,
            (ExecStage::Waiting, ExecAnswer::Event(_)) => true,
            _ => false,
        }
    }

    /// The next turn of the wait.
    fn turn(&mut self) -> (action: ExecAction)
        ensures
            (final(self)@, action@) == exec_turn(old(self)@),
    {
        if self.cancelable {
            self.stage = ExecStage::Polling;
            ExecAction::PollCancel
        } else {
            self.stage = ExecStage::Waiting;
            ExecAction::AwaitEvent
        }
    }

    /// Takes the answer to what was asked last, and says what is to be done next.
    pub fn advance(&mut self, answer: &ExecAnswer) -> (action: ExecAction)
        requires
            exec_expects(old(self).stage, answer@),
        ensures
            (final(self)@, action@) == exec_next(old(self)@, answer@),
    {
        match answer {
            ExecAnswer::Opened(Ok(())) => {
                self.stage = ExecStage::Starting;
                ExecAction::Start(self.cmd.clone())
            },
            ExecAnswer::Opened(Err(e)) => {
                self.stage = ExecStage::Finished;
                ExecAction::Finish(Err(concat("Failed to open channel: ", e.as_str())))
            },
            ExecAnswer::Started(Ok(())) => self.turn(),
            ExecAnswer::Started(Err(e)) => {
                self.stage = ExecStage::Finished;
                ExecAction::Finish(Err(concat("Failed to exec command: ", e.as_str())))
            },
            ExecAnswer::Cancelled(true) => {
                self.stage = ExecStage::Finished;
                ExecAction::Abort {
                    description: "cancelled".to_string(),
                    error: "Cancelled".to_string(),
                }
            },
            ExecAnswer::Cancelled(false) => {
                self.stage = ExecStage::Waiting;
                ExecAction::AwaitEvent
            },
            ExecAnswer::Event(ChannelEvent::Closed) => {
                self.stage = ExecStage::Finished;
                let success = match self.exit_status {
                    Some(status) => status == 0,
                    None => false,
                };
                ExecAction::Finish(Ok((success, decode_lossy(self.stderr.as_slice()))))
            },
            ExecAnswer::Event(ChannelEvent::ExtendedData { data, ext }) => {
                if *ext == 1 {
                    append_bytes(&mut self.stderr, data);
                }
                self.turn()
            },
            ExecAnswer::Event(ChannelEvent::ExitStatus(status)) => {
                self.exit_status = Some(*status);
                self.turn()
            },
            ExecAnswer::Event(_) => self.turn(),
        }
    }
}

/// The command, and the action asked for, after a sequence of answers.
pub open spec fn exec_after(cmd: Seq<char>, cancelable: bool, answers: Seq<ExecAnswerView>) -> (
    RemoteCommandView,
    ExecActionView,
)
    decreases answers.len(),
{
    if answers.len() == 0 {
        (exec_start(cmd, cancelable), ExecActionView::OpenChannel)
    } else {
        exec_next(exec_after(cmd, cancelable, answers.drop_last()).0, answers.last())
    }
}

/// Whether each of a sequence of answers is one to what was asked last.
pub open spec fn exec_follows(
    cmd: Seq<char>,
    cancelable: bool,
    answers: Seq<ExecAnswerView>,
) -> bool
    decreases answers.len(),
{
    answers.len() > 0 ==> {
        &&& exec_follows(cmd, cancelable, answers.drop_last())
        &&& exec_expects(
            exec_after(cmd, cancelable, answers.drop_last()).0.stage,
            answers.last(),
        )
    }
}

/// The error output among some answers.
pub open spec fn error_output(answers: Seq<ExecAnswerView>) -> Seq<u8>
    decreases answers.len(),
{
    if answers.len() == 0 {
        Seq::empty()
    } else {
        let before = error_output(answers.drop_last());
        match answers.last() {
            ExecAnswerView::Event(EventView::ExtendedData { data, ext }) => if ext == 1 {
                before + data
            } else {
                before
            },
            _ => before,
        }
    }
}

/// The last exit status among some answers.
pub open spec fn last_exit_status(answers: Seq<ExecAnswerView>) -> Option<u32>
    decreases answers.len(),
{
    if answers.len() == 0 {
        None
    } else {
        match answers.last() {
            ExecAnswerView::Event(EventView::ExitStatus(status)) => Some(status),
            _ => last_exit_status(answers.drop_last()),
        }
    }
}

/// A command that runs to its end succeeds exactly if the last exit status that the server sent is
/// zero, and hands out exactly the error output that came, in the order in which it came.
pub proof fn law_command_outcome_is_what_came(
    cmd: Seq<char>,
    cancelable: bool,
    answers: Seq<ExecAnswerView>,
    success: bool,
    stderr: Seq<char>,
)
    requires
        exec_follows(cmd, cancelable, answers),
        exec_after(cmd, cancelable, answers).1 == ExecActionView::Finish(Ok((success, stderr))),
    ensures
        success == (last_exit_status(answers) == Some(0u32)),
        stderr == lossy_text(error_output(answers)),
        !answers.contains(ExecAnswerView::Cancelled(true)),
{
    lemma_exec_history(cmd, cancelable, answers.drop_last());
    lemma_contains_front_or_last(answers);
}

/// Every answer is the last one or one before it.
proof fn lemma_contains_front_or_last(answers: Seq<ExecAnswerView>)
    requires
        answers.len() > 0,
    ensures
        forall|x: ExecAnswerView|
            #[trigger] answers.contains(x) <==> answers.drop_last().contains(x) || x
                == answers.last(),
{
    let front = answers.drop_last();
    assert forall|x: ExecAnswerView| #[trigger] answers.contains(x) implies front.contains(x) || x
        == answers.last() by {
        let i = choose|i: int| 0 <= i < answers.len() && answers[i] == x;
        if i < front.len() {
            assert(front[i] == x);
        }
    }
    assert forall|x: ExecAnswerView| front.contains(x) || x
        == answers.last() implies #[trigger] answers.contains(x) by {
        if x == answers.last() {
            assert(answers[answers.len() - 1] == x);
        } else {
            let i = choose|i: int| 0 <= i < front.len() && front[i] == x;
            assert(answers[i] == x);
        }
    }
}

/// A command is given up exactly when it has been cancelled, with the error `Cancelled`, and
/// nothing is asked for after that.
pub proof fn law_cancelled_command_is_given_up(
    cmd: Seq<char>,
    cancelable: bool,
    answers: Seq<ExecAnswerView>,
)
    requires
        exec_follows(cmd, cancelable, answers),
    ensures
        (exec_after(cmd, cancelable, answers).1 is Abort) <==> answers.contains(
            ExecAnswerView::Cancelled(true),
        ),
        exec_after(cmd, cancelable, answers).1 is Abort ==> {
            &&& cancelable
            &&& exec_after(cmd, cancelable, answers).1 == exec_abort()
            &&& forall|more: ExecAnswerView| !exec_follows(cmd, cancelable, answers.push(more))
        },
{
    if answers.len() > 0 {
        let front = answers.drop_last();
        lemma_exec_history(cmd, cancelable, front);
        lemma_contains_front_or_last(answers);
        if exec_after(cmd, cancelable, answers).1 is Abort {
            assert forall|more: ExecAnswerView| !exec_follows(
                cmd,
                cancelable,
                answers.push(more),
            ) by {
                assert(answers.push(more).drop_last() == answers);
            }
        }
    }
}

/// A command that can be cancelled is never waited for without a look at the cancellation just
/// before, so it is given up within one poll interval, however long it stays silent. One that cannot
/// be cancelled is never looked at.
pub proof fn law_cancelable_command_is_polled(
    cmd: Seq<char>,
    cancelable: bool,
    answers: Seq<ExecAnswerView>,
)
    requires
        exec_follows(cmd, cancelable, answers),
    ensures
        exec_after(cmd, cancelable, answers).1 is AwaitEvent && cancelable ==> answers.len() > 0
            && answers.last() == ExecAnswerView::Cancelled(false),
        exec_after(cmd, cancelable, answers).1 is PollCancel ==> cancelable,
{
    if answers.len() > 0 {
        lemma_exec_history(cmd, cancelable, answers.drop_last());
    }
}

/// What a command that is not over yet has kept of the answers.
pub(crate) proof fn lemma_exec_history(cmd: Seq<char>, cancelable: bool, answers: Seq<ExecAnswerView>)
    requires
        exec_follows(cmd, cancelable, answers),
    ensures
        ({
            let command = exec_after(cmd, cancelable, answers).0;
            &&& command.cmd == cmd
            &&& command.cancelable == cancelable
            &&& command.stderr == error_output(answers)
            &&& command.exit_status == last_exit_status(answers)
            &&& command.stage is Polling ==> cancelable
            &&& !(command.stage is Finished) ==> !answers.contains(ExecAnswerView::Cancelled(true))
        }),
    decreases answers.len(),
{
    if answers.len() > 0 {
        let front = answers.drop_last();
        lemma_exec_history(cmd, cancelable, front);
        lemma_contains_front_or_last(answers);
    }
}

} // verus!
