//! What a transfer asks to be done, and what comes of it.

use crate::command::{CommandSpec, CommandView};
use crate::message::{MessageView, ProgressMessage};
use crate::profile::{ProfileView, RemoteProfile};
use crate::ssh::exec_outcome_view;
use crate::text::outcome_view;
use vstd::prelude::*;

verus! {

/// One thing to be done. Those that have an answer are followed by it before anything else is
/// asked for.
#[derive(Debug, PartialEq, Eq)]
pub enum Action {
    /// Send a message. No answer.
    Send(ProgressMessage),
    /// Look whether rsync is installed.
    ProbeRsync,
    /// Look whether sshpass is installed.
    ProbeSshpass,
    /// Fill the home directory into the path of a key file.
    ExpandKeyPath(String),
    /// Make the script that prints this password.
    CreateAskpass(String),
    /// Remove that script. No answer.
    RemoveAskpass,
    /// Look whether the transfer has been cancelled.
    PollCancel,
    /// Start a program, and watch for a cancellation while it runs.
    Spawn(CommandSpec),
    /// Read one byte of the program's output.
    ReadOutput,
    /// End the program and what it has started, and wait for it. No answer.
    KillChild,
    /// Wait for the program to end, and collect its error output.
    AwaitChild,
    /// Connect to a server.
    ConnectSsh(RemoteProfile),
    /// Run a command on that server. A cancelable one is given up when the transfer is cancelled.
    RunRemote { command: String, cancelable: bool },
    /// Close the connection to that server. No answer.
    CloseSsh,
    /// Look whether there is a directory at this path.
    ProbeDir { path: String },
    /// Delete the directory at this path with all that is below it.
    DeleteTree { path: String },
    /// Delete the single file at this path.
    DeleteFile { path: String },
    /// Make a temporary directory.
    MakeTempDir,
    /// Remove the temporary directory and what is in it. No answer.
    RemoveTempDir,
}

/// An action, by the text that it holds.
#[verifier::ext_equal]
pub enum ActionView {
    Send(MessageView),
    ProbeRsync,
    ProbeSshpass,
    ExpandKeyPath(Seq<char>),
    CreateAskpass(Seq<char>),
    RemoveAskpass,
    PollCancel,
    Spawn(CommandView),
    ReadOutput,
    KillChild,
    AwaitChild,
    ConnectSsh(ProfileView),
    RunRemote { command: Seq<char>, cancelable: bool },
    CloseSsh,
    ProbeDir { path: Seq<char> },
    DeleteTree { path: Seq<char> },
    DeleteFile { path: Seq<char> },
    MakeTempDir,
    RemoveTempDir,
}

impl View for Action {
    type V = ActionView;

    open spec fn view(&self) -> ActionView {
        match self {
            Action::Send(message) => ActionView::Send(message@),
            Action::ProbeRsync => ActionView::ProbeRsync,
            Action::ProbeSshpass => ActionView::ProbeSshpass,
            Action::ExpandKeyPath(path) => ActionView::ExpandKeyPath(path@),
            Action::CreateAskpass(password) => ActionView::CreateAskpass(password@),
            Action::RemoveAskpass => ActionView::RemoveAskpass,
            Action::PollCancel => ActionView::PollCancel,
            Action::Spawn(command) => ActionView::Spawn(command@),
            Action::ReadOutput => ActionView::ReadOutput,
            Action::KillChild => ActionView::KillChild,
            Action::AwaitChild => ActionView::AwaitChild,
            Action::ConnectSsh(profile) => ActionView::ConnectSsh(profile@),
            Action::RunRemote { command, cancelable } => ActionView::RunRemote {
                command: command@,
                cancelable: *cancelable,
            },
            Action::CloseSsh => ActionView::CloseSsh,
            Action::ProbeDir { path } => ActionView::ProbeDir { path: path@ },
            Action::DeleteTree { path } => ActionView::DeleteTree { path: path@ },
            Action::DeleteFile { path } => ActionView::DeleteFile { path: path@ },
            Action::MakeTempDir => ActionView::MakeTempDir,
            Action::RemoveTempDir => ActionView::RemoveTempDir,
        }
    }
}

impl DeepView for Action {
    type V = ActionView;

    open spec fn deep_view(&self) -> ActionView {
        self@
    }
}

/// One action and then another.
pub open spec fn pair(first: ActionView, second: ActionView) -> Seq<ActionView> {
    seq![first].push(second)
}

/// What comes out of a running program.
#[derive(Debug, Clone, Copy, PartialEq, Eq, Structural)]
pub enum OutputEvent {
    Byte(u8),
    /// Nothing more: the output is closed or cannot be read.
    End,
}

/// How a program ended.
#[derive(Debug, PartialEq, Eq)]
pub struct ExitReport {
    pub success: bool,
    /// The exit code, if the program was not ended by a signal.
    pub code: Option<i32>,
    pub stderr: String,
}

/// How a program ended, by the text that it left.
#[verifier::ext_equal]
pub struct ExitView {
    pub success: bool,
    pub code: Option<i32>,
    pub stderr: Seq<char>,
}

impl View for ExitReport {
    type V = ExitView;

    open spec fn view(&self) -> ExitView {
        ExitView { success: self.success, code: self.code, stderr: self.stderr@ }
    }
}

/// Why there is no temporary directory.
#[derive(Debug, PartialEq, Eq)]
pub enum TempDirFault {
    /// The user has no home directory.
    NoHome,
    /// It could not be created, for this reason.
    NotCreated(String),
}

/// Why there is no temporary directory, by the text that it holds.
#[verifier::ext_equal]
pub enum TempDirFaultView {
    NoHome,
    NotCreated(Seq<char>),
}

impl View for TempDirFault {
    type V = TempDirFaultView;

    open spec fn view(&self) -> TempDirFaultView {
        match self {
            TempDirFault::NoHome => TempDirFaultView::NoHome,
            TempDirFault::NotCreated(reason) => TempDirFaultView::NotCreated(reason@),
        }
    }
}

/// What came of an action.
#[derive(Debug, PartialEq, Eq)]
pub enum Answer {
    RsyncFound(bool),
    SshpassFound(bool),
    KeyPath(String),
    AskpassCreated(Result<(), String>),
    Cancelled(bool),
    /// Whether the program was started, and if so, whether its output can be read.
    Spawned(Result<bool, String>),
    Output(OutputEvent),
    ChildExited(Result<ExitReport, String>),
    Connected(Result<(), String>),
    /// Whether the command succeeded, and its error output; or why it could not run.
    RemoteDone(Result<(bool, String), String>),
    IsDir(bool),
    LocalDeleted(Result<(), String>),
    /// The path of the temporary directory.
    TempDir(Result<String, TempDirFault>),
}

/// An answer, by the text that it holds.
#[verifier::ext_equal]
pub enum AnswerView {
    RsyncFound(bool),
    SshpassFound(bool),
    KeyPath(Seq<char>),
    AskpassCreated(Result<(), Seq<char>>),
    Cancelled(bool),
    Spawned(Result<bool, Seq<char>>),
    Output(OutputEvent),
    ChildExited(Result<ExitView, Seq<char>>),
    Connected(Result<(), Seq<char>>),
    RemoteDone(Result<(bool, Seq<char>), Seq<char>>),
    IsDir(bool),
    LocalDeleted(Result<(), Seq<char>>),
    TempDir(Result<Seq<char>, TempDirFaultView>),
}

impl View for Answer {
    type V = AnswerView;

    open spec fn view(&self) -> AnswerView {
        match self {
            Answer::RsyncFound(found) => AnswerView::RsyncFound(*found),
            Answer::SshpassFound(found) => AnswerView::SshpassFound(*found),
            Answer::KeyPath(path) => AnswerView::KeyPath(path@),
            Answer::AskpassCreated(outcome) => AnswerView::AskpassCreated(outcome_view(*outcome)),
            Answer::Cancelled(flag) => AnswerView::Cancelled(*flag),
            Answer::Spawned(outcome) => AnswerView::Spawned(outcome_view(*outcome)),
            Answer::Output(event) => AnswerView::Output(*event),
            Answer::ChildExited(outcome) => AnswerView::ChildExited(
                match outcome {
                    Ok(report) => Ok(report@),
                    Err(reason) => Err(reason@),
                },
            ),
            Answer::Connected(outcome) => AnswerView::Connected(outcome_view(*outcome)),
            Answer::RemoteDone(outcome) => AnswerView::RemoteDone(exec_outcome_view(*outcome)),
            Answer::IsDir(found) => AnswerView::IsDir(*found),
            Answer::LocalDeleted(outcome) => AnswerView::LocalDeleted(outcome_view(*outcome)),
            Answer::TempDir(outcome) => AnswerView::TempDir(
                match outcome {
                    Ok(path) => Ok(path@),
                    Err(fault) => Err(fault@),
                },
            ),
        }
    }
}

/// Appends an action.
pub(crate) fn put(out: &mut Vec<Action>, action: Action)
    ensures
        final(out).deep_view() == old(out).deep_view().push(action@),
{
    out.push(action);
    assert(final(out).deep_view() =~= old(out).deep_view().push(action@));
}

/// Appends the sending of a message.
pub(crate) fn say(out: &mut Vec<Action>, message: ProgressMessage)
    ensures
        final(out).deep_view() == old(out).deep_view().push(ActionView::Send(message@)),
{
    put(out, Action::Send(message));
}

} // verus!
