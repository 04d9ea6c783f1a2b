//! The transfer of files that stay on their server: they are moved or copied there.

use crate::action::{pair, put, say, Action, ActionView, Answer, AnswerView};
use crate::command::{
    build_same_server_command, join_path, path_below, same_server_command,
};
use crate::message::{MessageView, ProgressMessage};
use crate::profile::{ProfileView, RemoteProfile};
use crate::text::{trim, trimmed};
use vstd::prelude::*;

verus! {

/// What is to be moved or copied on a server.
#[verifier::ext_equal]
pub struct SameServerJob {
    pub files: Seq<Seq<char>>,
    pub base: Seq<char>,
    pub target: Seq<char>,
    pub is_cut: bool,
}

/// How far a transfer has come: the answer that it waits for, or its end.
#[verifier::ext_equal]
pub enum SameServerStage {
    /// Whether there is a connection.
    Connecting,
    /// Before a file: whether the transfer has been cancelled.
    BeforeFile,
    /// What came of the command.
    Running,
    /// After the command could not be run, for this reason: whether the transfer has been
    /// cancelled.
    AfterLoss(Seq<char>),
    /// Over, with the reason of a failure, if there was one.
    Returned(Option<Seq<char>>),
}

/// A transfer on one server.
#[verifier::ext_equal]
pub struct SameServerView {
    pub job: SameServerJob,
    pub stage: SameServerStage,
    /// The number of files that have been transferred.
    pub completed: nat,
}

impl SameServerView {
    /// Whether there is a connection to the server.
    pub open spec fn connected(self) -> bool {
        self.stage is BeforeFile || self.stage is Running || self.stage is AfterLoss
    }

    /// What always holds: the files are counted right.
    pub open spec fn wf(self) -> bool {
        &&& self.completed <= self.job.files.len() <= usize::MAX
        &&& self.connected() ==> self.completed < self.job.files.len()
    }

    /// The file that is being transferred.
    pub open spec fn file(self) -> Seq<char> {
        self.job.files[self.completed as int]
    }

    /// Whether an answer is one to what was asked last.
    pub open spec fn expects(self, answer: AnswerView) -> bool {
        match (self.stage, answer) {
            (SameServerStage::Connecting, AnswerView::Connected(_)) => true,
            (SameServerStage::BeforeFile, AnswerView::Cancelled(_)) => true,
            (SameServerStage::Running, AnswerView::RemoteDone(_)) => true,
            (SameServerStage::AfterLoss(_), AnswerView::Cancelled(_)) => true,
            _ => false,
        }
    }
}

/// The start of a transfer.
pub open spec fn same_server_start(job: SameServerJob, profile: ProfileView) -> (
    SameServerView,
    Seq<ActionView>,
) {
    (
        SameServerView { job, stage: SameServerStage::Connecting, completed: 0 },
        seq![ActionView::ConnectSsh(profile)],
    )
}

/// The end of a transfer, which closes its connection.
pub open spec fn same_server_return(t: SameServerView, failure: Option<Seq<char>>) -> (
    SameServerView,
    Seq<ActionView>,
) {
    (
        SameServerView { stage: SameServerStage::Returned(failure), ..t },
        seq![ActionView::CloseSsh],
    )
}

/// The turn to the next file, or the end behind the last one.
pub open spec fn same_server_next_file(t: SameServerView) -> (SameServerView, Seq<ActionView>) {
    if t.completed < t.job.files.len() {
        (SameServerView { stage: SameServerStage::BeforeFile, ..t }, seq![ActionView::PollCancel])
    } else {
        same_server_return(t, None)
    }
}

/// The command for the current file.
pub open spec fn same_server_file_command(t: SameServerView) -> Seq<char> {
    same_server_command(t.job.is_cut, path_below(t.job.base, t.file()), t.job.target)
}

/// The reason of a command that failed.
pub open spec fn same_server_reason(
    is_cut: bool,
    file: Seq<char>,
    stderr: Seq<char>,
) -> Seq<char> {
    "Failed to "@ + (if is_cut {
        "move"@
    } else {
        "copy"@
    }) + " '"@ + file + "': "@ + trimmed(stderr)
}

/// The transfer after an answer that was expected, and what is to be done next.
pub open spec fn same_server_next(t: SameServerView, answer: AnswerView) -> (
    SameServerView,
    Seq<ActionView>,
) {
    match answer {
        AnswerView::Connected(Ok(_)) => same_server_next_file(t),
        AnswerView::Connected(Err(reason)) => (
            SameServerView { stage: SameServerStage::Returned(Some(reason)), ..t },
            Seq::empty(),
        ),
        AnswerView::Cancelled(true) => same_server_return(t, None),
        AnswerView::Cancelled(false) => match t.stage {
            SameServerStage::AfterLoss(reason) => same_server_return(t, Some(reason)),
            _ => (
                SameServerView { stage: SameServerStage::Running, ..t },
                pair(
                    ActionView::Send(MessageView::FileStarted(t.file())),
                    ActionView::RunRemote {
                        command: same_server_file_command(t),
                        cancelable: true,
                    },
                ),
            ),
        },
        AnswerView::RemoteDone(Err(reason)) => (
            SameServerView { stage: SameServerStage::AfterLoss(reason), ..t },
            seq![ActionView::PollCancel],
        ),
        AnswerView::RemoteDone(Ok((success, stderr))) => if success {
            let done = SameServerView { completed: t.completed + 1, ..t };
            let (next, actions) = same_server_next_file(done);
            (
                next,
                pair(
                    ActionView::Send(MessageView::FileCompleted(t.file())),
                    ActionView::Send(
                        MessageView::TotalProgress(
                            done.completed as usize,
                            t.job.files.len() as usize,
                            0,
                            0,
                        ),
                    ),
                ) + actions,
            )
        } else {
            let reason = same_server_reason(t.job.is_cut, t.file(), stderr);
            let (next, actions) = same_server_return(t, Some(reason));
            (next, seq![ActionView::Send(MessageView::Error(t.file(), reason))] + actions)
        },
        _ => (t, Seq::empty()),
    }
}

/// The stage of a transfer, without what belongs to it.
#[derive(Debug, Clone, Copy, PartialEq, Eq, Structural)]
enum Phase {
    Connecting,
    BeforeFile,
    Running,
    AfterLoss,
    Returned,
}

/// A transfer on one server.
#[derive(Debug, PartialEq, Eq)]
pub struct SameServerTransfer {
    source_files: Vec<String>,
    source_base: String,
    target_path: String,
    is_cut: bool,
    phase: Phase,
    completed: usize,
    /// The reason why a command could not be run.
    loss: String,
    /// The reason why the transfer failed, if it did.
    failure: Option<String>,
}

impl View for SameServerTransfer {
    type V = SameServerView;

    closed spec fn view(&self) -> SameServerView {
        SameServerView {
            job: SameServerJob {
                files: self.source_files.deep_view(),
                base: self.source_base@,
                target: self.target_path@,
                is_cut: self.is_cut,
            },
            stage: match self.phase {
                Phase::Connecting => SameServerStage::Connecting,
                Phase::BeforeFile => SameServerStage::BeforeFile,
                Phase::Running => SameServerStage::Running,
                Phase::AfterLoss => SameServerStage::AfterLoss(self.loss@),
                Phase::Returned => SameServerStage::Returned(self.failure.deep_view()),
            },
            completed: self.completed as nat,
        }
    }
}

/// Starts to move or copy files on their server.
pub fn transfer_same_server(
    profile: &RemoteProfile,
    source_files: Vec<String>,
    source_base: String,
    target_path: String,
    is_cut: bool,
    out: &mut Vec<Action>,
) -> (transfer: SameServerTransfer)
    ensures
        transfer@.wf(),
        ({
            let job = SameServerJob {
                files: source_files.deep_view(),
                base: source_base@,
                target: target_path@,
                is_cut,
            };
            &&& transfer@ == same_server_start(job, profile@).0
            &&& final(out).deep_view() == old(out).deep_view() + same_server_start(
                job,
                profile@,
            ).1
        }),
{
    put(out, Action::ConnectSsh(profile.clone()));
    assert(source_files.deep_view().len() == source_files.len());
    SameServerTransfer {
        source_files,
        source_base,
        target_path,
        is_cut,
        phase: Phase::Connecting,
        completed: 0,
        loss: String::new(),
        failure: None,
    }
}

/// The reason of a command that failed.
fn explain_failure(is_cut: bool, file: &str, stderr: &str) -> (reason: String)
    ensures
        reason@ == same_server_reason(is_cut, file@, stderr@),
{
    let mut reason = "Failed to ".to_string();
    if is_cut {
        reason.append("move");
    } else {
        reason.append("copy");
    }
    reason.append(" '");
    reason.append(file);
    reason.append("': ");
    let said = trim(stderr);
    reason.append(said.as_str());
    reason
}

impl SameServerTransfer {
    /// Whether the transfer is over.
    pub fn returned(&self) -> (over: bool)
        ensures
            over == (self@.stage is Returned),
    {
        self.phase == Phase::Returned
    }

    /// The reason of a failure, if there was one, of a transfer that is over.
    pub fn into_failure(self) -> (failure: Option<String>)
        requires
            self@.stage is Returned,
        ensures
            self@.stage == SameServerStage::Returned(failure.deep_view()),
    {
        self.failure
    }

    /// Tells whether an answer is one to what was asked last.
    pub fn expects(&self, answer: &Answer) -> (expected: bool)
        ensures
            expected == self@.expects(answer@),
    {
        match (self.phase, answer) {
            (Phase::Connecting, Answer::Connected(_)) => true,
            (Phase::BeforeFile, Answer::Cancelled(_)) => true,
            (Phase::Running, Answer::RemoteDone(_)) => true,
            (Phase::AfterLoss, Answer::Cancelled(_)) => true,
            _ => false,
        }
    }

    fn finish(&mut self, failure: Option<String>, out: &mut Vec<Action>)
        ensures
            final(self)@ == same_server_return(old(self)@, failure.deep_view()).0,
            final(out).deep_view() == old(out).deep_view() + same_server_return(
                old(self)@,
                failure.deep_view(),
            ).1,
    {
        self.phase = Phase::Returned;
        self.failure = failure;
        put(out, Action::CloseSsh);
    }

    fn next_file(&mut self, out: &mut Vec<Action>)
        ensures
            final(self)@ == same_server_next_file(old(self)@).0,
            final(out).deep_view() == old(out).deep_view() + same_server_next_file(old(self)@).1,
    {
        assert(self.source_files.deep_view().len() == self.source_files.len());
        if self.completed < self.source_files.len() {
            self.phase = Phase::BeforeFile;
            put(out, Action::PollCancel);
        } else {
            self.finish(None, out);
        }
    }

    /// Takes the answer to what was asked last, and appends what is to be done next.
    pub fn advance(&mut self, answer: Answer, out: &mut Vec<Action>)
        requires
            old(self)@.wf(),
            old(self)@.expects(answer@),
        ensures
            final(self)@.wf(),
            final(self)@ == same_server_next(old(self)@, answer@).0,
            final(out).deep_view() == old(out).deep_view() + same_server_next(
                old(self)@,
                answer@,
            ).1,
    {
        let ghost before = out.deep_view();
        let ghost was = self@;
        assert(self.source_files.deep_view().len() == self.source_files.len());
        match answer {
            Answer::Connected(Ok(_)) => {
                self.next_file(out);
            },
            Answer::Connected(Err(reason)) => {
                self.phase = Phase::Returned;
                self.failure = Some(reason);
            },
            Answer::Cancelled(true) => {
                self.finish(None, out);
            },
            Answer::Cancelled(false) => {
                if self.phase == Phase::AfterLoss {
                    let reason = self.loss.clone();
                    self.finish(Some(reason), out);
                } else {
                    let file = self.source_files[self.completed].clone();
                    let source = join_path(self.source_base.as_str(), file.as_str());
                    let command = build_same_server_command(
                        self.is_cut,
                        source.as_str(),
                        self.target_path.as_str(),
                    );
                    say(out, ProgressMessage::FileStarted(file));
                    put(out, Action::RunRemote { command, cancelable: true });
                    self.phase = Phase::Running;
                }
            },
            Answer::RemoteDone(Err(reason)) => {
                self.loss = reason;
                self.phase = Phase::AfterLoss;
                put(out, Action::PollCancel);
            },
            Answer::RemoteDone(Ok((success, stderr))) => {
                let file = self.source_files[self.completed].clone();
                if success {
                    self.completed = self.completed + 1;
                    say(out, ProgressMessage::FileCompleted(file));
                    say(
                        out,
                        ProgressMessage::TotalProgress(
                            self.completed,
                            self.source_files.len(),
                            0,
                            0,
                        ),
                    );
                    assert(self@ == SameServerView { completed: was.completed + 1, ..was });
                    self.next_file(out);
                } else {
                    let reason = explain_failure(self.is_cut, file.as_str(), stderr.as_str());
                    say(out, ProgressMessage::Error(file, reason.clone()));
                    self.finish(Some(reason), out);
                }
            },
            _ => {},
        }
        assert(out.deep_view() == before + same_server_next(was, answer@).1);
    }
}

} // verus!
