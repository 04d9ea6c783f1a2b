//! The deletion of source files after they have been moved elsewhere.

use crate::action::{pair, put, say, Action, ActionView, Answer, AnswerView};
use crate::command::{build_remove_command, join_path, path_below, remove_command};
use crate::message::{MessageView, ProgressMessage};
use crate::profile::{ProfileView, RemoteProfile};
use crate::text::{concat, trim, trimmed};
use vstd::prelude::*;

verus! {

/// What is to be deleted: files below a base, on a server or on this machine.
#[verifier::ext_equal]
pub struct DeleteJob {
    pub files: Seq<Seq<char>>,
    pub base: Seq<char>,
    pub profile: Option<ProfileView>,
}

/// How far a deletion has come: the answer that it waits for, or its end.
#[verifier::ext_equal]
pub enum DeleteStage {
    /// Before the connection: whether the transfer has been cancelled.
    BeforeConnect,
    /// Whether there is a connection.
    Connecting,
    /// After there was none, for this reason: whether the transfer has been cancelled.
    AfterNoConnect(Seq<char>),
    /// What came of the command.
    Running,
    /// After the command could not be run, for this reason: whether the transfer has been
    /// cancelled.
    AfterLoss(Seq<char>),
    /// Whether the local file with this number is a directory.
    Probing(nat),
    /// Whether the local file with this number has been deleted.
    Local(nat),
    /// Over.
    Done,
}

/// A deletion.
#[verifier::ext_equal]
pub struct DeleteView {
    pub job: DeleteJob,
    pub stage: DeleteStage,
}

impl DeleteView {
    /// What always holds: a server is only talked to where the files are on one.
    pub open spec fn wf(self) -> bool {
        &&& self.job.files.len() <= usize::MAX
        &&& match self.stage {
            DeleteStage::Probing(index) | DeleteStage::Local(index) => self.job.profile is None
                && index < self.job.files.len(),
            DeleteStage::Done => true,
            _ => self.job.profile is Some,
        }
    }

    /// Whether an answer is one to what was asked last.
    pub open spec fn expects(self, answer: AnswerView) -> bool {
        match (self.stage, answer) {
            (DeleteStage::BeforeConnect, AnswerView::Cancelled(_)) => true,
            (DeleteStage::Connecting, AnswerView::Connected(_)) => true,
            (DeleteStage::AfterNoConnect(_), AnswerView::Cancelled(_)) => true,
            (DeleteStage::Running, AnswerView::RemoteDone(_)) => true,
            (DeleteStage::AfterLoss(_), AnswerView::Cancelled(_)) => true,
            (DeleteStage::Probing(_), AnswerView::IsDir(_)) => true,
            (DeleteStage::Local(_), AnswerView::LocalDeleted(_)) => true,
            _ => false,
        }
    }
}

/// A message on what failed.
pub open spec fn failure_message(file: Seq<char>, reason: Seq<char>) -> ActionView {
    ActionView::Send(MessageView::Error(file, reason))
}

/// The turn to the local file with a number, or the end behind the last one.
pub open spec fn delete_local_turn(job: DeleteJob, index: nat) -> (DeleteView, Seq<ActionView>) {
    if index < job.files.len() {
        (
            DeleteView { job, stage: DeleteStage::Probing(index) },
            seq![ActionView::ProbeDir { path: path_below(job.base, job.files[index as int]) }],
        )
    } else {
        (DeleteView { job, stage: DeleteStage::Done }, Seq::empty())
    }
}

/// The deletion of what is at a path: a directory with all that is below it, and anything else as a
/// single file.
pub open spec fn delete_path(path: Seq<char>, is_dir: bool) -> ActionView {
    if is_dir {
        ActionView::DeleteTree { path }
    } else {
        ActionView::DeleteFile { path }
    }
}

/// The start of a deletion.
pub open spec fn delete_start(job: DeleteJob) -> (DeleteView, Seq<ActionView>) {
    if job.profile is None {
        delete_local_turn(job, 0)
    } else if job.files.len() == 0 {
        (DeleteView { job, stage: DeleteStage::Done }, Seq::empty())
    } else {
        (DeleteView { job, stage: DeleteStage::BeforeConnect }, seq![ActionView::PollCancel])
    }
}

/// What follows a look at the cancellation.
pub open spec fn delete_polled(d: DeleteView, cancelled: bool) -> (DeleteView, Seq<ActionView>) {
    let done = DeleteView { stage: DeleteStage::Done, ..d };
    match d.stage {
        DeleteStage::BeforeConnect => if cancelled {
            (done, Seq::empty())
        } else {
            (
                DeleteView { stage: DeleteStage::Connecting, ..d },
                seq![ActionView::ConnectSsh(d.job.profile->0)],
            )
        },
        DeleteStage::AfterNoConnect(reason) => if cancelled {
            (done, Seq::empty())
        } else {
            (
                done,
                seq![
                    failure_message(
                        Seq::empty(),
                        "Failed to connect for source deletion: "@ + reason,
                    ),
                ],
            )
        },
        DeleteStage::AfterLoss(reason) => if cancelled {
            (done, seq![ActionView::CloseSsh])
        } else {
            (
                done,
                pair(
                    failure_message(
                        Seq::empty(),
                        "Failed to run SSH for source deletion: "@ + reason,
                    ),
                    ActionView::CloseSsh,
                ),
            )
        },
        _ => (d, Seq::empty()),
    }
}

/// The deletion after an answer that was expected, and what is to be done next.
pub open spec fn delete_next(d: DeleteView, answer: AnswerView) -> (DeleteView, Seq<ActionView>) {
    match answer {
        AnswerView::Cancelled(cancelled) => delete_polled(d, cancelled),
        AnswerView::Connected(Ok(_)) => (
            DeleteView { stage: DeleteStage::Running, ..d },
            seq![
                ActionView::RunRemote {
                    command: remove_command(d.job.base, d.job.files),
                    cancelable: true,
                },
            ],
        ),
        AnswerView::Connected(Err(reason)) => (
            DeleteView { stage: DeleteStage::AfterNoConnect(reason), ..d },
            seq![ActionView::PollCancel],
        ),
        AnswerView::RemoteDone(Ok((success, stderr))) => (
            DeleteView { stage: DeleteStage::Done, ..d },
            if success {
                seq![ActionView::CloseSsh]
            } else {
                pair(
                    failure_message(
                        Seq::empty(),
                        "Failed to delete remote source: "@ + trimmed(stderr),
                    ),
                    ActionView::CloseSsh,
                )
            },
        ),
        AnswerView::RemoteDone(Err(reason)) => (
            DeleteView { stage: DeleteStage::AfterLoss(reason), ..d },
            seq![ActionView::PollCancel],
        ),
        AnswerView::IsDir(is_dir) => {
            let index = d.stage->Probing_0;
            let path = path_below(d.job.base, d.job.files[index as int]);
            (
                DeleteView { stage: DeleteStage::Local(index), ..d },
                seq![delete_path(path, is_dir)],
            )
        },
        AnswerView::LocalDeleted(outcome) => {
            let index = d.stage->Local_0;
            let (next, actions) = delete_local_turn(d.job, index + 1);
            match outcome {
                Ok(_) => (next, actions),
                Err(reason) => (
                    next,
                    seq![
                        failure_message(
                            d.job.files[index as int],
                            "Failed to delete source: "@ + reason,
                        ),
                    ] + actions,
                ),
            }
        },
        _ => (d, Seq::empty()),
    }
}

/// The stage of a deletion, without what belongs to it.
#[derive(Debug, Clone, Copy, PartialEq, Eq, Structural)]
enum Phase {
    BeforeConnect,
    Connecting,
    AfterNoConnect,
    Running,
    AfterLoss,
    Probing,
    Local,
    Done,
}

/// A deletion of source files.
#[derive(Debug, PartialEq, Eq)]
pub struct SourceDeletion {
    source_files: Vec<String>,
    source_base: String,
    source_profile: Option<RemoteProfile>,
    phase: Phase,
    /// The number of the local file that is being deleted.
    index: usize,
    /// The reason why there is no connection or why the command could not be run.
    loss: String,
}

impl View for SourceDeletion {
    type V = DeleteView;

    closed spec fn view(&self) -> DeleteView {
        DeleteView {
            job: DeleteJob {
                files: self.source_files.deep_view(),
                base: self.source_base@,
                profile: self.source_profile.deep_view(),
            },
            stage: match self.phase {
                Phase::BeforeConnect => DeleteStage::BeforeConnect,
                Phase::Connecting => DeleteStage::Connecting,
                Phase::AfterNoConnect => DeleteStage::AfterNoConnect(self.loss@),
                Phase::Running => DeleteStage::Running,
                Phase::AfterLoss => DeleteStage::AfterLoss(self.loss@),
                Phase::Probing => DeleteStage::Probing(self.index as nat),
                Phase::Local => DeleteStage::Local(self.index as nat),
                Phase::Done => DeleteStage::Done,
            },
        }
    }
}

/// Starts to delete source files after a successful move. With a `source_profile` they are on that
/// server, without one they are on this machine.
pub fn delete_source_files_after_cut(
    source_files: Vec<String>,
    source_base: String,
    source_profile: Option<RemoteProfile>,
    out: &mut Vec<Action>,
) -> (deletion: SourceDeletion)
    ensures
        deletion@.wf(),
        ({
            let job = DeleteJob {
                files: source_files.deep_view(),
                base: source_base@,
                profile: source_profile.deep_view(),
            };
            &&& deletion@ == delete_start(job).0
            &&& final(out).deep_view() == old(out).deep_view() + delete_start(job).1
        }),
{
    let mut deletion = SourceDeletion {
        source_files,
        source_base,
        source_profile,
        phase: Phase::Done,
        index: 0,
        loss: String::new(),
    };
    match &deletion.source_profile {
        Some(_) => deletion.delete_remote_source_files(out),
        None => deletion.delete_local_source_files(0, out),
    }
    deletion
}

impl SourceDeletion {
    /// Whether the deletion is over.
    pub fn done(&self) -> (over: bool)
        ensures
            over == (self@.stage is Done),
    {
        self.phase == Phase::Done
    }

    /// Tells whether an answer is one to what was asked last.
    pub fn expects(&self, answer: &Answer) -> (expected: bool)
        ensures
            expected == self@.expects(answer@),
    {
        match (self.phase, answer) {
            (Phase::BeforeConnect, Answer::Cancelled(_)) => true,
            (Phase::Connecting, Answer::Connected(_)) => true,
            (Phase::AfterNoConnect, Answer::Cancelled(_)) => true,
            (Phase::Running, Answer::RemoteDone(_)) => true,
            (Phase::AfterLoss, Answer::Cancelled(_)) => true,
            (Phase::Probing, Answer::IsDir(_)) => true,
            (Phase::Local, Answer::LocalDeleted(_)) => true,
            _ => false,
        }
    }

    /// Starts to delete files on a server. Where there are none, or the transfer has been
    /// cancelled already, there is no connection at all.
    fn delete_remote_source_files(&mut self, out: &mut Vec<Action>)
        requires
            old(self)@.job.profile is Some,
        ensures
            final(self)@.wf(),
            final(self)@ == delete_start(old(self)@.job).0,
            final(out).deep_view() == old(out).deep_view() + delete_start(old(self)@.job).1,
    {
        assert(self.source_files.deep_view().len() == self.source_files.len());
        if self.source_files.len() == 0 {
            self.phase = Phase::Done;
        } else {
            self.phase = Phase::BeforeConnect;
            put(out, Action::PollCancel);
        }
    }

    /// Turns to the local file with this number.
    fn delete_local_source_files(&mut self, index: usize, out: &mut Vec<Action>)
        requires
            old(self)@.job.profile is None,
        ensures
            final(self)@.wf(),
            final(self)@ == delete_local_turn(old(self)@.job, index as nat).0,
            final(out).deep_view() == old(out).deep_view() + delete_local_turn(
                old(self)@.job,
                index as nat,
            ).1,
    {
        assert(self.source_files.deep_view().len() == self.source_files.len());
        if index < self.source_files.len() {
            self.phase = Phase::Probing;
            self.index = index;
            let path = join_path(self.source_base.as_str(), self.source_files[index].as_str());
            put(out, Action::ProbeDir { path });
        } else {
            self.phase = Phase::Done;
        }
    }

    fn polled(&mut self, cancelled: bool, out: &mut Vec<Action>)
        requires
            old(self)@.wf(),
            old(self)@.expects(AnswerView::Cancelled(cancelled)),
        ensures
            final(self)@ == delete_polled(old(self)@, cancelled).0,
            final(out).deep_view() == old(out).deep_view() + delete_polled(
                old(self)@,
                cancelled,
            ).1,
    {
        let ghost before = out.deep_view();
        let ghost was = self@;
        match self.phase {
            Phase::BeforeConnect => {
                if cancelled {
                    self.phase = Phase::Done;
                } else {
                    if let Some(profile) = &self.source_profile {
                        put(out, Action::ConnectSsh(profile.clone()));
                    }
                    self.phase = Phase::Connecting;
                }
            },
            Phase::AfterNoConnect => {
                self.phase = Phase::Done;
                if !cancelled {
                    let reason = concat(
                        "Failed to connect for source deletion: ",
                        self.loss.as_str(),
                    );
                    say(out, ProgressMessage::Error(String::new(), reason));
                }
            },
            _ => {
                self.phase = Phase::Done;
                if !cancelled {
                    let reason = concat(
                        "Failed to run SSH for source deletion: ",
                        self.loss.as_str(),
                    );
                    say(out, ProgressMessage::Error(String::new(), reason));
                }
                put(out, Action::CloseSsh);
            },
        }
        assert(out.deep_view() == before + delete_polled(was, cancelled).1);
    }

    /// Takes the answer to what was asked last, and appends what is to be done next.
    pub fn advance(&mut self, answer: Answer, out: &mut Vec<Action>)
        requires
            old(self)@.wf(),
            old(self)@.expects(answer@),
        ensures
            final(self)@.wf(),
            final(self)@ == delete_next(old(self)@, answer@).0,
            final(out).deep_view() == old(out).deep_view() + delete_next(old(self)@, answer@).1,
    {
        let ghost before = out.deep_view();
        let ghost was = self@;
        match answer {
            Answer::Cancelled(cancelled) => {
                self.polled(cancelled, out);
            },
            Answer::Connected(Ok(_)) => {
                let command = build_remove_command(self.source_base.as_str(), &self.source_files);
                put(out, Action::RunRemote { command, cancelable: true });
                self.phase = Phase::Running;
            },
            Answer::Connected(Err(reason)) => {
                self.loss = reason;
                self.phase = Phase::AfterNoConnect;
                put(out, Action::PollCancel);
            },
            Answer::RemoteDone(Ok((success, stderr))) => {
                if !success {
                    let said = trim(stderr.as_str());
                    let reason = concat("Failed to delete remote source: ", said.as_str());
                    say(out, ProgressMessage::Error(String::new(), reason));
                }
                put(out, Action::CloseSsh);
                self.phase = Phase::Done;
            },
            Answer::RemoteDone(Err(reason)) => {
                self.loss = reason;
                self.phase = Phase::AfterLoss;
                put(out, Action::PollCancel);
            },
            Answer::IsDir(is_dir) => {
                assert(self.source_files.deep_view().len() == self.source_files.len());
                let path = join_path(
                    self.source_base.as_str(),
                    self.source_files[self.index].as_str(),
                );
                if is_dir {
                    put(out, Action::DeleteTree { path });
                } else {
                    put(out, Action::DeleteFile { path });
                }
                self.phase = Phase::Local;
            },
            Answer::LocalDeleted(outcome) => {
                assert(self.source_files.deep_view().len() == self.source_files.len());
                let index: usize = self.index;
                if let Err(reason) = outcome {
                    let file = self.source_files[index].clone();
                    let text = concat("Failed to delete source: ", reason.as_str());
                    say(out, ProgressMessage::Error(file, text));
                }
                self.delete_local_source_files(index + 1, out);
            },
            _ => {},
        }
        assert(out.deep_view() == before + delete_next(was, answer@).1);
    }
}

} // verus!
