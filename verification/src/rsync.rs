//! The transfer of some files by rsync, one after the other.

use crate::action::{
    pair, put, say, Action, ActionView, Answer, AnswerView, ExitReport, ExitView, OutputEvent,
};
use crate::command::{
    build_rsync_command, rsync_command, ConfigView, Login, TransferConfig,
};
use crate::message::{MessageView, ProgressMessage};
use crate::profile::{build_ssh_option, ssh_option, AuthView, Platform, RemoteAuth};
use crate::progress::{
    byte_report, line_after, line_report, report_line, take_byte,
};
use crate::text::{concat, push_signed_decimal, signed_decimal, trim, trimmed};
use vstd::prelude::*;

verus! {

/// How far a transfer has come: the answer that it waits for, or its end.
#[verifier::ext_equal]
pub enum RsyncStage {
    /// The path of the key file.
    KeyPath,
    /// Whether sshpass is installed.
    Sshpass,
    /// Whether the script that prints the password has been made.
    Askpass,
    /// Before a file: whether the transfer has been cancelled.
    BeforeFile,
    /// Whether rsync has been started.
    Spawning,
    /// Before a byte of output: whether the transfer has been cancelled.
    BeforeRead,
    /// A byte of output.
    Reading,
    /// How rsync ended.
    Exiting,
    /// After rsync could not be waited for, for this reason: whether the transfer has been
    /// cancelled.
    AfterLoss(Seq<char>),
    /// After rsync ended: whether the transfer has been cancelled.
    AfterExit(ExitView),
    /// Over, with the reason of a failure, if there was one.
    Returned(Option<Seq<char>>),
}

/// A transfer by rsync.
#[verifier::ext_equal]
pub struct RsyncView {
    pub config: ConfigView,
    pub platform: Platform,
    pub stage: RsyncStage,
    /// The `ssh` command that rsync is given.
    pub ssh_option: Seq<char>,
    pub login: Login,
    /// The number of files that have been transferred.
    pub completed: nat,
    /// The unfinished line of rsync's output.
    pub line: Seq<u8>,
}

impl RsyncView {
    /// Whether a file is being transferred.
    pub open spec fn in_file(self) -> bool {
        match self.stage {
            RsyncStage::KeyPath | RsyncStage::Sshpass | RsyncStage::Askpass => false,
            RsyncStage::Returned(_) => false,
            _ => true,
        }
    }

    /// What always holds: the files are counted right, and a script to print a password is only
    /// there for an account with a password.
    pub open spec fn wf(self) -> bool {
        &&& self.completed <= self.config.files.len() <= usize::MAX
        &&& self.in_file() ==> self.completed < self.config.files.len()
        &&& self.stage is KeyPath ==> self.config.profile.auth is KeyFile
        &&& self.stage is Sshpass || self.stage is Askpass ==> self.config.profile.auth is Password
            && self.login is Key
        &&& !(self.login is Key) ==> self.config.profile.auth is Password
    }

    /// The file that is being transferred.
    pub open spec fn file(self) -> Seq<char> {
        self.config.files[self.completed as int]
    }

    /// Whether an answer is one to what was asked last.
    pub open spec fn expects(self, answer: AnswerView) -> bool {
        match (self.stage, answer) {
            (RsyncStage::KeyPath, AnswerView::KeyPath(_)) => true,
            (RsyncStage::Sshpass, AnswerView::SshpassFound(_)) => true,
            (RsyncStage::Askpass, AnswerView::AskpassCreated(_)) => true,
            (RsyncStage::BeforeFile, AnswerView::Cancelled(_)) => true,
            (RsyncStage::Spawning, AnswerView::Spawned(_)) => true,
            (RsyncStage::BeforeRead, AnswerView::Cancelled(_)) => true,
            (RsyncStage::Reading, AnswerView::Output(_)) => true,
            (RsyncStage::Exiting, AnswerView::ChildExited(_)) => true,
            (RsyncStage::AfterLoss(_), AnswerView::Cancelled(_)) => true,
            (RsyncStage::AfterExit(_), AnswerView::Cancelled(_)) => true,
            _ => false,
        }
    }
}

/// The end of a transfer. The script that prints the password, if there is one, is removed.
pub open spec fn rsync_return(t: RsyncView, failure: Option<Seq<char>>) -> (
    RsyncView,
    Seq<ActionView>,
) {
    (
        RsyncView { stage: RsyncStage::Returned(failure), ..t },
        if t.login is Askpass {
            seq![ActionView::RemoveAskpass]
        } else {
            Seq::empty()
        },
    )
}

/// The turn to the next file, or the end behind the last one.
pub open spec fn rsync_next_file(t: RsyncView) -> (RsyncView, Seq<ActionView>) {
    if t.completed < t.config.files.len() {
        (RsyncView { stage: RsyncStage::BeforeFile, ..t }, seq![ActionView::PollCancel])
    } else {
        rsync_return(t, None)
    }
}

/// The start of a transfer. What `ssh` needs to authenticate is asked for first.
pub open spec fn rsync_start(config: ConfigView, platform: Platform) -> (
    RsyncView,
    Seq<ActionView>,
) {
    let t = RsyncView {
        config,
        platform,
        stage: RsyncStage::KeyPath,
        ssh_option: Seq::empty(),
        login: Login::Key,
        completed: 0,
        line: Seq::empty(),
    };
    match config.profile.auth {
        AuthView::KeyFile { path, .. } => (t, seq![ActionView::ExpandKeyPath(path)]),
        AuthView::Password { .. } => (
            RsyncView {
                stage: RsyncStage::Sshpass,
                ssh_option: ssh_option(config.profile, Seq::empty(), platform),
                ..t
            },
            seq![ActionView::ProbeSshpass],
        ),
    }
}

/// The message on some progress, if there is any.
pub open spec fn progress_actions(report: Option<(u64, u64)>) -> Seq<ActionView> {
    match report {
        Some((sent, total)) => seq![ActionView::Send(MessageView::FileProgress(sent, total))],
        None => Seq::empty(),
    }
}

/// The reason of a failed rsync: its error output, or its exit code where that is blank.
pub open spec fn exit_reason(report: ExitView) -> Seq<char> {
    if trimmed(report.stderr).len() > 0 {
        report.stderr
    } else {
        "rsync exited with code "@ + signed_decimal(
            match report.code {
                Some(code) => code as int,
                None => -1,
            },
        )
    }
}

/// The end of a file.
pub open spec fn rsync_file_done(t: RsyncView, report: ExitView) -> (RsyncView, Seq<ActionView>) {
    if report.success {
        let done = RsyncView { completed: t.completed + 1, ..t };
        let (next, actions) = rsync_next_file(done);
        (
            next,
            pair(
                ActionView::Send(MessageView::FileCompleted(t.file())),
                ActionView::Send(
                    MessageView::TotalProgress(
                        done.completed as usize,
                        t.config.files.len() as usize,
                        0,
                        0,
                    ),
                ),
            ) + actions,
        )
    } else {
        let reason = exit_reason(report);
        let (next, actions) = rsync_return(t, Some(reason));
        (next, seq![ActionView::Send(MessageView::Error(t.file(), reason))] + actions)
    }
}

/// What follows a look at the cancellation.
pub open spec fn rsync_polled(t: RsyncView, cancelled: bool) -> (RsyncView, Seq<ActionView>) {
    match t.stage {
        RsyncStage::BeforeFile => if cancelled {
            rsync_return(t, None)
        } else {
            (
                RsyncView { stage: RsyncStage::Spawning, ..t },
                pair(
                    ActionView::Send(MessageView::FileStarted(t.file())),
                    ActionView::Spawn(rsync_command(t.config, t.ssh_option, t.login, t.file())),
                ),
            )
        },
        RsyncStage::BeforeRead => if cancelled {
            let (next, actions) = rsync_return(t, None);
            (next, seq![ActionView::KillChild] + actions)
        } else {
            (RsyncView { stage: RsyncStage::Reading, ..t }, seq![ActionView::ReadOutput])
        },
        RsyncStage::AfterLoss(reason) => if cancelled {
            rsync_return(t, None)
        } else {
            rsync_return(t, Some("rsync wait failed: "@ + reason))
        },
        RsyncStage::AfterExit(report) => if cancelled {
            rsync_return(t, None)
        } else {
            rsync_file_done(t, report)
        },
        _ => (t, Seq::empty()),
    }
}

/// The transfer after an answer that was expected, and what is to be done next.
pub open spec fn rsync_next(t: RsyncView, answer: AnswerView) -> (RsyncView, Seq<ActionView>) {
    match answer {
        AnswerView::KeyPath(path) => rsync_next_file(
            RsyncView { ssh_option: ssh_option(t.config.profile, path, t.platform), ..t },
        ),
        AnswerView::SshpassFound(true) => rsync_next_file(RsyncView { login: Login::Sshpass, ..t }),
        AnswerView::SshpassFound(false) => (
            RsyncView { stage: RsyncStage::Askpass, ..t },
            seq![ActionView::CreateAskpass(t.config.profile.auth->password)],
        ),
        AnswerView::AskpassCreated(Ok(_)) => rsync_next_file(
            RsyncView { login: Login::Askpass, ..t },
        ),
        AnswerView::AskpassCreated(Err(reason)) => rsync_return(t, Some(reason)),
        AnswerView::Cancelled(cancelled) => rsync_polled(t, cancelled),
        AnswerView::Spawned(Ok(readable)) => if readable {
            (
                RsyncView { stage: RsyncStage::BeforeRead, line: Seq::empty(), ..t },
                seq![ActionView::PollCancel],
            )
        } else {
            (RsyncView { stage: RsyncStage::Exiting, ..t }, seq![ActionView::AwaitChild])
        },
        AnswerView::Spawned(Err(reason)) => rsync_return(
            t,
            Some("Failed to start rsync: "@ + reason),
        ),
        AnswerView::Output(OutputEvent::Byte(byte)) => (
            RsyncView { stage: RsyncStage::BeforeRead, line: line_after(t.line, byte), ..t },
            progress_actions(byte_report(t.line, byte)).push(ActionView::PollCancel),
        ),
        AnswerView::Output(OutputEvent::End) => (
            RsyncView { stage: RsyncStage::Exiting, line: Seq::empty(), ..t },
            progress_actions(line_report(t.line)).push(ActionView::AwaitChild),
        ),
        AnswerView::ChildExited(Ok(report)) => (
            RsyncView { stage: RsyncStage::AfterExit(report), ..t },
            seq![ActionView::PollCancel],
        ),
        AnswerView::ChildExited(Err(reason)) => (
            RsyncView { stage: RsyncStage::AfterLoss(reason), ..t },
            seq![ActionView::PollCancel],
        ),
        _ => (t, Seq::empty()),
    }
}

/// The stage of a transfer, without what belongs to it.
#[derive(Debug, Clone, Copy, PartialEq, Eq, Structural)]
enum Phase {
    KeyPath,
    Sshpass,
    Askpass,
    BeforeFile,
    Spawning,
    BeforeRead,
    Reading,
    Exiting,
    AfterLoss,
    AfterExit,
    Returned,
}

/// A transfer by rsync.
#[derive(Debug, PartialEq, Eq)]
pub struct RsyncTransfer {
    config: TransferConfig,
    platform: Platform,
    phase: Phase,
    ssh_option: String,
    login: Login,
    completed: usize,
    line: Vec<u8>,
    /// The reason why rsync could not be waited for.
    loss: String,
    /// How rsync ended.
    report: ExitReport,
    /// The reason why the transfer failed, if it did.
    failure: Option<String>,
}

impl View for RsyncTransfer {
    type V = RsyncView;

    closed spec fn view(&self) -> RsyncView {
        RsyncView {
            config: self.config@,
            platform: self.platform,
            stage: match self.phase {
                Phase::KeyPath => RsyncStage::KeyPath,
                Phase::Sshpass => RsyncStage::Sshpass,
                Phase::Askpass => RsyncStage::Askpass,
                Phase::BeforeFile => RsyncStage::BeforeFile,
                Phase::Spawning => RsyncStage::Spawning,
                Phase::BeforeRead => RsyncStage::BeforeRead,
                Phase::Reading => RsyncStage::Reading,
                Phase::Exiting => RsyncStage::Exiting,
                Phase::AfterLoss => RsyncStage::AfterLoss(self.loss@),
                Phase::AfterExit => RsyncStage::AfterExit(self.report@),
                Phase::Returned => RsyncStage::Returned(self.failure.deep_view()),
            },
            ssh_option: self.ssh_option@,
            login: self.login,
            completed: self.completed as nat,
            line: self.line@,
        }
    }
}

/// Starts to transfer the files of a configuration. For a password, sshpass is tried first, and a
/// script that `ssh` asks for it is the fallback.
pub fn transfer_rsync(config: TransferConfig, platform: Platform, out: &mut Vec<Action>) -> (
    transfer: RsyncTransfer)
    ensures
        transfer@.wf(),
        transfer@ == rsync_start(config@, platform).0,
        final(out).deep_view() == old(out).deep_view() + rsync_start(config@, platform).1,
{
    let mut transfer = RsyncTransfer {
        config,
        platform,
        phase: Phase::KeyPath,
        ssh_option: String::new(),
        login: Login::Key,
        completed: 0,
        line: Vec::new(),
        loss: String::new(),
        report: ExitReport { success: false, code: None, stderr: String::new() },
        failure: None,
    };
    assert(transfer.config@.files.len() == transfer.config.source_files.len());
    match &transfer.config.profile.auth {
        RemoteAuth::KeyFile { path, .. } => {
            put(out, Action::ExpandKeyPath(path.clone()));
        },
        RemoteAuth::Password { .. } => {
            let empty = String::new();
            let option = build_ssh_option(&transfer.config.profile, empty.as_str(), platform);
            transfer.ssh_option = option;
            transfer.phase = Phase::Sshpass;
            put(out, Action::ProbeSshpass);
        },
    }
    transfer
}

/// The reason of a failed rsync.
fn explain_exit(report: &ExitReport) -> (reason: String)
    ensures
        reason@ == exit_reason(report@),
{
    let said = trim(report.stderr.as_str());
    if !said.as_str().is_empty() {
        report.stderr.clone()
    } else {
        let mut reason = "rsync exited with code ".to_string();
        let code: i32 = match report.code {
            Some(code) => code,
            None => -1,
        };
        push_signed_decimal(&mut reason, code);
        reason
    }
}

/// Appends the message on some progress, if there is any.
fn say_progress(out: &mut Vec<Action>, report: Option<(u64, u64)>)
    ensures
        final(out).deep_view() == old(out).deep_view() + progress_actions(report),
{
    match report {
        Some((sent, total)) => {
            say(out, ProgressMessage::FileProgress(sent, total));
        },
        None => {},
    }
}

impl RsyncTransfer {
    /// Whether the transfer is over.
    pub fn returned(&self) -> (over: bool)
        ensures
            over == (self@.stage is Returned),
    {
        self.phase == Phase::Returned
    }

    /// The reason of a failure, if there was one, of a transfer that is over.
    pub fn into_failure(self) -> (failure: Option<String>)
        requires
            self@.stage is Returned,
        ensures
            self@.stage == RsyncStage::Returned(failure.deep_view()),
    {
        self.failure
    }

    /// Tells whether an answer is one to what was asked last.
    pub fn expects(&self, answer: &Answer) -> (expected: bool)
        ensures
            expected == self@.expects(answer@),
    {
        match (self.phase, answer) {
            (Phase::KeyPath, Answer::KeyPath(_)) => true,
            (Phase::Sshpass, Answer::SshpassFound(_)) => true,
            (Phase::Askpass, Answer::AskpassCreated(_)) => true,
            (Phase::BeforeFile, Answer::Cancelled(_)) => true,
            (Phase::Spawning, Answer::Spawned(_)) => true,
            (Phase::BeforeRead, Answer::Cancelled(_)) => true,
            (Phase::Reading, Answer::Output(_)) => true,
            (Phase::Exiting, Answer::ChildExited(_)) => true,
            (Phase::AfterLoss, Answer::Cancelled(_)) => true,
            (Phase::AfterExit, Answer::Cancelled(_)) => true,
            _ => false,
        }
    }

    fn finish(&mut self, failure: Option<String>, out: &mut Vec<Action>)
        ensures
            final(self)@ == rsync_return(old(self)@, failure.deep_view()).0,
            final(out).deep_view() == old(out).deep_view() + rsync_return(
                old(self)@,
                failure.deep_view(),
            ).1,
    {
        self.phase = Phase::Returned;
        self.failure = failure;
        if self.login == Login::Askpass {
            put(out, Action::RemoveAskpass);
        }
    }

    fn next_file(&mut self, out: &mut Vec<Action>)
        ensures
            final(self)@ == rsync_next_file(old(self)@).0,
            final(out).deep_view() == old(out).deep_view() + rsync_next_file(old(self)@).1,
    {
        assert(self.config@.files.len() == self.config.source_files.len());
        if self.completed < self.config.source_files.len() {
            self.phase = Phase::BeforeFile;
            put(out, Action::PollCancel);
        } else {
            self.finish(None, out);
        }
    }

    fn file_done(&mut self, out: &mut Vec<Action>)
        requires
            old(self)@.wf(),
            old(self)@.stage is AfterExit,
        ensures
            final(self)@ == rsync_file_done(old(self)@, old(self)@.stage->AfterExit_0).0,
            final(out).deep_view() == old(out).deep_view() + rsync_file_done(
                old(self)@,
                old(self)@.stage->AfterExit_0,
            ).1,
    {
        assert(self.config@.files.len() == self.config.source_files.len());
        let file = self.config.source_files[self.completed].clone();
        let ghost before = out.deep_view();
        let ghost was = self@;
        if self.report.success {
            self.completed = self.completed + 1;
            say(out, ProgressMessage::FileCompleted(file));
            say(
                out,
                ProgressMessage::TotalProgress(
                    self.completed,
                    self.config.source_files.len(),
                    0,
                    0,
                ),
            );
            let ghost done = self@;
            assert(done == RsyncView { completed: was.completed + 1, ..was });
            self.next_file(out);
            assert(out.deep_view() == before + rsync_file_done(was, was.stage->AfterExit_0).1);
        } else {
            let reason = explain_exit(&self.report);
            say(out, ProgressMessage::Error(file, reason.clone()));
            self.finish(Some(reason), out);
            assert(out.deep_view() == before + rsync_file_done(was, was.stage->AfterExit_0).1);
        }
    }

    fn polled(&mut self, cancelled: bool, out: &mut Vec<Action>)
        requires
            old(self)@.wf(),
            old(self)@.expects(AnswerView::Cancelled(cancelled)),
        ensures
            final(self)@ == rsync_polled(old(self)@, cancelled).0,
            final(out).deep_view() == old(out).deep_view() + rsync_polled(old(self)@, cancelled).1,
    {
        let ghost before = out.deep_view();
        let ghost was = self@;
        match self.phase {
            Phase::BeforeFile => {
                if cancelled {
                    self.finish(None, out);
                } else {
                    assert(self.config@.files.len() == self.config.source_files.len());
                    let file = self.config.source_files[self.completed].clone();
                    let command = build_rsync_command(
                        &self.config,
                        self.ssh_option.as_str(),
                        self.login,
                        file.as_str(),
                    );
                    say(out, ProgressMessage::FileStarted(file));
                    put(out, Action::Spawn(command));
                    self.phase = Phase::Spawning;
                    assert(out.deep_view() == before + rsync_polled(was, cancelled).1);
                }
            },
            Phase::BeforeRead => {
                if cancelled {
                    put(out, Action::KillChild);
                    self.finish(None, out);
                    assert(out.deep_view() == before + rsync_polled(was, cancelled).1);
                } else {
                    self.phase = Phase::Reading;
                    put(out, Action::ReadOutput);
                }
            },
            Phase::AfterLoss => {
                if cancelled {
                    self.finish(None, out);
                } else {
                    let reason = concat("rsync wait failed: ", self.loss.as_str());
                    self.finish(Some(reason), out);
                }
            },
            _ => {
                if cancelled {
                    self.finish(None, out);
                } else {
                    self.file_done(out);
                }
            },
        }
    }

    /// Takes the answer to what was asked last, and appends what is to be done next.
    pub fn advance(&mut self, answer: Answer, out: &mut Vec<Action>)
        requires
            old(self)@.wf(),
            old(self)@.expects(answer@),
        ensures
            final(self)@.wf(),
            final(self)@ == rsync_next(old(self)@, answer@).0,
            final(out).deep_view() == old(out).deep_view() + rsync_next(old(self)@, answer@).1,
    {
        let ghost before = out.deep_view();
        let ghost was = self@;
        match answer {
            Answer::KeyPath(path) => {
                let option = build_ssh_option(&self.config.profile, path.as_str(), self.platform);
                self.ssh_option = option;
                self.next_file(out);
            },
            Answer::SshpassFound(true) => {
                self.login = Login::Sshpass;
                self.next_file(out);
            },
            Answer::SshpassFound(false) => {
                if let RemoteAuth::Password { password } = &self.config.profile.auth {
                    put(out, Action::CreateAskpass(password.clone()));
                }
                self.phase = Phase::Askpass;
            },
            Answer::AskpassCreated(Ok(_)) => {
                self.login = Login::Askpass;
                self.next_file(out);
            },
            Answer::AskpassCreated(Err(reason)) => {
                self.finish(Some(reason), out);
            },
            Answer::Cancelled(cancelled) => {
                self.polled(cancelled, out);
            },
            Answer::Spawned(Ok(readable)) => {
                if readable {
                    self.line.clear();
                    self.phase = Phase::BeforeRead;
                    put(out, Action::PollCancel);
                } else {
                    self.phase = Phase::Exiting;
                    put(out, Action::AwaitChild);
                }
            },
            Answer::Spawned(Err(reason)) => {
                self.finish(Some(concat("Failed to start rsync: ", reason.as_str())), out);
            },
            Answer::Output(OutputEvent::Byte(byte)) => {
                let report = take_byte(&mut self.line, byte);
                say_progress(out, report);
                put(out, Action::PollCancel);
                self.phase = Phase::BeforeRead;
            },
            Answer::Output(OutputEvent::End) => {
                let report = report_line(&self.line);
                say_progress(out, report);
                put(out, Action::AwaitChild);
                self.line.clear();
                self.phase = Phase::Exiting;
            },
            Answer::ChildExited(Ok(report)) => {
                self.report = report;
                self.phase = Phase::AfterExit;
                put(out, Action::PollCancel);
            },
            Answer::ChildExited(Err(reason)) => {
                self.loss = reason;
                self.phase = Phase::AfterLoss;
                put(out, Action::PollCancel);
            },
            _ => {},
        }
        assert(out.deep_view() == before + rsync_next(was, answer@).1);
    }
}

} // verus!
