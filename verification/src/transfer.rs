//! A whole transfer: from this machine to a server, from a server to this machine, or from one
//! server to another, with all that it tells of its progress.

use crate::action::{
    pair, put, say, Action, ActionView, Answer, AnswerView, TempDirFault, TempDirFaultView,
};
use crate::command::{copy_texts, ConfigView, TransferConfig, TransferDirection};
use crate::delete::{
    delete_next, delete_source_files_after_cut, delete_start, DeleteJob, DeleteView,
    SourceDeletion,
};
use crate::message::{MessageView, ProgressMessage};
use crate::profile::{is_same_server, same_server, Platform, ProfileView, RemoteProfile};
use crate::rsync::{
    rsync_next, rsync_start, transfer_rsync, RsyncStage, RsyncTransfer, RsyncView,
};
use crate::same_server::{
    same_server_next, same_server_start, transfer_same_server, SameServerJob, SameServerStage,
    SameServerTransfer, SameServerView,
};
use crate::text::{concat, decimal, push_decimal};
use vstd::prelude::*;

verus! {

/// The way that the files take.
#[derive(Debug, PartialEq, Eq)]
pub enum Route {
    /// Between this machine and a server. `origin` is the server that the files come from, if they
    /// come from one.
    Direct { config: TransferConfig, origin: Option<RemoteProfile> },
    /// From one server to another, or to another place on the same one.
    Relay {
        source_profile: RemoteProfile,
        target_profile: RemoteProfile,
        source_files: Vec<String>,
        source_base: String,
        target_path: String,
    },
}

/// A way, by the text that it holds.
#[verifier::ext_equal]
pub enum RouteView {
    Direct { config: ConfigView, origin: Option<ProfileView> },
    Relay {
        source: ProfileView,
        target: ProfileView,
        files: Seq<Seq<char>>,
        base: Seq<char>,
        target_path: Seq<char>,
    },
}

impl View for Route {
    type V = RouteView;

    open spec fn view(&self) -> RouteView {
        match self {
            Route::Direct { config, origin } => RouteView::Direct {
                config: config@,
                origin: origin.deep_view(),
            },
            Route::Relay {
                source_profile,
                target_profile,
                source_files,
                source_base,
                target_path,
            } => RouteView::Relay {
                source: source_profile@,
                target: target_profile@,
                files: source_files.deep_view(),
                base: source_base@,
                target_path: target_path@,
            },
        }
    }
}

/// What is to be transferred.
#[derive(Debug, PartialEq, Eq)]
pub struct Job {
    pub route: Route,
    /// Whether the files are moved: their sources are deleted once they have arrived.
    pub is_cut: bool,
    pub platform: Platform,
}

/// What is to be transferred, by the text that it holds.
#[verifier::ext_equal]
pub struct JobView {
    pub route: RouteView,
    pub is_cut: bool,
    pub platform: Platform,
}

impl View for Job {
    type V = JobView;

    open spec fn view(&self) -> JobView {
        JobView { route: self.route@, is_cut: self.is_cut, platform: self.platform }
    }
}

impl JobView {
    /// The files to be transferred.
    pub open spec fn files(self) -> Seq<Seq<char>> {
        match self.route {
            RouteView::Direct { config, .. } => config.files,
            RouteView::Relay { files, .. } => files,
        }
    }

    /// Their number.
    pub open spec fn total(self) -> usize {
        self.files().len() as usize
    }

    /// What is deleted once the files have arrived, if they are moved.
    pub open spec fn deletion(self) -> DeleteJob {
        match self.route {
            RouteView::Direct { config, origin } => DeleteJob {
                files: config.files,
                base: config.base,
                profile: origin,
            },
            RouteView::Relay { source, files, base, .. } => DeleteJob {
                files,
                base,
                profile: Some(source),
            },
        }
    }

    /// Whether the files stay on their server.
    pub open spec fn stays(self) -> bool {
        match self.route {
            RouteView::Direct { .. } => false,
            RouteView::Relay { source, target, .. } => same_server(source, target),
        }
    }
}

/// The part that a run of rsync plays in a transfer.
#[derive(Debug, Clone, Copy, PartialEq, Eq, Structural)]
pub enum Leg {
    /// The whole way.
    Only,
    /// From the source server to the temporary directory.
    Download,
    /// From the temporary directory to the target server.
    Upload,
}

/// The configuration of a leg. The temporary directory matters between two servers only.
pub open spec fn leg_config(job: JobView, leg: Leg, temp_dir: Seq<char>) -> ConfigView {
    match job.route {
        RouteView::Direct { config, .. } => config,
        RouteView::Relay { source, target, files, base, target_path } => match leg {
            Leg::Upload => ConfigView {
                direction: TransferDirection::LocalToRemote,
                profile: target,
                files,
                base: temp_dir,
                target: target_path,
            },
            _ => ConfigView {
                direction: TransferDirection::RemoteToLocal,
                profile: source,
                files,
                base,
                target: temp_dir,
            },
        },
    }
}

/// How far a transfer has come: what it waits for, or its end.
#[verifier::ext_equal]
pub enum StageView {
    /// Whether rsync is installed.
    Probing,
    /// Whether there is a temporary directory.
    MakingTempDir,
    /// A run of rsync.
    Leg { leg: Leg, temp_dir: Seq<char>, run: RsyncView },
    /// After a run of rsync: whether the transfer has been cancelled.
    AfterLeg { leg: Leg, temp_dir: Seq<char> },
    /// The move or the copy on one server.
    SameServer(SameServerView),
    /// After it: whether the transfer has been cancelled.
    AfterSameServer,
    /// The deletion of the sources.
    Deleting(DeleteView),
    /// Over.
    Finished,
}

/// A transfer.
#[verifier::ext_equal]
pub struct SessionView {
    pub job: JobView,
    pub stage: StageView,
}

impl SessionView {
    /// What always holds of the parts of a transfer.
    pub open spec fn wf(self) -> bool {
        &&& self.job.files().len() <= usize::MAX
        &&& match self.stage {
            StageView::Leg { leg, temp_dir, run } => {
                &&& run.wf()
                &&& !(run.stage is Returned)
                &&& run.config == leg_config(self.job, leg, temp_dir)
                &&& leg is Only <==> self.job.route is Direct
                &&& !self.job.stays()
            },
            StageView::AfterLeg { leg, .. } => {
                &&& leg is Only <==> self.job.route is Direct
                &&& !self.job.stays()
            },
            StageView::SameServer(run) => {
                &&& run.wf()
                &&& !(run.stage is Returned)
                &&& run.job.files == self.job.files()
                &&& self.job.stays()
            },
            StageView::AfterSameServer => self.job.stays(),
            StageView::Deleting(run) => {
                &&& run.wf()
                &&& !(run.stage is Done)
                &&& run.job == self.job.deletion()
                &&& self.job.is_cut
                &&& !self.job.stays()
            },
            StageView::Probing => !self.job.stays(),
            StageView::MakingTempDir => self.job.route is Relay && !self.job.stays(),
            StageView::Finished => true,
        }
    }

    /// Whether an answer is one to what was asked last.
    pub open spec fn expects(self, answer: AnswerView) -> bool {
        match self.stage {
            StageView::Probing => answer is RsyncFound,
            StageView::MakingTempDir => answer is TempDir,
            StageView::Leg { run, .. } => run.expects(answer),
            StageView::AfterLeg { .. } => answer is Cancelled,
            StageView::SameServer(run) => run.expects(answer),
            StageView::AfterSameServer => answer is Cancelled,
            StageView::Deleting(run) => run.expects(answer),
            StageView::Finished => false,
        }
    }
}

/// The sending of a message.
pub open spec fn send(message: MessageView) -> ActionView {
    ActionView::Send(message)
}

/// The name of the directory that holds the files on their way between two servers, made at a
/// time in nanoseconds.
pub open spec fn relay_dir_name(nanos: u128) -> Seq<char> {
    "r2r_"@ + decimal(nanos as nat)
}

/// Builds the name of the directory that holds the files on their way between two servers.
pub fn build_relay_dir_name(nanos: u128) -> (name: String)
    ensures
        name@ == relay_dir_name(nanos),
{
    let mut name = "r2r_".to_string();
    push_decimal(&mut name, nanos);
    name
}

/// The messages at the end of a transfer that failed.
pub open spec fn failed_actions(job: JobView, reason: Seq<char>) -> Seq<ActionView> {
    pair(
        send(MessageView::Error(Seq::empty(), reason)),
        send(MessageView::Completed(0, job.total())),
    )
}

/// The messages when a transfer is prepared.
pub open spec fn prepared_actions(job: JobView) -> Seq<ActionView> {
    pair(
        send(MessageView::PrepareComplete),
        send(MessageView::TotalProgress(0, job.total(), 0, 0)),
    )
}

/// The end of a transfer.
pub open spec fn finished(job: JobView) -> SessionView {
    SessionView { job, stage: StageView::Finished }
}

/// The turn after the deletion of the sources, or without one.
pub open spec fn deletion_turn(job: JobView, run: DeleteView, actions: Seq<ActionView>) -> (
    SessionView,
    Seq<ActionView>,
) {
    if run.stage is Done {
        (finished(job), actions.push(send(MessageView::Completed(job.total(), 0))))
    } else {
        (SessionView { job, stage: StageView::Deleting(run) }, actions)
    }
}

/// The end of a transfer whose files have all arrived: their sources are deleted first, if they
/// are moved.
pub open spec fn arrived(job: JobView) -> (SessionView, Seq<ActionView>) {
    if job.is_cut {
        let (run, actions) = delete_start(job.deletion());
        deletion_turn(job, run, actions)
    } else {
        (finished(job), seq![send(MessageView::Completed(job.total(), 0))])
    }
}

/// The turn after a step of rsync: on with it, or to what follows its end.
pub open spec fn leg_turn(
    job: JobView,
    leg: Leg,
    temp_dir: Seq<char>,
    run: RsyncView,
    actions: Seq<ActionView>,
) -> (SessionView, Seq<ActionView>) {
    match run.stage {
        RsyncStage::Returned(failure) => {
            let cleanup = if leg is Upload {
                seq![ActionView::RemoveTempDir]
            } else {
                Seq::empty()
            };
            match failure {
                None => (
                    SessionView { job, stage: StageView::AfterLeg { leg, temp_dir } },
                    actions + cleanup + seq![ActionView::PollCancel],
                ),
                Some(reason) => (
                    finished(job),
                    match leg {
                        Leg::Only => actions + failed_actions(job, reason),
                        Leg::Download => actions + failed_actions(job, "Download failed: "@ + reason)
                            + seq![ActionView::RemoveTempDir],
                        Leg::Upload => actions + cleanup + failed_actions(
                            job,
                            "Upload failed: "@ + reason,
                        ),
                    },
                ),
            }
        },
        _ => (SessionView { job, stage: StageView::Leg { leg, temp_dir, run } }, actions),
    }
}

/// The start of a leg, behind some actions.
pub open spec fn leg_begin(
    job: JobView,
    leg: Leg,
    temp_dir: Seq<char>,
    actions: Seq<ActionView>,
) -> (SessionView, Seq<ActionView>) {
    let (run, more) = rsync_start(leg_config(job, leg, temp_dir), job.platform);
    (SessionView { job, stage: StageView::Leg { leg, temp_dir, run } }, actions + more)
}

/// What follows a look at the cancellation after a leg.
pub open spec fn after_leg(job: JobView, leg: Leg, temp_dir: Seq<char>, cancelled: bool) -> (
    SessionView,
    Seq<ActionView>,
) {
    let stopped = send(MessageView::Completed(0, 0));
    match (leg, cancelled) {
        (Leg::Download, true) => (finished(job), pair(ActionView::RemoveTempDir, stopped)),
        (Leg::Download, false) => leg_begin(
            job,
            Leg::Upload,
            temp_dir,
            seq![send(MessageView::TotalProgress(0, job.total(), 0, 0))],
        ),
        (_, true) => (finished(job), seq![stopped]),
        (_, false) => arrived(job),
    }
}

/// The turn after a step on one server: on with it, or to what follows its end.
pub open spec fn same_server_turn(
    job: JobView,
    run: SameServerView,
    actions: Seq<ActionView>,
) -> (SessionView, Seq<ActionView>) {
    match run.stage {
        SameServerStage::Returned(None) => (
            SessionView { job, stage: StageView::AfterSameServer },
            actions.push(ActionView::PollCancel),
        ),
        SameServerStage::Returned(Some(reason)) => (
            finished(job),
            actions + failed_actions(job, reason),
        ),
        _ => (SessionView { job, stage: StageView::SameServer(run) }, actions),
    }
}

/// The transfer after an answer that was expected, and what is to be done next.
pub open spec fn session_next(s: SessionView, answer: AnswerView) -> (
    SessionView,
    Seq<ActionView>,
) {
    let job = s.job;
    match (s.stage, answer) {
        (StageView::Probing, AnswerView::RsyncFound(false)) => (
            finished(job),
            failed_actions(
                job,
                "rsync is not installed. Please install rsync to transfer files."@,
            ),
        ),
        (StageView::Probing, AnswerView::RsyncFound(true)) => if job.route is Direct {
            leg_begin(job, Leg::Only, Seq::empty(), prepared_actions(job))
        } else {
            (SessionView { job, stage: StageView::MakingTempDir }, seq![ActionView::MakeTempDir])
        },
        (StageView::MakingTempDir, AnswerView::TempDir(Ok(temp_dir))) => leg_begin(
            job,
            Leg::Download,
            temp_dir,
            prepared_actions(job),
        ),
        (StageView::MakingTempDir, AnswerView::TempDir(Err(fault))) => (
            finished(job),
            failed_actions(
                job,
                match fault {
                    TempDirFaultView::NoHome => "Failed to get home directory"@,
                    TempDirFaultView::NotCreated(reason) => "Failed to create temp dir: "@ + reason,
                },
            ),
        ),
        (StageView::Leg { leg, temp_dir, run }, _) => {
            let (next, actions) = rsync_next(run, answer);
            leg_turn(job, leg, temp_dir, next, actions)
        },
        (StageView::AfterLeg { leg, temp_dir }, AnswerView::Cancelled(cancelled)) => after_leg(
            job,
            leg,
            temp_dir,
            cancelled,
        ),
        (StageView::SameServer(run), _) => {
            let (next, actions) = same_server_next(run, answer);
            same_server_turn(job, next, actions)
        },
        (StageView::AfterSameServer, AnswerView::Cancelled(cancelled)) => (
            finished(job),
            seq![
                send(
                    if cancelled {
                        MessageView::Completed(0, 0)
                    } else {
                        MessageView::Completed(job.total(), 0)
                    },
                ),
            ],
        ),
        (StageView::Deleting(run), _) => {
            let (next, actions) = delete_next(run, answer);
            deletion_turn(job, next, actions)
        },
        _ => (s, Seq::empty()),
    }
}

/// The first message of a transfer.
pub open spec fn preparing_text(job: JobView) -> Seq<char> {
    "Transferring "@ + decimal(job.files().len()) + (if job.route is Direct {
        " file(s)..."@
    } else {
        " file(s) between remote servers..."@
    })
}

/// The start of a transfer.
pub open spec fn session_start(job: JobView) -> (SessionView, Seq<ActionView>) {
    let first = send(MessageView::Preparing(preparing_text(job)));
    match job.route {
        RouteView::Relay { source, files, base, target_path, .. } if job.stays() => {
            let (run, actions) = same_server_start(
                SameServerJob { files, base, target: target_path, is_cut: job.is_cut },
                source,
            );
            (
                SessionView { job, stage: StageView::SameServer(run) },
                seq![first] + prepared_actions(job) + actions,
            )
        },
        _ => (
            SessionView { job, stage: StageView::Probing },
            pair(first, ActionView::ProbeRsync),
        ),
    }
}

/// The stage of a transfer.
#[derive(Debug, PartialEq, Eq)]
enum Stage {
    Probing,
    MakingTempDir,
    Leg { leg: Leg, temp_dir: String, run: RsyncTransfer },
    AfterLeg { leg: Leg, temp_dir: String },
    SameServer(SameServerTransfer),
    AfterSameServer,
    Deleting(SourceDeletion),
    Finished,
}

/// A transfer. It says what is to be done; each answer to that takes it further.
#[derive(Debug, PartialEq, Eq)]
pub struct Session {
    job: Job,
    stage: Stage,
}

impl View for Session {
    type V = SessionView;

    closed spec fn view(&self) -> SessionView {
        SessionView {
            job: self.job@,
            stage: match self.stage {
                Stage::Probing => StageView::Probing,
                Stage::MakingTempDir => StageView::MakingTempDir,
                Stage::Leg { leg, temp_dir, run } => StageView::Leg {
                    leg,
                    temp_dir: temp_dir@,
                    run: run@,
                },
                Stage::AfterLeg { leg, temp_dir } => StageView::AfterLeg {
                    leg,
                    temp_dir: temp_dir@,
                },
                Stage::SameServer(run) => StageView::SameServer(run@),
                Stage::AfterSameServer => StageView::AfterSameServer,
                Stage::Deleting(run) => StageView::Deleting(run@),
                Stage::Finished => StageView::Finished,
            },
        }
    }
}

/// The files of a job are counted by a `usize`.
proof fn lemma_total_fits(job: Job)
    ensures
        job@.files().len() <= usize::MAX,
{
    match job.route {
        Route::Direct { config, .. } => {
            assert(config@.files.len() == config.source_files.len());
        },
        Route::Relay { source_files, .. } => {
            assert(source_files.deep_view().len() == source_files.len());
        },
    }
}

impl Job {
    /// The number of files to be transferred.
    pub fn total(&self) -> (total: usize)
        ensures
            total == self@.total(),
            total == self@.files().len(),
    {
        match &self.route {
            Route::Direct { config, .. } => {
                assert(config@.files.len() == config.source_files.len());
                config.source_files.len()
            },
            Route::Relay { source_files, .. } => {
                assert(source_files.deep_view().len() == source_files.len());
                source_files.len()
            },
        }
    }

    /// The configuration of a leg.
    fn leg_config(&self, leg: Leg, temp_dir: &String) -> (config: TransferConfig)
        ensures
            config@ == leg_config(self@, leg, temp_dir@),
    {
        match &self.route {
            Route::Direct { config, .. } => config.clone(),
            Route::Relay {
                source_profile,
                target_profile,
                source_files,
                source_base,
                target_path,
            } => match leg {
                Leg::Upload => TransferConfig {
                    direction: TransferDirection::LocalToRemote,
                    profile: target_profile.clone(),
                    source_files: copy_texts(source_files),
                    source_base: temp_dir.clone(),
                    target_path: target_path.clone(),
                },
                _ => TransferConfig {
                    direction: TransferDirection::RemoteToLocal,
                    profile: source_profile.clone(),
                    source_files: copy_texts(source_files),
                    source_base: source_base.clone(),
                    target_path: temp_dir.clone(),
                },
            },
        }
    }

    /// Appends the messages at the end of a transfer that failed.
    fn say_failed(&self, reason: String, out: &mut Vec<Action>)
        ensures
            final(out).deep_view() == old(out).deep_view() + failed_actions(self@, reason@),
    {
        say(out, ProgressMessage::Error(String::new(), reason));
        say(out, ProgressMessage::Completed(0, self.total()));
        assert(final(out).deep_view() =~= old(out).deep_view() + failed_actions(self@, reason@));
    }

    /// Appends the messages when a transfer is prepared.
    fn say_prepared(&self, out: &mut Vec<Action>)
        ensures
            final(out).deep_view() == old(out).deep_view() + prepared_actions(self@),
    {
        say(out, ProgressMessage::PrepareComplete);
        say(out, ProgressMessage::TotalProgress(0, self.total(), 0, 0));
        assert(final(out).deep_view() =~= old(out).deep_view() + prepared_actions(self@));
    }

    /// Begins a leg.
    fn begin_leg(self, leg: Leg, temp_dir: String, out: &mut Vec<Action>) -> (session: Session)
        requires
            leg is Only <==> self.route is Direct,
            !self@.stays(),
        ensures
            session@.wf(),
            session@ == leg_begin(self@, leg, temp_dir@, Seq::empty()).0,
            final(out).deep_view() == leg_begin(
                self@,
                leg,
                temp_dir@,
                old(out).deep_view(),
            ).1,
    {
        proof {
            lemma_total_fits(self);
        }
        let config = self.leg_config(leg, &temp_dir);
        let run = transfer_rsync(config, self.platform, out);
        Session { job: self, stage: Stage::Leg { leg, temp_dir, run } }
    }

    /// Goes on after a step of rsync.
    fn turn_leg(
        self,
        leg: Leg,
        temp_dir: String,
        run: RsyncTransfer,
        out: &mut Vec<Action>,
    ) -> (session: Session)
        requires
            run@.wf(),
            run@.config == leg_config(self@, leg, temp_dir@),
            leg is Only <==> self.route is Direct,
            !self@.stays(),
        ensures
            session@.wf(),
            session@ == leg_turn(self@, leg, temp_dir@, run@, Seq::empty()).0,
            final(out).deep_view() == leg_turn(
                self@,
                leg,
                temp_dir@,
                run@,
                old(out).deep_view(),
            ).1,
    {
        let ghost before = out.deep_view();
        let ghost job = self@;
        let ghost was = run@;
        proof {
            lemma_total_fits(self);
        }
        if !run.returned() {
            return Session { job: self, stage: Stage::Leg { leg, temp_dir, run } };
        }
        let ghost there = temp_dir@;
        let session = match run.into_failure() {
            None => {
                if leg == Leg::Upload {
                    put(out, Action::RemoveTempDir);
                }
                put(out, Action::PollCancel);
                Session { job: self, stage: Stage::AfterLeg { leg, temp_dir } }
            },
            Some(reason) => {
                match leg {
                    Leg::Only => {
                        self.say_failed(reason, out);
                    },
                    Leg::Download => {
                        self.say_failed(concat("Download failed: ", reason.as_str()), out);
                        put(out, Action::RemoveTempDir);
                    },
                    Leg::Upload => {
                        put(out, Action::RemoveTempDir);
                        self.say_failed(concat("Upload failed: ", reason.as_str()), out);
                    },
                }
                Session { job: self, stage: Stage::Finished }
            },
        };
        assert(out.deep_view() == leg_turn(job, leg, there, was, before).1);
        session
    }

    /// Goes on after a step of the deletion.
    fn turn_deletion(self, run: SourceDeletion, out: &mut Vec<Action>) -> (session: Session)
        requires
            run@.wf(),
            run@.job == self@.deletion(),
            self.is_cut,
            !self@.stays(),
        ensures
            session@.wf(),
            session@ == deletion_turn(self@, run@, Seq::empty()).0,
            final(out).deep_view() == deletion_turn(self@, run@, old(out).deep_view()).1,
    {
        proof {
            lemma_total_fits(self);
        }
        if run.done() {
            say(out, ProgressMessage::Completed(self.total(), 0));
            Session { job: self, stage: Stage::Finished }
        } else {
            Session { job: self, stage: Stage::Deleting(run) }
        }
    }

    /// Ends a transfer whose files have all arrived.
    fn arrive(self, out: &mut Vec<Action>) -> (session: Session)
        requires
            !self@.stays(),
        ensures
            session@.wf(),
            session@ == arrived(self@).0,
            final(out).deep_view() == old(out).deep_view() + arrived(self@).1,
    {
        let ghost before = out.deep_view();
        let ghost job = self@;
        proof {
            lemma_total_fits(self);
        }
        if !self.is_cut {
            say(out, ProgressMessage::Completed(self.total(), 0));
            return Session { job: self, stage: Stage::Finished };
        }
        let run = match &self.route {
            Route::Direct { config, origin } => {
                let profile = match origin {
                    Some(profile) => Some(profile.clone()),
                    None => None,
                };
                delete_source_files_after_cut(
                    copy_texts(&config.source_files),
                    config.source_base.clone(),
                    profile,
                    out,
                )
            },
            Route::Relay { source_profile, source_files, source_base, .. } => {
                delete_source_files_after_cut(
                    copy_texts(source_files),
                    source_base.clone(),
                    Some(source_profile.clone()),
                    out,
                )
            },
        };
        let session = self.turn_deletion(run, out);
        assert(out.deep_view() == before + arrived(job).1);
        session
    }

    /// Goes on after a look at the cancellation behind a leg.
    fn follow_leg(
        self,
        leg: Leg,
        temp_dir: String,
        cancelled: bool,
        out: &mut Vec<Action>,
    ) -> (session: Session)
        requires
            leg is Only <==> self.route is Direct,
            !self@.stays(),
        ensures
            session@.wf(),
            session@ == after_leg(self@, leg, temp_dir@, cancelled).0,
            final(out).deep_view() == old(out).deep_view() + after_leg(
                self@,
                leg,
                temp_dir@,
                cancelled,
            ).1,
    {
        let ghost before = out.deep_view();
        let ghost job = self@;
        let ghost there = temp_dir@;
        proof {
            lemma_total_fits(self);
        }
        let session = match (leg, cancelled) {
            (Leg::Download, true) => {
                put(out, Action::RemoveTempDir);
                say(out, ProgressMessage::Completed(0, 0));
                Session { job: self, stage: Stage::Finished }
            },
            (Leg::Download, false) => {
                say(out, ProgressMessage::TotalProgress(0, self.total(), 0, 0));
                self.begin_leg(Leg::Upload, temp_dir, out)
            },
            (_, true) => {
                say(out, ProgressMessage::Completed(0, 0));
                Session { job: self, stage: Stage::Finished }
            },
            (_, false) => self.arrive(out),
        };
        assert(out.deep_view() == before + after_leg(job, leg, there, cancelled).1);
        session
    }

    /// Goes on after a step on one server.
    fn turn_same_server(self, run: SameServerTransfer, out: &mut Vec<Action>) -> (session: Session)
        requires
            run@.wf(),
            run@.job.files == self@.files(),
            self@.stays(),
        ensures
            session@.wf(),
            session@ == same_server_turn(self@, run@, Seq::empty()).0,
            final(out).deep_view() == same_server_turn(self@, run@, old(out).deep_view()).1,
    {
        proof {
            lemma_total_fits(self);
        }
        if !run.returned() {
            return Session { job: self, stage: Stage::SameServer(run) };
        }
        match run.into_failure() {
            None => {
                put(out, Action::PollCancel);
                Session { job: self, stage: Stage::AfterSameServer }
            },
            Some(reason) => {
                self.say_failed(reason, out);
                Session { job: self, stage: Stage::Finished }
            },
        }
    }
}

/// The first message of a transfer.
fn preparing_message(job: &Job) -> (message: ProgressMessage)
    ensures
        message@ == MessageView::Preparing(preparing_text(job@)),
{
    let mut text = "Transferring ".to_string();
    push_decimal(&mut text, job.total() as u128);
    match &job.route {
        Route::Direct { .. } => text.append(" file(s)..."),
        Route::Relay { .. } => text.append(" file(s) between remote servers..."),
    }
    ProgressMessage::Preparing(text)
}

/// Starts a transfer between this machine and a server, always by rsync. When `is_cut` is true, the
/// source files are deleted after a successful transfer; `source_profile` is the server that they
/// are then deleted on, if they are on one.
pub fn transfer_files_with_progress(
    config: TransferConfig,
    is_cut: bool,
    source_profile: Option<RemoteProfile>,
    platform: Platform,
) -> (started: (Session, Vec<Action>))
    ensures
        started.0@.wf(),
        ({
            let job = JobView {
                route: RouteView::Direct { config: config@, origin: source_profile.deep_view() },
                is_cut,
                platform,
            };
            (started.0@, started.1.deep_view()) == session_start(job)
        }),
{
    let job = Job { route: Route::Direct { config, origin: source_profile }, is_cut, platform };
    let mut out: Vec<Action> = Vec::new();
    say(&mut out, preparing_message(&job));
    put(&mut out, Action::ProbeRsync);
    assert(out.deep_view() == session_start(job@).1);
    proof {
        lemma_total_fits(job);
    }
    (Session { job, stage: Stage::Probing }, out)
}

/// Starts a transfer from one server to another: by a download into a temporary directory and an
/// upload from there, or by a move or a copy where the two are the same server. When `is_cut` is
/// true, the source files are deleted from the source server after a successful upload.
pub fn transfer_remote_to_remote_with_progress(
    source_profile: RemoteProfile,
    target_profile: RemoteProfile,
    source_files: Vec<String>,
    source_base: String,
    target_path: String,
    is_cut: bool,
    platform: Platform,
) -> (started: (Session, Vec<Action>))
    ensures
        started.0@.wf(),
        ({
            let job = JobView {
                route: RouteView::Relay {
                    source: source_profile@,
                    target: target_profile@,
                    files: source_files.deep_view(),
                    base: source_base@,
                    target_path: target_path@,
                },
                is_cut,
                platform,
            };
            (started.0@, started.1.deep_view()) == session_start(job)
        }),
{
    let same = is_same_server(&source_profile, &target_profile);
    let source = source_profile.clone();
    let files = copy_texts(&source_files);
    let base = source_base.clone();
    let target = target_path.clone();
    let job = Job {
        route: Route::Relay {
            source_profile,
            target_profile,
            source_files,
            source_base,
            target_path,
        },
        is_cut,
        platform,
    };
    let mut out: Vec<Action> = Vec::new();
    say(&mut out, preparing_message(&job));
    proof {
        lemma_total_fits(job);
    }
    if same {
        job.say_prepared(&mut out);
        let run = transfer_same_server(&source, files, base, target, is_cut, &mut out);
        assert(out.deep_view() == session_start(job@).1);
        (Session { job, stage: Stage::SameServer(run) }, out)
    } else {
        put(&mut out, Action::ProbeRsync);
        assert(out.deep_view() == session_start(job@).1);
        (Session { job, stage: Stage::Probing }, out)
    }
}

impl Session {
    /// Every transfer is well-formed.
    #[verifier::type_invariant]
    spec fn well_formed(self) -> bool {
        self@.wf()
    }

    /// Whether the transfer is over.
    pub fn is_finished(&self) -> (over: bool)
        ensures
            over == (self@.stage is Finished),
    {
        match &self.stage {
            Stage::Finished => true,
            _ => false,
        }
    }

    /// Tells whether an answer is one to what was asked last.
    pub fn expects(&self, answer: &Answer) -> (expected: bool)
        ensures
            expected == self@.expects(answer@),
    {
        match &self.stage {
            Stage::Probing => match answer {
                Answer::RsyncFound(_) => true,
                _ => false,
            },
            Stage::MakingTempDir => match answer {
                Answer::TempDir(_) => true,
                _ => false,
            },
            Stage::Leg { run, .. } => run.expects(answer),
            Stage::AfterLeg { .. } => match answer {
                Answer::Cancelled(_) => true,
                _ => false,
            },
            Stage::SameServer(run) => run.expects(answer),
            Stage::AfterSameServer => match answer {
                Answer::Cancelled(_) => true,
                _ => false,
            },
            Stage::Deleting(run) => run.expects(answer),
            Stage::Finished => false,
        }
    }

    /// Takes the answer to what was asked last, and says what is to be done next.
    pub fn advance(self, answer: Answer) -> (next: (Session, Vec<Action>))
        requires
            self@.expects(answer@),
        ensures
            next.0@.wf(),
            (next.0@, next.1.deep_view()) == session_next(self@, answer@),
    {
        proof {
            use_type_invariant(&self);
        }
        let ghost was = self@;
        let ghost given = answer@;
        let mut out: Vec<Action> = Vec::new();
        let Session { job, stage } = self;
        let session = match stage {
            Stage::Probing => match answer {
                Answer::RsyncFound(true) => match &job.route {
                    Route::Direct { .. } => {
                        job.say_prepared(&mut out);
                        job.begin_leg(Leg::Only, String::new(), &mut out)
                    },
                    Route::Relay { .. } => {
                        put(&mut out, Action::MakeTempDir);
                        Session { job, stage: Stage::MakingTempDir }
                    },
                },
                _ => {
                    let reason =
                        "rsync is not installed. Please install rsync to transfer files.".to_string();
                    job.say_failed(reason, &mut out);
                    Session { job, stage: Stage::Finished }
                },
            },
            Stage::MakingTempDir => match answer {
                Answer::TempDir(Ok(temp_dir)) => {
                    job.say_prepared(&mut out);
                    job.begin_leg(Leg::Download, temp_dir, &mut out)
                },
                Answer::TempDir(Err(TempDirFault::NotCreated(reason))) => {
                    job.say_failed(
                        concat("Failed to create temp dir: ", reason.as_str()),
                        &mut out,
                    );
                    Session { job, stage: Stage::Finished }
                },
                _ => {
                    job.say_failed("Failed to get home directory".to_string(), &mut out);
                    Session { job, stage: Stage::Finished }
                },
            },
            Stage::Leg { leg, temp_dir, run } => {
                let mut run = run;
                run.advance(answer, &mut out);
                job.turn_leg(leg, temp_dir, run, &mut out)
            },
            Stage::AfterLeg { leg, temp_dir } => {
                let cancelled = match answer {
                    Answer::Cancelled(flag) => flag,
                    _ => false,
                };
                job.follow_leg(leg, temp_dir, cancelled, &mut out)
            },
            Stage::SameServer(run) => {
                let mut run = run;
                run.advance(answer, &mut out);
                job.turn_same_server(run, &mut out)
            },
            Stage::AfterSameServer => {
                let message = match answer {
                    Answer::Cancelled(true) => ProgressMessage::Completed(0, 0),
                    _ => ProgressMessage::Completed(job.total(), 0),
                };
                say(&mut out, message);
                Session { job, stage: Stage::Finished }
            },
            Stage::Deleting(run) => {
                let mut run = run;
                run.advance(answer, &mut out);
                job.turn_deletion(run, &mut out)
            },
            Stage::Finished => Session { job, stage: Stage::Finished },
        };
        assert(out.deep_view() == session_next(was, given).1);
        (session, out)
    }

    /// Takes an answer, if it is one to what was asked last. Otherwise the transfer is handed back
    /// as it was.
    pub fn respond(self, answer: Answer) -> (next: Result<(Session, Vec<Action>), Session>)
        ensures
            match next {
                Ok((session, actions)) => {
                    &&& self@.expects(answer@)
                    &&& session@.wf()
                    &&& (session@, actions.deep_view()) == session_next(self@, answer@)
                },
                Err(session) => !self@.expects(answer@) && session == self,
            },
    {
        if self.expects(&answer) {
            Ok(self.advance(answer))
        } else {
            Err(self)
        }
    }
}

} // verus!
