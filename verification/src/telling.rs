//! What the messages of a transfer say, and when its steps are taken.

use crate::action::{ActionView, AnswerView, ExitView, OutputEvent};
use crate::delete::{delete_next, DeleteJob, DeleteStage, DeleteView};
use crate::grammar::{blank, law_decimals_are_read_back, law_trimming_gives_the_middle};
use crate::message::MessageView;
use crate::removal::{delete_after, delete_follows};
use crate::routes::lemma_step_asks;
use crate::rsync::{rsync_next, RsyncStage, RsyncView};
use crate::run::{
    group_select, lemma_run_wf, lemma_select_concat, select, session_after, session_follows,
};
use crate::same_server::{same_server_next, SameServerStage, SameServerView};
use crate::story::{law_the_end_is_told_once, told};
use crate::text::{decimal, is_white_space, signed_decimal, trim_end, trimmed};
use crate::transfer::{
    relay_dir_name, session_next, JobView, RouteView, SessionView, StageView,
};
use crate::verdict::is_failure;
use vstd::prelude::*;

verus! {

/// The first message of a transfer says how many files are transferred, and whether it is between
/// two servers.
pub proof fn law_first_message_counts_the_files(job: JobView, answers: Seq<AnswerView>)
    requires
        job.files().len() <= usize::MAX,
        session_follows(job, answers),
    ensures
        told(session_after(job, answers).1).len() > 0,
        told(session_after(job, answers).1)[0] == MessageView::Preparing(
            match job.route {
                RouteView::Direct { config, .. } => "Transferring "@ + decimal(config.files.len())
                    + " file(s)..."@,
                RouteView::Relay { files, .. } => "Transferring "@ + decimal(files.len())
                    + " file(s) between remote servers..."@,
            },
        ),
{
    law_the_end_is_told_once(job, answers);
}

/// The directory for the files on their way between two servers is named by the time in digits, so
/// two times give two names.
pub proof fn law_relay_directories_differ(nanos: u128, other: u128)
    ensures
        relay_dir_name(nanos) == "r2r_"@ + decimal(nanos as nat),
        nanos != other ==> relay_dir_name(nanos) != relay_dir_name(other),
{
    law_decimals_are_read_back(nanos as nat);
    law_decimals_are_read_back(other as nat);
    let size = "r2r_"@.len() as int;
    assert(relay_dir_name(nanos).skip(size) =~= decimal(nanos as nat));
    assert(relay_dir_name(other).skip(size) =~= decimal(other as nat));
}

/// Whether a message counts the files of a job right: at most as many as there are, of as many as
/// there are, and no bytes.
pub open spec fn counts_right(message: MessageView, total: nat) -> bool {
    message matches MessageView::TotalProgress(done, all, bytes, all_bytes) ==> {
        &&& done <= total
        &&& all == total
        &&& bytes == 0
        &&& all_bytes == 0
    }
}

/// Whether all messages that some actions send count the files of a job right.
pub open spec fn all_count_right(actions: Seq<ActionView>, total: nat) -> bool {
    forall|i: int|
        0 <= i < actions.len() ==> (#[trigger] actions[i] matches ActionView::Send(message)
            ==> counts_right(message, total))
}

proof fn lemma_rsync_counts_right(run: RsyncView, answer: AnswerView)
    requires
        run.wf(),
        run.expects(answer),
    ensures
        all_count_right(rsync_next(run, answer).1, run.config.files.len()),
{
}

proof fn lemma_same_server_counts_right(run: SameServerView, answer: AnswerView)
    requires
        run.wf(),
        run.expects(answer),
    ensures
        all_count_right(same_server_next(run, answer).1, run.job.files.len()),
{
}

proof fn lemma_deletion_counts_right(run: DeleteView, answer: AnswerView, total: nat)
    ensures
        all_count_right(delete_next(run, answer).1, total),
{
}

proof fn lemma_session_counts_right(s: SessionView, answer: AnswerView)
    requires
        s.wf(),
        s.expects(answer),
    ensures
        all_count_right(session_next(s, answer).1, s.job.files().len()),
{
    match s.stage {
        StageView::Leg { run, .. } => lemma_rsync_counts_right(run, answer),
        StageView::SameServer(run) => lemma_same_server_counts_right(run, answer),
        StageView::Deleting(run) => {
            lemma_deletion_counts_right(run, answer, s.job.files().len());
        },
        _ => {},
    }
}

/// Whenever a transfer tells how many files it has transferred, it tells at most as many as there
/// are, of as many as there are, and counts no bytes.
pub proof fn law_counts_are_within_the_files(
    job: JobView,
    files: Seq<Seq<char>>,
    answers: Seq<AnswerView>,
)
    requires
        match job.route {
            RouteView::Direct { config, .. } => config.files == files,
            RouteView::Relay { files: listed, .. } => listed == files,
        },
        files.len() <= usize::MAX,
        session_follows(job, answers),
    ensures
        all_count_right(session_after(job, answers).1, files.len()),
    decreases answers.len(),
{
    if answers.len() > 0 {
        let front = answers.drop_last();
        law_counts_are_within_the_files(job, files, front);
        lemma_run_wf(job, front);
        lemma_session_counts_right(session_after(job, front).0, answers.last());
    }
}

/// Finds the message that the preparation is done.
pub open spec fn prepared_told() -> spec_fn(ActionView) -> Option<()> {
    |a: ActionView|
        match a {
            ActionView::Send(MessageView::PrepareComplete) => Some(()),
            _ => None,
        }
}

/// How often some actions tell that the preparation is done.
pub open spec fn preparations(asked: Seq<ActionView>) -> nat {
    select(asked, prepared_told()).len()
}

proof fn lemma_rsync_prepares_nothing(run: RsyncView, answer: AnswerView)
    ensures
        preparations(rsync_next(run, answer).1) == 0,
{
    broadcast use group_select;

}

proof fn lemma_same_server_prepares_nothing(run: SameServerView, answer: AnswerView)
    ensures
        preparations(same_server_next(run, answer).1) == 0,
{
    broadcast use group_select;

}

proof fn lemma_deletion_prepares_nothing(run: DeleteView, answer: AnswerView)
    ensures
        preparations(delete_next(run, answer).1) == 0,
{
    broadcast use group_select;

}

/// Whether a transfer is still being prepared.
spec fn is_preparing(s: SessionView) -> bool {
    s.stage is Probing || s.stage is MakingTempDir
}

proof fn lemma_session_prepares(s: SessionView, answer: AnswerView)
    requires
        s.wf(),
        s.expects(answer),
    ensures
        ({
            let (next, actions) = session_next(s, answer);
            preparations(actions) == if is_preparing(s) && !is_preparing(next) && !(
            next.stage is Finished) {
                1nat
            } else {
                0nat
            }
        }),
        !is_preparing(s) ==> !is_preparing(session_next(s, answer).0),
        is_preparing(s) && session_next(s, answer).0.stage is Finished ==> {
            ||| answer == AnswerView::RsyncFound(false)
            ||| answer matches AnswerView::TempDir(Err(_))
        },
{
    broadcast use group_select;

    match s.stage {
        StageView::Leg { run, .. } => lemma_rsync_prepares_nothing(run, answer),
        StageView::SameServer(run) => lemma_same_server_prepares_nothing(run, answer),
        StageView::Deleting(run) => lemma_deletion_prepares_nothing(run, answer),
        _ => {},
    }
}

/// A transfer tells at most once that it is prepared. It has told so before it starts its first
/// program or connects to a server for the first time; and one that is over has told so, unless
/// rsync was not found or there was no temporary directory.
pub proof fn law_preparation_is_told_once(job: JobView, answers: Seq<AnswerView>)
    requires
        job.files().len() <= usize::MAX,
        session_follows(job, answers),
    ensures
        preparations(session_after(job, answers).1) <= 1,
        ({
            let (s, asked) = session_after(job, answers);
            &&& asked.last() is Spawn || asked.last() is ConnectSsh ==> preparations(asked) == 1
            &&& s.stage is Finished && preparations(asked) == 0 ==> {
                ||| answers.last() == AnswerView::RsyncFound(false)
                ||| answers.last() matches AnswerView::TempDir(Err(_))
            }
        }),
{
    lemma_preparations(job, answers);
    let (s, asked) = session_after(job, answers);
    if answers.len() > 0 {
        let front = answers.drop_last();
        lemma_run_wf(job, front);
        let before = session_after(job, front).0;
        lemma_step_asks(before, answers.last());
        let actions = session_next(before, answers.last()).1;
        assert(asked.last() == actions.last());
        lemma_work_follows_preparation(before, answers.last());
    }
}

proof fn lemma_work_follows_preparation(s: SessionView, answer: AnswerView)
    requires
        s.wf(),
        s.expects(answer),
    ensures
        ({
            let (next, actions) = session_next(s, answer);
            actions.len() > 0 && (actions.last() is Spawn || actions.last() is ConnectSsh)
                ==> !is_preparing(next) && !(next.stage is Finished)
        }),
{
    match s.stage {
        StageView::Leg { run, .. } => {
            let (next, some) = rsync_next(run, answer);
        },
        _ => {},
    }
}

proof fn lemma_preparations(job: JobView, answers: Seq<AnswerView>)
    requires
        job.files().len() <= usize::MAX,
        session_follows(job, answers),
    ensures
        ({
            let (s, asked) = session_after(job, answers);
            &&& preparations(asked) <= 1
            &&& is_preparing(s) ==> preparations(asked) == 0
            &&& !is_preparing(s) && !(s.stage is Finished) ==> preparations(asked) == 1
            &&& s.stage is Finished && preparations(asked) == 0 ==> answers.len() > 0 && {
                ||| answers.last() == AnswerView::RsyncFound(false)
                ||| answers.last() matches AnswerView::TempDir(Err(_))
            }
        }),
    decreases answers.len(),
{
    if answers.len() > 0 {
        let front = answers.drop_last();
        lemma_preparations(job, front);
        lemma_run_wf(job, front);
        let (s, asked) = session_after(job, front);
        let actions = session_next(s, answers.last()).1;
        lemma_session_prepares(s, answers.last());
        lemma_select_concat(asked, actions, prepared_told());
    } else {
        broadcast use group_select;

    }
}

/// Finds the errors that are told.
pub open spec fn error_told() -> spec_fn(ActionView) -> Option<(Seq<char>, Seq<char>)> {
    |a: ActionView|
        match a {
            ActionView::Send(MessageView::Error(file, reason)) => Some((file, reason)),
            _ => None,
        }
}

/// The errors that some actions tell, in order, each with its file.
pub open spec fn errors(asked: Seq<ActionView>) -> Seq<(Seq<char>, Seq<char>)> {
    select(asked, error_told())
}

/// Whether a reason is that of a program that failed: all that it wrote as its errors, if there is
/// more than white space in it; otherwise its exit code, which is taken as -1 where a signal ended
/// it.
pub open spec fn explains(reason: Seq<char>, report: ExitView) -> bool {
    if blank(report.stderr) {
        reason == "rsync exited with code "@ + signed_decimal(
            match report.code {
                Some(code) => code as int,
                None => -1,
            },
        )
    } else {
        reason == report.stderr
    }
}

proof fn lemma_blank_is_trimmed_away(s: Seq<char>)
    ensures
        blank(s) <==> trimmed(s).len() == 0,
{
    let none = Seq::<char>::empty();
    if blank(s) {
        law_trimming_gives_the_middle(s, none, none);
        assert(s + none + none =~= s);
    } else {
        let first = choose|i: int| 0 <= i < s.len() && !is_white_space(#[trigger] s[i]);
        lemma_ends(s, first);
    }
}

/// A text with something else than white space in it has a middle.
proof fn lemma_ends(s: Seq<char>, at: int)
    requires
        0 <= at < s.len(),
        !is_white_space(s[at]),
    ensures
        trimmed(s).len() > 0,
    decreases s.len(),
{
    if is_white_space(s[0]) {
        let rest = s.skip(1);
        assert(rest[at - 1] == s[at]);
        lemma_ends(rest, at - 1);
    } else {
        lemma_end(s, at);
    }
}

proof fn lemma_end(s: Seq<char>, at: int)
    requires
        0 <= at < s.len(),
        !is_white_space(s[at]),
    ensures
        trim_end(s).len() > 0,
    decreases s.len(),
{
    if is_white_space(s.last()) {
        let rest = s.drop_last();
        assert(at < rest.len()) by {
            assert(s[s.len() - 1] == s.last());
        }
        assert(rest[at] == s[at]);
        lemma_end(rest, at);
    }
}

/// A transfer by rsync tells an error on a file exactly when the program for it has failed and the
/// transfer has not been cancelled: on the file that is being transferred, with the reason of that
/// program. It then ends, for the same reason.
pub proof fn law_failed_programs_are_told(run: RsyncView, answer: AnswerView, report: ExitView)
    requires
        run.wf(),
        run.expects(answer),
    ensures
        ({
            let (next, actions) = rsync_next(run, answer);
            let failed = run.stage is AfterExit && !run.stage->AfterExit_0.success && answer
                == AnswerView::Cancelled(false);
            &&& answer == AnswerView::ChildExited(Ok(report)) ==> next.stage
                == RsyncStage::AfterExit(report)
            &&& next.stage is AfterExit ==> answer == AnswerView::ChildExited(
                Ok(next.stage->AfterExit_0),
            )
            &&& !failed ==> errors(actions).len() == 0
            &&& failed ==> errors(actions).len() == 1 && {
                let (file, reason) = errors(actions)[0];
                &&& file == run.config.files[run.completed as int]
                &&& explains(reason, run.stage->AfterExit_0)
                &&& next.stage == RsyncStage::Returned(Some(reason))
            }
        }),
{
    broadcast use group_select;

    if let RsyncStage::AfterExit(exit) = run.stage {
        lemma_blank_is_trimmed_away(exit.stderr);
    }
}

/// A transfer on one server tells an error on a file exactly when the command for it has run and
/// failed: on the file that is being transferred, with what was to be done, the file, and the error
/// output without the white space around it. It then ends, for the same reason.
pub proof fn law_failed_commands_are_told(run: SameServerView, answer: AnswerView)
    requires
        run.wf(),
        run.expects(answer),
    ensures
        ({
            let (next, actions) = same_server_next(run, answer);
            match answer {
                AnswerView::RemoteDone(Ok((success, stderr))) => if success {
                    errors(actions).len() == 0
                } else {
                    let file = run.job.files[run.completed as int];
                    let reason = (if run.job.is_cut {
                        "Failed to "@ + "move"@ + " '"@
                    } else {
                        "Failed to "@ + "copy"@ + " '"@
                    }) + file + "': "@ + trimmed(stderr);
                    &&& errors(actions) == seq![(file, reason)]
                    &&& next.stage == SameServerStage::Returned(Some(reason))
                },
                _ => errors(actions).len() == 0,
            }
        }),
{
    broadcast use group_select;

}

/// What the deletion on a server tells by its answers: why there was no connection, why the command
/// could not be run, or what it complained of, without the white space around it; and nothing where
/// the transfer was found cancelled behind a failure.
pub open spec fn deletion_complaint(answers: Seq<AnswerView>) -> Seq<(Seq<char>, Seq<char>)> {
    let none = Seq::<char>::empty();
    let polled = answers.len() > 0 && answers.last() == AnswerView::Cancelled(false);
    if answers.len() == 3 && polled && (answers[1] matches AnswerView::Connected(Err(_))) {
        seq![
            (
                none,
                "Failed to connect for source deletion: "@ + answers[1]->Connected_0->Err_0,
            ),
        ]
    } else if answers.len() == 4 && polled {
        seq![
            (
                none,
                "Failed to run SSH for source deletion: "@ + answers[2]->RemoteDone_0->Err_0,
            ),
        ]
    } else if answers.len() == 3 && (answers[2] matches AnswerView::RemoteDone(Ok((false, _)))) {
        seq![
            (
                none,
                "Failed to delete remote source: "@ + trimmed(answers[2]->RemoteDone_0->Ok_0.1),
            ),
        ]
    } else {
        Seq::empty()
    }
}

/// What the stage of a deletion on a server tells of its answers.
spec fn deletion_stage_fits(d: DeleteView, answers: Seq<AnswerView>) -> bool {
    let first = AnswerView::Cancelled(false);
    match d.stage {
        DeleteStage::BeforeConnect => answers.len() == 0,
        DeleteStage::Connecting => answers.len() == 1 && answers[0] == first,
        DeleteStage::AfterNoConnect(reason) => answers.len() == 2 && answers[0] == first
            && answers[1] == AnswerView::Connected(Err(reason)),
        DeleteStage::Running => answers.len() == 2 && answers[0] == first && (answers[1]
            matches AnswerView::Connected(Ok(_))),
        DeleteStage::AfterLoss(reason) => answers.len() == 3 && (answers[1]
            matches AnswerView::Connected(Ok(_))) && answers[2] == AnswerView::RemoteDone(
            Err(reason),
        ),
        DeleteStage::Done => true,
        _ => false,
    }
}

/// A deletion on a server tells exactly what went wrong. It is looked at for a cancellation first,
/// and again behind each failure to reach the server; a command that was run and failed is told in
/// any case.
pub proof fn law_remote_deletion_tells_what_went_wrong(
    job: DeleteJob,
    answers: Seq<AnswerView>,
)
    requires
        job.profile is Some,
        job.files.len() > 0,
        job.files.len() <= usize::MAX,
        delete_follows(job, answers),
    ensures
        errors(delete_after(job, answers).1) == deletion_complaint(answers),
        delete_after(job, answers).0.stage is Done ==> answers.last() is Cancelled || (
        answers.last() matches AnswerView::RemoteDone(Ok(_))),
{
    lemma_remote_deletion(job, answers);
}

proof fn lemma_remote_deletion(job: DeleteJob, answers: Seq<AnswerView>)
    requires
        job.profile is Some,
        job.files.len() > 0,
        job.files.len() <= usize::MAX,
        delete_follows(job, answers),
    ensures
        ({
            let (d, asked) = delete_after(job, answers);
            &&& d.job == job
            &&& d.wf()
            &&& deletion_stage_fits(d, answers)
            &&& errors(asked) == deletion_complaint(answers)
            &&& !(d.stage is Done) ==> errors(asked).len() == 0
            &&& d.stage is Done ==> answers.len() > 0 && (answers.last() is Cancelled || (
            answers.last() matches AnswerView::RemoteDone(Ok(_))))
        }),
    decreases answers.len(),
{
    broadcast use group_select;

    if answers.len() > 0 {
        let front = answers.drop_last();
        lemma_remote_deletion(job, front);
        let (d, asked) = delete_after(job, front);
        let actions = delete_next(d, answers.last()).1;
        lemma_select_concat(asked, actions, error_told());
        assert(errors(asked) + errors(actions) =~= errors(actions));
        assert(front.len() > 0 ==> front[0] == answers[0]);
        assert(front.len() > 1 ==> front[1] == answers[1]);
        assert(front.len() > 2 ==> front[2] == answers[2]);
        assert(answers[answers.len() - 1] == answers.last());
        assert(errors(actions) =~= deletion_complaint(answers));
    } else {
        assert(errors(delete_after(job, answers).1) =~= deletion_complaint(answers));
    }
}

/// Whether an action is a step that needs a look at the cancellation just before it: the start of a
/// program, a read of its output, and the report that a file is started.
pub open spec fn needs_a_look(a: ActionView) -> bool {
    ||| a is Spawn
    ||| a is ReadOutput
    ||| a matches ActionView::Send(MessageView::FileStarted(_))
}

/// Whether none of some actions needs a look at the cancellation just before it.
pub open spec fn none_needs_a_look(actions: Seq<ActionView>) -> bool {
    forall|i: int| 0 <= i < actions.len() ==> !needs_a_look(#[trigger] actions[i])
}

proof fn lemma_rsync_looks(run: RsyncView, answer: AnswerView)
    requires
        run.wf(),
        run.expects(answer),
    ensures
        ({
            let actions = rsync_next(run, answer).1;
            &&& answer != AnswerView::Cancelled(false) ==> none_needs_a_look(actions) && forall|
                i: int,
            |
                0 <= i < actions.len() ==> !(#[trigger] actions[i] matches ActionView::Send(
                    MessageView::FileCompleted(_),
                ))
            &&& answer is ChildExited || (answer matches AnswerView::Output(OutputEvent::Byte(_)))
                || answer == AnswerView::Spawned(Ok(true)) ==> actions.len() > 0
                && actions.last() is PollCancel && !(rsync_next(run, answer).0.stage is Returned)
            &&& answer == AnswerView::Output(OutputEvent::End) || answer == AnswerView::Spawned(
                Ok(false),
            ) ==> actions.len() > 0 && actions.last() is AwaitChild && !(rsync_next(
                run,
                answer,
            ).0.stage is Returned)
        }),
{
}

proof fn lemma_same_server_looks(run: SameServerView, answer: AnswerView)
    requires
        run.wf(),
        run.expects(answer),
        answer != AnswerView::Cancelled(false),
    ensures
        none_needs_a_look(same_server_next(run, answer).1),
        forall|i: int|
            0 <= i < same_server_next(run, answer).1.len() ==> !(#[trigger] same_server_next(
                run,
                answer,
            ).1[i] is RunRemote),
{
}

proof fn lemma_deletion_looks(run: DeleteView, answer: AnswerView)
    ensures
        none_needs_a_look(delete_next(run, answer).1),
{
}

/// A transfer looks at the cancellation all the way. It starts a program, reads a byte of its output
/// and reports a file as started only straight after a look that found none; while rsync runs it
/// looks again after every byte, and after the end of the program, before it reports the file as
/// transferred. The end of the output is followed by the wait for the program.
pub proof fn law_cancellation_is_looked_at_all_the_way(s: SessionView, answer: AnswerView)
    requires
        s.wf(),
        s.expects(answer),
    ensures
        ({
            let actions = session_next(s, answer).1;
            &&& answer != AnswerView::Cancelled(false) ==> none_needs_a_look(actions)
            &&& answer != AnswerView::Cancelled(false) && s.stage is Leg ==> forall|i: int|
                0 <= i < actions.len() ==> !(#[trigger] actions[i] matches ActionView::Send(
                    MessageView::FileCompleted(_),
                ))
            &&& answer is ChildExited || (answer matches AnswerView::Output(OutputEvent::Byte(_)))
                || answer == AnswerView::Spawned(Ok(true)) ==> actions.len() > 0
                && actions.last() is PollCancel
            &&& answer == AnswerView::Output(OutputEvent::End) || answer == AnswerView::Spawned(
                Ok(false),
            ) ==> actions.len() > 0 && actions.last() is AwaitChild
        }),
{
    match s.stage {
        StageView::Leg { run, .. } => lemma_rsync_looks(run, answer),
        StageView::SameServer(run) => {
            if answer != AnswerView::Cancelled(false) {
                lemma_same_server_looks(run, answer);
            }
        },
        StageView::Deleting(run) => lemma_deletion_looks(run, answer),
        _ => {},
    }
}

/// Whether an answer says that something went wrong.
pub open spec fn went_wrong(answer: AnswerView) -> bool {
    is_failure(answer) || (answer matches AnswerView::LocalDeleted(Err(_)))
}

/// Whether nothing has gone wrong so far, by the stage of a transfer.
spec fn is_clean(s: SessionView) -> bool {
    match s.stage {
        StageView::Leg { run, .. } => match run.stage {
            RsyncStage::AfterLoss(_) => false,
            RsyncStage::AfterExit(report) => report.success,
            _ => true,
        },
        StageView::SameServer(run) => !(run.stage is AfterLoss),
        StageView::Deleting(run) => !(run.stage is AfterNoConnect) && !(run.stage is AfterLoss),
        _ => true,
    }
}

proof fn lemma_rsync_stays_clean(run: RsyncView, answer: AnswerView)
    requires
        run.wf(),
        run.expects(answer),
        !went_wrong(answer),
        !(run.stage is AfterLoss),
        run.stage is AfterExit ==> run.stage->AfterExit_0.success,
    ensures
        ({
            let (next, actions) = rsync_next(run, answer);
            &&& errors(actions).len() == 0
            &&& !(next.stage is AfterLoss)
            &&& next.stage is AfterExit ==> next.stage->AfterExit_0.success
            &&& next.stage is Returned ==> next.stage == RsyncStage::Returned(None)
        }),
{
    broadcast use group_select;

}

proof fn lemma_same_server_stays_clean(run: SameServerView, answer: AnswerView)
    requires
        run.wf(),
        run.expects(answer),
        !went_wrong(answer),
        !(run.stage is AfterLoss),
    ensures
        ({
            let (next, actions) = same_server_next(run, answer);
            &&& errors(actions).len() == 0
            &&& !(next.stage is AfterLoss)
            &&& next.stage is Returned ==> next.stage == SameServerStage::Returned(None)
        }),
{
    broadcast use group_select;

}

proof fn lemma_deletion_stays_clean(run: DeleteView, answer: AnswerView)
    requires
        run.wf(),
        run.expects(answer),
        !went_wrong(answer),
        !(run.stage is AfterNoConnect),
        !(run.stage is AfterLoss),
    ensures
        ({
            let (next, actions) = delete_next(run, answer);
            &&& errors(actions).len() == 0
            &&& !(next.stage is AfterNoConnect)
            &&& !(next.stage is AfterLoss)
        }),
{
    broadcast use group_select;

}

proof fn lemma_session_stays_clean(s: SessionView, answer: AnswerView)
    requires
        s.wf(),
        s.expects(answer),
        is_clean(s),
        !went_wrong(answer),
    ensures
        is_clean(session_next(s, answer).0),
        errors(session_next(s, answer).1).len() == 0,
{
    broadcast use group_select;

    match s.stage {
        StageView::Leg { run, .. } => lemma_rsync_stays_clean(run, answer),
        StageView::SameServer(run) => lemma_same_server_stays_clean(run, answer),
        StageView::Deleting(run) => lemma_deletion_stays_clean(run, answer),
        _ => {},
    }
}

/// A transfer in which nothing goes wrong tells no error.
pub proof fn law_no_error_without_a_failure(job: JobView, answers: Seq<AnswerView>)
    requires
        job.files().len() <= usize::MAX,
        session_follows(job, answers),
        forall|i: int| 0 <= i < answers.len() ==> !went_wrong(#[trigger] answers[i]),
    ensures
        errors(session_after(job, answers).1).len() == 0,
{
    lemma_clean(job, answers);
}

proof fn lemma_clean(job: JobView, answers: Seq<AnswerView>)
    requires
        job.files().len() <= usize::MAX,
        session_follows(job, answers),
        forall|i: int| 0 <= i < answers.len() ==> !went_wrong(#[trigger] answers[i]),
    ensures
        is_clean(session_after(job, answers).0),
        errors(session_after(job, answers).1).len() == 0,
    decreases answers.len(),
{
    if answers.len() > 0 {
        let front = answers.drop_last();
        assert forall|i: int| 0 <= i < front.len() implies !went_wrong(#[trigger] front[i]) by {
            assert(front[i] == answers[i]);
        }
        assert(answers[answers.len() - 1] == answers.last());
        lemma_clean(job, front);
        lemma_run_wf(job, front);
        let (s, asked) = session_after(job, front);
        lemma_session_stays_clean(s, answers.last());
        lemma_select_concat(asked, session_next(s, answers.last()).1, error_told());
    } else {
        broadcast use group_select;

    }
}

/// Whether an answer leaves more output of a program to be read.
pub open spec fn leaves_output(answer: AnswerView) -> bool {
    answer == AnswerView::Spawned(Ok(true)) || (answer matches AnswerView::Output(
        OutputEvent::Byte(_),
    ))
}

/// Whether an answer leaves no output of a program to be read.
pub open spec fn ends_output(answer: AnswerView) -> bool {
    answer == AnswerView::Spawned(Ok(false)) || answer == AnswerView::Output(OutputEvent::End)
}

proof fn lemma_rsync_reads_on(run: RsyncView, answer: AnswerView)
    requires
        run.wf(),
        run.expects(answer),
    ensures
        ({
            let (next, actions) = rsync_next(run, answer);
            let (after, more) = rsync_next(next, AnswerView::Cancelled(false));
            &&& leaves_output(answer) ==> {
                &&& !(next.stage is Returned)
                &&& next.expects(AnswerView::Cancelled(false))
                &&& more == seq![ActionView::ReadOutput]
                &&& !(after.stage is Returned)
            }
            &&& forall|i: int|
                0 <= i < actions.len() && #[trigger] actions[i] is AwaitChild ==> ends_output(
                    answer,
                )
        }),
{
}

/// The output of a program is read byte by byte to its end: where more is left, a look that finds no
/// cancellation is followed by the next read, and the program is waited for only when its output has
/// ended or cannot be read.
pub proof fn law_output_is_read_to_its_end(s: SessionView, answer: AnswerView)
    requires
        s.wf(),
        s.expects(answer),
    ensures
        ({
            let (next, actions) = session_next(s, answer);
            &&& leaves_output(answer) ==> {
                &&& next.expects(AnswerView::Cancelled(false))
                &&& session_next(next, AnswerView::Cancelled(false)).1 == seq![
                    ActionView::ReadOutput,
                ]
            }
            &&& forall|i: int|
                0 <= i < actions.len() && #[trigger] actions[i] is AwaitChild ==> ends_output(
                    answer,
                )
        }),
{
    match s.stage {
        StageView::Leg { run, .. } => lemma_rsync_reads_on(run, answer),
        StageView::SameServer(run) => lemma_same_server_awaits_nothing(run, answer),
        StageView::Deleting(run) => lemma_deletion_awaits_nothing(run, answer),
        _ => {},
    }
}

proof fn lemma_same_server_awaits_nothing(run: SameServerView, answer: AnswerView)
    ensures
        forall|i: int|
            0 <= i < same_server_next(run, answer).1.len() ==> !(#[trigger] same_server_next(
                run,
                answer,
            ).1[i] is AwaitChild),
{
}

proof fn lemma_deletion_awaits_nothing(run: DeleteView, answer: AnswerView)
    ensures
        forall|i: int|
            0 <= i < delete_next(run, answer).1.len() ==> !(#[trigger] delete_next(
                run,
                answer,
            ).1[i] is AwaitChild),
{
}

} // verus!
