//! The order in which files are transferred, and the commands that transfer them.

use crate::action::{ActionView, AnswerView};
use crate::command::{path_below, rsync_command, same_server_command, CommandView, ConfigView};
use crate::message::MessageView;
use crate::profile::{ssh_option, Platform, ProfileView};
use crate::rsync::{rsync_next, rsync_start, RsyncStage, RsyncView};
use crate::run::{
    group_select, lemma_run_wf, lemma_select_concat, select, session_after, session_follows,
};
use crate::same_server::{same_server_next, SameServerJob, SameServerView};
use crate::story::{
    arrivals, cancellation_seen, file_arrived, file_removed, file_started, removals, starts,
    Removal,
};
use crate::transfer::{
    same_server_turn, session_next, session_start, JobView, SessionView, StageView,
};
use vstd::prelude::*;

verus! {

/// A transfer by rsync after a sequence of answers, and all that it has asked for by then.
pub open spec fn rsync_after(
    config: ConfigView,
    platform: Platform,
    answers: Seq<AnswerView>,
) -> (RsyncView, Seq<ActionView>)
    decreases answers.len(),
{
    if answers.len() == 0 {
        rsync_start(config, platform)
    } else {
        let (before, asked) = rsync_after(config, platform, answers.drop_last());
        let (after, actions) = rsync_next(before, answers.last());
        (after, asked + actions)
    }
}

/// Whether each of a sequence of answers is one to what the transfer asked last.
pub open spec fn rsync_follows(
    config: ConfigView,
    platform: Platform,
    answers: Seq<AnswerView>,
) -> bool
    decreases answers.len(),
{
    answers.len() > 0 ==> {
        &&& rsync_follows(config, platform, answers.drop_last())
        &&& rsync_after(config, platform, answers.drop_last()).0.expects(answers.last())
    }
}

/// Finds the programs that are started.
pub open spec fn program_started() -> spec_fn(ActionView) -> Option<CommandView> {
    |a: ActionView|
        match a {
            ActionView::Spawn(command) => Some(command),
            _ => None,
        }
}

/// The programs that some actions start, in order.
pub open spec fn programs(asked: Seq<ActionView>) -> Seq<CommandView> {
    select(asked, program_started())
}

/// Finds the numbers of transferred files that are reported.
pub open spec fn count_told() -> spec_fn(ActionView) -> Option<(usize, usize)> {
    |a: ActionView|
        match a {
            ActionView::Send(MessageView::TotalProgress(done, total, _, _)) => Some((done, total)),
            _ => None,
        }
}

/// The numbers of transferred files, each with the number of all files, that some actions report.
pub open spec fn counts(asked: Seq<ActionView>) -> Seq<(usize, usize)> {
    select(asked, count_told())
}

/// Finds the servers that are connected to.
pub open spec fn server_connected() -> spec_fn(ActionView) -> Option<ProfileView> {
    |a: ActionView|
        match a {
            ActionView::ConnectSsh(profile) => Some(profile),
            _ => None,
        }
}

/// The servers that some actions connect to, in order.
pub open spec fn connections(asked: Seq<ActionView>) -> Seq<ProfileView> {
    select(asked, server_connected())
}

/// The rsync commands for the first files of a transfer.
pub open spec fn rsync_commands(t: RsyncView, count: nat) -> Seq<CommandView> {
    Seq::new(
        count,
        |i: int| rsync_command(t.config, t.ssh_option, t.login, t.config.files[i]),
    )
}

/// The reports on the first files of a transfer.
pub open spec fn count_reports(count: nat, total: nat) -> Seq<(usize, usize)> {
    Seq::new(count, |i: int| ((i + 1) as usize, total as usize))
}

/// The number of files whose transfer has been started.
spec fn started_by(t: RsyncView) -> nat {
    match t.stage {
        RsyncStage::KeyPath | RsyncStage::Sshpass | RsyncStage::Askpass => t.completed,
        RsyncStage::BeforeFile => t.completed,
        _ => t.completed + 1,
    }
}

/// What a transfer by rsync has told and started, as far as it has come.
pub open spec fn in_order(t: RsyncView, asked: Seq<ActionView>) -> bool {
    let files = t.config.files;
    let begun = starts(asked).len();
    &&& t.completed <= begun <= t.completed + 1
    &&& begun <= files.len()
    &&& starts(asked) == files.take(begun as int)
    &&& programs(asked) == rsync_commands(t, begun)
    &&& arrivals(asked) == files.take(t.completed as int)
    &&& counts(asked) == count_reports(t.completed, files.len())
}

proof fn lemma_rsync_step(t: RsyncView, answer: AnswerView)
    requires
        t.wf(),
        t.expects(answer),
    ensures
        ({
            let (next, actions) = rsync_next(t, answer);
            let files = t.config.files;
            &&& next.wf()
            &&& next.config == t.config
            &&& t.completed <= next.completed
            &&& starts(actions) == if t.stage is BeforeFile && next.stage is Spawning {
                seq![t.file()]
            } else {
                Seq::empty()
            }
            &&& programs(actions) == if t.stage is BeforeFile && next.stage is Spawning {
                seq![rsync_command(t.config, t.ssh_option, t.login, t.file())]
            } else {
                Seq::empty()
            }
            &&& arrivals(actions) == files.subrange(t.completed as int, next.completed as int)
            &&& counts(actions) == if t.completed < next.completed {
                seq![(next.completed as usize, files.len() as usize)]
            } else {
                Seq::empty()
            }
            &&& next.completed <= t.completed + 1
            &&& t.stage is KeyPath || t.stage is Sshpass || t.stage is Askpass || (t.ssh_option
                == next.ssh_option && t.login == next.login)
            &&& t.stage is KeyPath || t.stage is Sshpass || t.stage is Askpass ==> next.completed
                == t.completed && !(next.stage is Spawning)
            &&& !(next.stage is Returned) ==> started_by(next) == started_by(t) + starts(
                actions,
            ).len()
            &&& next.stage is Returned ==> next.completed <= started_by(t) <= next.completed + 1
                && starts(actions).len() == 0
            &&& next.stage == RsyncStage::Returned(None) ==> next.completed == files.len()
                || answer == AnswerView::Cancelled(true)
        }),
{
    broadcast use group_select;

}

/// Whether a transfer is still being prepared.
spec fn in_preparation(t: RsyncView) -> bool {
    t.stage is KeyPath || t.stage is Sshpass || t.stage is Askpass
}

/// All that holds of a transfer by rsync as far as it has come.
spec fn rsync_order_fits(t: RsyncView, asked: Seq<ActionView>) -> bool {
    &&& t.wf()
    &&& in_order(t, asked)
    &&& in_preparation(t) ==> t.completed == 0
    &&& !(t.stage is Returned) ==> starts(asked).len() == started_by(t)
}

proof fn lemma_rsync_order(t: RsyncView, asked: Seq<ActionView>, answer: AnswerView)
    requires
        t.expects(answer),
        rsync_order_fits(t, asked),
    ensures
        rsync_order_fits(rsync_next(t, answer).0, asked + rsync_next(t, answer).1),
{
    lemma_rsync_step(t, answer);
    let (next, actions) = rsync_next(t, answer);
    let files = t.config.files;
    lemma_select_concat(asked, actions, file_started());
    lemma_select_concat(asked, actions, file_arrived());
    lemma_select_concat(asked, actions, program_started());
    lemma_select_concat(asked, actions, count_told());
    let all = asked + actions;
    let begun = starts(all).len();
    assert(starts(all) =~= files.take(begun as int));
    assert(programs(all) =~= rsync_commands(next, begun));
    assert(arrivals(all) =~= files.take(next.completed as int));
    assert(counts(all) =~= count_reports(next.completed, files.len()));
}

/// rsync takes the files one by one and in the order in which they are given. Each of them is
/// reported as started, and its command run, only after the one before it has been reported as
/// transferred; after each the number of transferred files is reported. A transfer that ends
/// without a failure and without a cancellation has transferred all files.
pub proof fn law_rsync_takes_the_files_in_order(
    config: ConfigView,
    platform: Platform,
    answers: Seq<AnswerView>,
)
    requires
        config.files.len() <= usize::MAX,
        rsync_follows(config, platform, answers),
    ensures
        ({
            let (t, asked) = rsync_after(config, platform, answers);
            &&& t.config == config
            &&& in_order(t, asked)
            &&& t.stage == RsyncStage::Returned(None) && !cancellation_seen(answers)
                ==> arrivals(asked) == config.files
        }),
    decreases answers.len(),
{
    lemma_rsync_run(config, platform, answers);
    let (t, asked) = rsync_after(config, platform, answers);
    assert(config.files.take(config.files.len() as int) == config.files);
}

proof fn lemma_rsync_run(config: ConfigView, platform: Platform, answers: Seq<AnswerView>)
    requires
        config.files.len() <= usize::MAX,
        rsync_follows(config, platform, answers),
    ensures
        ({
            let (t, asked) = rsync_after(config, platform, answers);
            &&& t.config == config
            &&& rsync_order_fits(t, asked)
            &&& t.stage == RsyncStage::Returned(None) && !cancellation_seen(answers)
                ==> t.completed == config.files.len()
        }),
    decreases answers.len(),
{
    if answers.len() > 0 {
        let front = answers.drop_last();
        lemma_rsync_run(config, platform, front);
        let (t, asked) = rsync_after(config, platform, front);
        lemma_rsync_step(t, answers.last());
        lemma_rsync_order(t, asked, answers.last());
        if answers.last() == AnswerView::Cancelled(true) {
            assert(answers[answers.len() - 1] == AnswerView::Cancelled(true));
        }
    } else {
        broadcast use group_select;

        let (t, asked) = rsync_start(config, platform);
        assert(starts(asked) =~= config.files.take(0));
        assert(programs(asked) =~= rsync_commands(t, 0));
        assert(arrivals(asked) =~= config.files.take(0));
        assert(counts(asked) =~= count_reports(0, config.files.len()));
    }
}

/// How rsync logs in to its server, after the answers to what it asked first: with the key file
/// whose path was told, or with the password, through sshpass where that was found and through a
/// script where it was not.
pub open spec fn login_fits(t: RsyncView, answers: Seq<AnswerView>) -> bool {
    let profile = t.config.profile;
    &&& answers.len() > 0
    &&& match answers[0] {
        AnswerView::KeyPath(path) => {
            &&& profile.auth is KeyFile
            &&& t.login is Key
            &&& t.ssh_option == ssh_option(profile, path, t.platform)
        },
        AnswerView::SshpassFound(found) => {
            &&& profile.auth is Password
            &&& t.ssh_option == ssh_option(profile, Seq::empty(), t.platform)
            &&& if found {
                t.login is Sshpass
            } else {
                t.login is Askpass && answers.len() > 1 && (answers[1]
                    matches AnswerView::AskpassCreated(Ok(_)))
            }
        },
        _ => false,
    }
}

/// How far the login has come at each stage.
spec fn login_stage_fits(t: RsyncView, answers: Seq<AnswerView>) -> bool {
    let profile = t.config.profile;
    match t.stage {
        RsyncStage::KeyPath => answers.len() == 0 && profile.auth is KeyFile && t.login is Key,
        RsyncStage::Sshpass => answers.len() == 0 && profile.auth is Password && t.ssh_option
            == ssh_option(profile, Seq::empty(), t.platform),
        RsyncStage::Askpass => answers.len() == 1 && answers[0] == AnswerView::SshpassFound(false)
            && profile.auth is Password && t.ssh_option == ssh_option(
            profile,
            Seq::empty(),
            t.platform,
        ),
        RsyncStage::Returned(_) => true,
        _ => login_fits(t, answers),
    }
}

proof fn lemma_login(config: ConfigView, platform: Platform, answers: Seq<AnswerView>)
    requires
        config.files.len() <= usize::MAX,
        rsync_follows(config, platform, answers),
    ensures
        rsync_after(config, platform, answers).0.config == config,
        rsync_after(config, platform, answers).0.platform == platform,
        login_stage_fits(rsync_after(config, platform, answers).0, answers),
    decreases answers.len(),
{
    if answers.len() > 0 {
        let front = answers.drop_last();
        lemma_login(config, platform, front);
        assert(front.len() > 0 ==> front[0] == answers[0]);
        assert(front.len() > 1 ==> front[1] == answers[1]);
        assert(answers[answers.len() - 1] == answers.last());
    }
}

/// While a file is transferred, rsync logs in with the key file of its account, or with the
/// password: through sshpass where that is installed, and only where it is not, through a script.
pub proof fn law_login_follows_what_is_installed(
    config: ConfigView,
    platform: Platform,
    answers: Seq<AnswerView>,
)
    requires
        config.files.len() <= usize::MAX,
        rsync_follows(config, platform, answers),
        rsync_after(config, platform, answers).0.in_file(),
    ensures
        login_fits(rsync_after(config, platform, answers).0, answers),
{
    lemma_login(config, platform, answers);
}

/// The way of a job whose files stay on their server.
pub open spec fn same_server_job(job: JobView) -> SameServerJob {
    SameServerJob {
        files: job.files(),
        base: job.route->base,
        target: job.route->target_path,
        is_cut: job.is_cut,
    }
}

/// The commands for the first files of a job whose files stay on their server.
pub open spec fn same_server_commands(job: JobView, count: nat) -> Seq<Removal> {
    Seq::new(
        count,
        |i: int|
            Removal::Remote {
                command: same_server_command(
                    job.is_cut,
                    path_below(job.route->base, job.files()[i]),
                    job.route->target_path,
                ),
                cancelable: true,
            },
    )
}

/// Whether an action needs no program and no file of this machine.
pub open spec fn on_server(a: ActionView) -> bool {
    a is Send || a is PollCancel || a is ConnectSsh || a is RunRemote || a is CloseSsh
}

/// Whether some actions need no program and no file of this machine.
pub open spec fn all_on_server(actions: Seq<ActionView>) -> bool {
    forall|i: int| 0 <= i < actions.len() ==> on_server(#[trigger] actions[i])
}

proof fn lemma_same_server_step(t: SameServerView, answer: AnswerView)
    requires
        t.wf(),
        t.expects(answer),
    ensures
        ({
            let (next, actions) = same_server_next(t, answer);
            &&& next.wf()
            &&& next.job == t.job
            &&& t.completed <= next.completed <= t.completed + 1
            &&& starts(actions) == if next.stage is Running {
                seq![t.file()]
            } else {
                Seq::empty()
            }
            &&& removals(actions) == if next.stage is Running {
                seq![
                    Removal::Remote {
                        command: same_server_command(
                            t.job.is_cut,
                            path_below(t.job.base, t.file()),
                            t.job.target,
                        ),
                        cancelable: true,
                    },
                ]
            } else {
                Seq::empty()
            }
            &&& arrivals(actions) == t.job.files.subrange(
                t.completed as int,
                next.completed as int,
            )
            &&& counts(actions) == if t.completed < next.completed {
                seq![(next.completed as usize, t.job.files.len() as usize)]
            } else {
                Seq::empty()
            }
            &&& connections(actions).len() == 0
            &&& next.stage is Running ==> t.stage is BeforeFile && next.completed == t.completed
            &&& next.stage is AfterLoss ==> t.stage is Running && next.completed == t.completed
            &&& next.stage is BeforeFile ==> (t.stage is Connecting && next.completed
                == t.completed) || (t.stage is Running && next.completed == t.completed + 1)
            &&& !(next.stage is Connecting)
            &&& next.stage is Returned && t.completed < next.completed ==> t.stage is Running
            &&& all_on_server(actions)
        }),
{
    broadcast use group_select;

}

/// What a transfer on one server has told and run, as far as it has come.
pub open spec fn same_server_in_order(job: JobView, asked: Seq<ActionView>) -> bool {
    let files = job.files();
    let begun = starts(asked).len();
    let done = arrivals(asked).len();
    &&& done <= begun <= done + 1
    &&& begun <= files.len()
    &&& starts(asked) == files.take(begun as int)
    &&& arrivals(asked) == files.take(done as int)
    &&& removals(asked) == same_server_commands(job, begun)
    &&& counts(asked) == seq![(0usize, job.total())] + count_reports(done, files.len())
    &&& connections(asked) == seq![job.route->Relay_source]
    &&& all_on_server(asked)
}

/// All that holds of a transfer on one server as far as it has come.
spec fn same_server_order_fits(s: SessionView, asked: Seq<ActionView>) -> bool {
    &&& same_server_in_order(s.job, asked)
    &&& match s.stage {
        StageView::SameServer(run) => {
            &&& run.wf()
            &&& run.job == same_server_job(s.job)
            &&& arrivals(asked).len() == run.completed
            &&& starts(asked).len() == run.completed + (if run.stage is Running
                || run.stage is AfterLoss {
                1nat
            } else {
                0nat
            })
        },
        StageView::AfterSameServer | StageView::Finished => true,
        _ => false,
    }
}

proof fn lemma_same_server_turn_adds_no_file(
    job: JobView,
    run: SameServerView,
    actions: Seq<ActionView>,
)
    requires
        all_on_server(actions),
    ensures
        ({
            let all = same_server_turn(job, run, actions).1;
            &&& starts(all) == starts(actions)
            &&& arrivals(all) == arrivals(actions)
            &&& removals(all) == removals(actions)
            &&& counts(all) == counts(actions)
            &&& connections(all) == connections(actions)
            &&& all_on_server(all)
        }),
{
    broadcast use group_select;

}

proof fn lemma_same_server_order(s: SessionView, asked: Seq<ActionView>, answer: AnswerView)
    requires
        s.wf(),
        s.job.stays(),
        s.expects(answer),
        same_server_order_fits(s, asked),
    ensures
        same_server_order_fits(session_next(s, answer).0, asked + session_next(s, answer).1),
{
    let (after, actions) = session_next(s, answer);
    let all = asked + actions;
    let files = s.job.files();
    lemma_select_concat(asked, actions, file_started());
    lemma_select_concat(asked, actions, file_arrived());
    lemma_select_concat(asked, actions, file_removed());
    lemma_select_concat(asked, actions, count_told());
    lemma_select_concat(asked, actions, server_connected());
    match s.stage {
        StageView::SameServer(run) => {
            lemma_same_server_step(run, answer);
            let (next, some) = same_server_next(run, answer);
            lemma_same_server_turn_adds_no_file(s.job, next, some);
        },
        _ => {
            broadcast use group_select;

        },
    }
    assert(starts(all) =~= files.take(starts(all).len() as int));
    assert(arrivals(all) =~= files.take(arrivals(all).len() as int));
    assert(removals(all) =~= same_server_commands(s.job, starts(all).len()));
    assert(counts(all) =~= seq![(0usize, s.job.total())] + count_reports(
        arrivals(all).len(),
        files.len(),
    ));
    assert(connections(all) =~= connections(asked));
}

/// A transfer whose files stay on their server runs no program of this machine, touches none of
/// its files and deletes nothing itself: it runs one command on the server for each file, in the
/// order in which they are given, all over one connection. Each file is reported as started, and its
/// command run, only after the one before it has been reported as transferred; the number of
/// transferred files is reported as zero first, and then after each file.
pub proof fn law_same_server_takes_the_files_in_order(job: JobView, answers: Seq<AnswerView>)
    requires
        job.files().len() <= usize::MAX,
        job.stays(),
        session_follows(job, answers),
    ensures
        same_server_in_order(job, session_after(job, answers).1),
{
    lemma_same_server_run(job, answers);
}

proof fn lemma_same_server_run(job: JobView, answers: Seq<AnswerView>)
    requires
        job.files().len() <= usize::MAX,
        job.stays(),
        session_follows(job, answers),
    ensures
        session_after(job, answers).0.job == job,
        same_server_order_fits(session_after(job, answers).0, session_after(job, answers).1),
    decreases answers.len(),
{
    lemma_run_wf(job, answers);
    if answers.len() > 0 {
        let front = answers.drop_last();
        lemma_same_server_run(job, front);
        lemma_run_wf(job, front);
        let (s, asked) = session_after(job, front);
        lemma_same_server_order(s, asked, answers.last());
    } else {
        broadcast use group_select;

        let asked = session_start(job).1;
        assert(starts(asked) =~= job.files().take(0));
        assert(arrivals(asked) =~= job.files().take(0));
        assert(removals(asked) =~= same_server_commands(job, 0));
        assert(counts(asked) =~= seq![(0usize, job.total())] + count_reports(0, job.files().len()));
        assert(connections(asked) =~= seq![job.route->Relay_source]);
    }
}

} // verus!
