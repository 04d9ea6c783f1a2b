//! Which accounts a transfer logs in to on its way, and what it carries from where to where.

use crate::accounts::{
    hands_on, is_below, is_remote, law_rsync_command_hands_on_the_password,
    law_rsync_command_names_both_ends, law_ssh_option_reaches_the_account, ssh_words,
};
use crate::action::{ActionView, AnswerView};
use crate::command::{rsync_command, CommandView, ConfigView, Login, TransferDirection};
use crate::delete::{delete_next, DeleteView};
use crate::message::MessageView;
use crate::profile::{ssh_option, AuthView, ProfileView};
use crate::protocol::law_one_question_at_a_time;
use crate::rsync::{rsync_next, RsyncStage, RsyncView};
use crate::run::{
    group_select, lemma_run_wf, lemma_select_concat, select, session_after, session_follows,
};
use crate::same_server::{same_server_next, SameServerView};
use crate::shell::shell_words;
use crate::story::{file_started, starts};
use crate::transfer::{
    leg_begin, leg_turn, prepared_actions, send, session_next, JobView, Leg, RouteView,
    SessionView, StageView,
};
use vstd::prelude::*;

verus! {

/// Finds the passwords that a script is made for.
pub open spec fn script_asked() -> spec_fn(ActionView) -> Option<Seq<char>> {
    |a: ActionView|
        match a {
            ActionView::CreateAskpass(password) => Some(password),
            _ => None,
        }
}

/// The passwords that some actions have a script made for, in order.
pub open spec fn scripts(asked: Seq<ActionView>) -> Seq<Seq<char>> {
    select(asked, script_asked())
}

/// Finds the reports that no file has been transferred yet.
pub open spec fn zero_told() -> spec_fn(ActionView) -> Option<()> {
    |a: ActionView|
        match a {
            ActionView::Send(MessageView::TotalProgress(0, _, _, _)) => Some(()),
            _ => None,
        }
}

/// How often some actions set the progress to zero: once at the beginning of each leg.
pub open spec fn resets(asked: Seq<ActionView>) -> nat {
    select(asked, zero_told()).len()
}

/// Finds the answers on whether sshpass is installed.
pub open spec fn sshpass_probed() -> spec_fn(AnswerView) -> Option<bool> {
    |a: AnswerView|
        match a {
            AnswerView::SshpassFound(found) => Some(found),
            _ => None,
        }
}

/// Whether a text is what was answered when this path of a key file was to be expanded.
pub open spec fn is_expanded(
    job: JobView,
    answers: Seq<AnswerView>,
    path: Seq<char>,
    text: Seq<char>,
) -> bool {
    exists|k: int|
        0 <= k < answers.len() && #[trigger] answers[k] == AnswerView::KeyPath(text)
            && session_after(job, answers.take(k)).1.len() > 0 && session_after(
            job,
            answers.take(k),
        ).1.last() == ActionView::ExpandKeyPath(path)
}

/// Whether a command that a transfer asks for after some answers logs in to an account: its `ssh`
/// command reaches the account with the key file of the account, or without one it hands on the
/// password of the account, through sshpass where that was found, and otherwise by the script that
/// was made last.
#[verifier::opaque]
pub open spec fn logs_in(
    job: JobView,
    answers: Seq<AnswerView>,
    command: CommandView,
    account: ProfileView,
) -> bool {
    let asked = session_after(job, answers).1;
    let ssh_command = command.args[command.args.len() - 3];
    match account.auth {
        AuthView::KeyFile { path, .. } => {
            &&& hands_on(command, Login::Key, Seq::empty())
            &&& exists|key: Seq<char>|
                is_expanded(job, answers, path, key) && shell_words(ssh_command) == Some(
                    #[trigger] ssh_words(account, key, job.platform),
                )
        },
        AuthView::Password { password } => {
            let probes = select(answers, sshpass_probed());
            &&& shell_words(ssh_command) == Some(ssh_words(account, Seq::empty(), job.platform))
            &&& probes.len() > 0
            &&& if probes.last() {
                hands_on(command, Login::Sshpass, password)
            } else {
                &&& hands_on(command, Login::Askpass, password)
                &&& scripts(asked).len() > 0
                &&& scripts(asked).last() == password
            }
        },
    }
}

/// Whether a command runs rsync to take a file up: from below a base directory of this machine to a
/// path on the server of an account.
#[verifier::opaque]
pub open spec fn takes_up(
    command: CommandView,
    base: Seq<char>,
    file: Seq<char>,
    account: ProfileView,
    target: Seq<char>,
) -> bool {
    let rest = command.args.skip(command.args.len() - 6);
    &&& command.args.len() >= 6
    &&& rest.take(3) == seq!["-a"@, "--progress"@, "-e"@]
    &&& is_below(rest[4], base, file)
    &&& is_remote(rest[5], account, target)
}

/// Whether a command runs rsync to take a file down: from below a base directory on the server of an
/// account to a path of this machine.
#[verifier::opaque]
pub open spec fn takes_down(
    command: CommandView,
    account: ProfileView,
    base: Seq<char>,
    file: Seq<char>,
    target: Seq<char>,
) -> bool {
    let rest = command.args.skip(command.args.len() - 6);
    &&& command.args.len() >= 6
    &&& rest.take(3) == seq!["-a"@, "--progress"@, "-e"@]
    &&& exists|path: Seq<char>|
        is_below(path, base, file) && #[trigger] is_remote(rest[4], account, path)
    &&& rest[5] == target
}

/// Whether a command takes a file the way of a configuration.
spec fn takes(command: CommandView, config: ConfigView, file: Seq<char>) -> bool {
    match config.direction {
        TransferDirection::LocalToRemote => takes_up(
            command,
            config.base,
            file,
            config.profile,
            config.target,
        ),
        TransferDirection::RemoteToLocal => takes_down(
            command,
            config.profile,
            config.base,
            file,
            config.target,
        ),
    }
}

/// How far a transfer by rsync has come with its login.
spec fn login_is_ready(
    job: JobView,
    run: RsyncView,
    asked: Seq<ActionView>,
    answers: Seq<AnswerView>,
) -> bool {
    let account = run.config.profile;
    let probes = select(answers, sshpass_probed());
    &&& run.platform == job.platform
    &&& match (account.auth, run.stage) {
        (AuthView::KeyFile { path, .. }, RsyncStage::KeyPath) => asked.len() > 0 && asked.last()
            == ActionView::ExpandKeyPath(path) && run.login is Key,
        (AuthView::KeyFile { path, .. }, _) => run.login is Key && exists|key: Seq<char>|
            is_expanded(job, answers, path, key) && run.ssh_option == #[trigger] ssh_option(
                account,
                key,
                job.platform,
            ),
        (AuthView::Password { password }, stage) => {
            &&& run.ssh_option == ssh_option(account, Seq::empty(), job.platform)
            &&& match stage {
                RsyncStage::Sshpass => true,
                RsyncStage::Askpass => probes.len() > 0 && !probes.last() && scripts(asked).len()
                    > 0 && scripts(asked).last() == password,
                _ => probes.len() > 0 && if probes.last() {
                    run.login is Sshpass
                } else {
                    run.login is Askpass && scripts(asked).len() > 0 && scripts(asked).last()
                        == password
                },
            }
        },
    }
}

/// What a transfer by rsync adds to its login.
proof fn lemma_rsync_login(run: RsyncView, answer: AnswerView)
    requires
        run.wf(),
        run.expects(answer),
    ensures
        ({
            let (next, actions) = rsync_next(run, answer);
            &&& next.config == run.config
            &&& next.platform == run.platform
            &&& resets(actions) == 0
            &&& scripts(actions) == if answer == AnswerView::SshpassFound(false) {
                seq![run.config.profile.auth->password]
            } else {
                Seq::empty()
            }
            &&& next.ssh_option == (match answer {
                AnswerView::KeyPath(path) => ssh_option(run.config.profile, path, run.platform),
                _ => run.ssh_option,
            })
            &&& next.login == (match answer {
                AnswerView::SshpassFound(true) => Login::Sshpass,
                AnswerView::AskpassCreated(Ok(_)) => Login::Askpass,
                _ => run.login,
            })
            &&& !(next.stage is KeyPath) && !(next.stage is Sshpass)
            &&& next.stage is Askpass <==> answer == AnswerView::SshpassFound(false)
            &&& answer is KeyPath <==> run.stage is KeyPath
            &&& answer is SshpassFound <==> run.stage is Sshpass
            &&& answer is AskpassCreated <==> run.stage is Askpass
            &&& run.stage is Askpass && !(next.stage is Returned) ==> next.login is Askpass
            &&& actions.len() > 0 && actions.last() is Spawn ==> {
                &&& next.stage is Spawning
                &&& starts(actions) == seq![run.file()]
                &&& actions.last() == ActionView::Spawn(
                    rsync_command(run.config, run.ssh_option, run.login, run.file()),
                )
                &&& run.stage is BeforeFile
            }
        }),
{
    broadcast use group_select;

}

/// A leg that goes on adds nothing to what rsync asks for.
proof fn lemma_leg_goes_on(
    job: JobView,
    leg: Leg,
    temp_dir: Seq<char>,
    run: RsyncView,
    actions: Seq<ActionView>,
)
    ensures
        ({
            let (next, all) = leg_turn(job, leg, temp_dir, run, actions);
            &&& !(run.stage is Returned) ==> all == actions && next.stage == (StageView::Leg {
                leg,
                temp_dir,
                run,
            })
            &&& run.stage is Returned ==> !(next.stage is Leg) && (all.len() > 0 ==> !(
            all.last() is Spawn))
            &&& resets(all) == resets(actions)
        }),
{
    broadcast use group_select;

    let (next, all) = leg_turn(job, leg, temp_dir, run, actions);
    assert(select(all, zero_told()) == select(actions, zero_told()));
}

/// The configuration that a leg of a job needs.
pub open spec fn is_leg_of(
    config: ConfigView,
    job: JobView,
    leg: Leg,
    temp_dir: Seq<char>,
) -> bool {
    match (job.route, leg) {
        (RouteView::Direct { config: whole, .. }, Leg::Only) => config == whole,
        (RouteView::Relay { source, files, base, .. }, Leg::Download) => {
            &&& config.direction is RemoteToLocal
            &&& config.profile == source
            &&& config.files == files
            &&& config.base == base
            &&& config.target == temp_dir
        },
        (RouteView::Relay { target, files, target_path, .. }, Leg::Upload) => {
            &&& config.direction is LocalToRemote
            &&& config.profile == target
            &&& config.files == files
            &&& config.base == temp_dir
            &&& config.target == target_path
        },
        _ => false,
    }
}

/// What is known of the way of a transfer at each stage.
spec fn way_fits(s: SessionView, asked: Seq<ActionView>, answers: Seq<AnswerView>) -> bool {
    match s.stage {
        StageView::Probing => resets(asked) == 0 && answers.len() == 0,
        StageView::MakingTempDir => resets(asked) == 0 && answers.len() == 1 && answers[0]
            == AnswerView::RsyncFound(true),
        StageView::Leg { leg, temp_dir, run } => {
            &&& answers.len() > 0 && answers[0] == AnswerView::RsyncFound(true)
            &&& is_leg_of(run.config, s.job, leg, temp_dir)
            &&& resets(asked) == if leg is Upload {
                2nat
            } else {
                1nat
            }
            &&& !(leg is Only) ==> answers.len() >= 2 && answers[1] == AnswerView::TempDir(
                Ok(temp_dir),
            )
            &&& login_is_ready(s.job, run, asked, answers)
        },
        StageView::AfterLeg { leg, temp_dir } => {
            &&& answers.len() > 0 && answers[0] == AnswerView::RsyncFound(true)
            &&& resets(asked) == if leg is Upload {
                2nat
            } else {
                1nat
            }
            &&& !(leg is Only) ==> answers.len() >= 2 && answers[1] == AnswerView::TempDir(
                Ok(temp_dir),
            )
        },
        _ => true,
    }
}

proof fn lemma_expanded_stays(job: JobView, answers: Seq<AnswerView>)
    requires
        answers.len() > 0,
    ensures
        forall|path: Seq<char>, text: Seq<char>|
            is_expanded(job, answers.drop_last(), path, text) ==> #[trigger] is_expanded(
                job,
                answers,
                path,
                text,
            ),
        forall|path: Seq<char>, text: Seq<char>|
            answers.last() == AnswerView::KeyPath(text) && session_after(
                job,
                answers.drop_last(),
            ).1.len() > 0 && session_after(job, answers.drop_last()).1.last()
                == ActionView::ExpandKeyPath(path) ==> #[trigger] is_expanded(
                job,
                answers,
                path,
                text,
            ),
{
    let front = answers.drop_last();
    assert forall|path: Seq<char>, text: Seq<char>|
        is_expanded(job, front, path, text) implies #[trigger] is_expanded(
        job,
        answers,
        path,
        text,
    ) by {
        let k = choose|k: int|
            0 <= k < front.len() && #[trigger] front[k] == AnswerView::KeyPath(text)
                && session_after(job, front.take(k)).1.len() > 0 && session_after(
                job,
                front.take(k),
            ).1.last() == ActionView::ExpandKeyPath(path);
        assert(answers[k] == front[k]);
        assert(answers.take(k) =~= front.take(k));
    }
    let end = answers.len() - 1;
    assert(answers.take(end) =~= front);
    assert(answers[end] == answers.last());
}

proof fn lemma_leg_way(
    job: JobView,
    s: SessionView,
    asked: Seq<ActionView>,
    answers: Seq<AnswerView>,
)
    requires
        answers.len() > 0,
        s.wf(),
        s.job == job,
        s.stage is Leg,
        s.expects(answers.last()),
        session_after(job, answers.drop_last()) == (s, asked),
        way_fits(s, asked, answers.drop_last()),
    ensures
        way_fits(
            session_next(s, answers.last()).0,
            asked + session_next(s, answers.last()).1,
            answers,
        ),
{
    let front = answers.drop_last();
    let last = answers.last();
    let (leg, temp_dir, run) = (s.stage->Leg_leg, s.stage->Leg_temp_dir, s.stage->run);
    let (next, some) = rsync_next(run, last);
    let actions = session_next(s, last).1;
    lemma_rsync_login(run, last);
    lemma_leg_goes_on(job, leg, temp_dir, next, some);
    lemma_select_concat(asked, actions, zero_told());
    lemma_select_concat(asked, actions, script_asked());
    lemma_expanded_stays(job, answers);
    assert(answers =~= front.push(last));
    broadcast use group_select;

    let account = run.config.profile;
    if !(next.stage is Returned) {
        match account.auth {
            AuthView::KeyFile { path, .. } => {
                if run.stage is KeyPath {
                    let key = last->KeyPath_0;
                    assert(is_expanded(job, answers, path, key));
                    assert(next.ssh_option == ssh_option(account, key, job.platform));
                } else {
                    let key = choose|key: Seq<char>|
                        is_expanded(job, front, path, key) && run.ssh_option
                            == #[trigger] ssh_option(account, key, job.platform);
                    assert(is_expanded(job, answers, path, key));
                    assert(next.ssh_option == ssh_option(account, key, job.platform));
                }
            },
            AuthView::Password { .. } => {},
        }
        assert(login_is_ready(job, next, asked + actions, answers));
    }
}

/// A leg begins with a reset of the progress and with the question that the login of its account
/// needs.
proof fn lemma_leg_begins(
    job: JobView,
    leg: Leg,
    temp_dir: Seq<char>,
    some: Seq<ActionView>,
    asked: Seq<ActionView>,
    answers: Seq<AnswerView>,
)
    requires
        leg is Only <==> job.route is Direct,
    ensures
        ({
            let (next, actions) = leg_begin(job, leg, temp_dir, some);
            let run = next.stage->run;
            &&& next.stage == (StageView::Leg { leg, temp_dir, run })
            &&& is_leg_of(run.config, job, leg, temp_dir)
            &&& resets(actions) == resets(some)
            &&& login_is_ready(job, run, asked + actions, answers)
            &&& actions.len() > 0 && !(actions.last() is Spawn)
        }),
{
    broadcast use group_select;

    let actions = leg_begin(job, leg, temp_dir, some).1;
    assert(select(actions, zero_told()) == select(some, zero_told()));
    assert((asked + actions).last() == actions.last());
}

proof fn lemma_way_begins(
    s: SessionView,
    asked: Seq<ActionView>,
    front: Seq<AnswerView>,
    answer: AnswerView,
)
    requires
        s.wf(),
        s.expects(answer),
        !(s.stage is Leg),
        way_fits(s, asked, front),
    ensures
        way_fits(session_next(s, answer).0, asked + session_next(s, answer).1, front.push(answer)),
        session_next(s, answer).1.len() > 0 ==> !(session_next(s, answer).1.last() is Spawn),
{
    broadcast use group_select;

    let (next, actions) = session_next(s, answer);
    let answers = front.push(answer);
    lemma_select_concat(asked, actions, zero_told());
    match s.stage {
        StageView::Probing => {
            if answer == AnswerView::RsyncFound(true) && s.job.route is Direct {
                let some = prepared_actions(s.job);
                lemma_leg_begins(s.job, Leg::Only, Seq::empty(), some, asked, answers);
                assert(resets(some) == 1);
            }
        },
        StageView::MakingTempDir => {
            if let AnswerView::TempDir(Ok(temp_dir)) = answer {
                let some = prepared_actions(s.job);
                lemma_leg_begins(s.job, Leg::Download, temp_dir, some, asked, answers);
                assert(resets(some) == 1);
                assert(answers[1] == answer);
            }
        },
        StageView::AfterLeg { leg, temp_dir } => {
            if leg is Download && answer == AnswerView::Cancelled(false) {
                let some = seq![send(MessageView::TotalProgress(0, s.job.total(), 0, 0))];
                lemma_leg_begins(s.job, Leg::Upload, temp_dir, some, asked, answers);
                assert(resets(some) == 1);
                assert(answers[1] == front[1]);
            } else {
                assert(!(next.stage is Leg) && !(next.stage is AfterLeg));
            }
        },
        StageView::SameServer(run) => {
            let (after, some) = same_server_next(run, answer);
            lemma_same_server_starts_nothing(run, answer);
        },
        StageView::Deleting(run) => {
            lemma_deletion_starts_nothing(run, answer);
        },
        _ => {},
    }
}

proof fn lemma_same_server_starts_nothing(run: SameServerView, answer: AnswerView)
    ensures
        ({
            let actions = same_server_next(run, answer).1;
            actions.len() > 0 ==> !(actions.last() is Spawn)
        }),
{
}

proof fn lemma_deletion_starts_nothing(run: DeleteView, answer: AnswerView)
    ensures
        ({
            let actions = delete_next(run, answer).1;
            actions.len() > 0 ==> !(actions.last() is Spawn)
        }),
{
}

/// Every answer to a transfer is followed by something to be done.
pub(crate) proof fn lemma_step_asks(s: SessionView, answer: AnswerView)
    requires
        s.wf(),
        s.expects(answer),
    ensures
        session_next(s, answer).1.len() > 0,
{
    law_one_question_at_a_time(s, answer);
    match s.stage {
        StageView::Leg { run, .. } => {
            if !(rsync_next(run, answer).0.stage is Returned) {
                assert(session_next(s, answer).0.stage is Leg);
            }
        },
        _ => {},
    }
}

proof fn lemma_way(job: JobView, answers: Seq<AnswerView>)
    requires
        job.files().len() <= usize::MAX,
        session_follows(job, answers),
    ensures
        way_fits(session_after(job, answers).0, session_after(job, answers).1, answers),
    decreases answers.len(),
{
    if answers.len() > 0 {
        let front = answers.drop_last();
        let last = answers.last();
        lemma_way(job, front);
        lemma_run_wf(job, front);
        let (s, asked) = session_after(job, front);
        if s.stage is Leg {
            lemma_leg_way(job, s, asked, answers);
        } else {
            lemma_way_begins(s, asked, front, last);
            assert(front.push(last) =~= answers);
        }
    } else {
        broadcast use group_select;

    }
}

/// A program that a transfer asks for belongs to a leg: it is the rsync command of that leg for the
/// file that was reported as started last.
proof fn lemma_program(job: JobView, answers: Seq<AnswerView>, command: CommandView)
    requires
        job.files().len() <= usize::MAX,
        session_follows(job, answers),
        session_after(job, answers).1.last() == ActionView::Spawn(command),
    ensures
        ({
            let (s, asked) = session_after(job, answers);
            let (leg, temp_dir, run) = (s.stage->Leg_leg, s.stage->Leg_temp_dir, s.stage->run);
            &&& s.stage is Leg
            &&& way_fits(s, asked, answers)
            &&& is_leg_of(run.config, job, leg, temp_dir)
            &&& logs_in(job, answers, command, run.config.profile)
            &&& starts(asked).len() > 0
            &&& takes(command, run.config, starts(asked).last())
        }),
{
    broadcast use group_select;

    if answers.len() > 0 {
        let front = answers.drop_last();
        let last = answers.last();
        lemma_way(job, front);
        lemma_way(job, answers);
        lemma_run_wf(job, front);
        lemma_run_wf(job, answers);
        let (before, earlier) = session_after(job, front);
        let (s, asked) = session_after(job, answers);
        let actions = session_next(before, last).1;
        lemma_step_asks(before, last);
        assert(asked.last() == actions.last());
        if !(before.stage is Leg) {
            lemma_way_begins(before, earlier, front, last);
        } else {
            let (leg, temp_dir, run) = (
                before.stage->Leg_leg,
                before.stage->Leg_temp_dir,
                before.stage->run,
            );
            let (next, some) = rsync_next(run, last);
            lemma_rsync_login(run, last);
            lemma_leg_goes_on(job, leg, temp_dir, next, some);
            lemma_select_concat(earlier, actions, file_started());
            let file = run.file();
            assert(starts(asked).last() == file);
            assert(command == rsync_command(next.config, next.ssh_option, next.login, file));
            lemma_command_logs_in(job, answers, command, next, file);
        }
    }
}

proof fn lemma_command_logs_in(
    job: JobView,
    answers: Seq<AnswerView>,
    command: CommandView,
    run: RsyncView,
    file: Seq<char>,
)
    requires
        command == rsync_command(run.config, run.ssh_option, run.login, file),
        run.stage is Spawning,
        login_is_ready(job, run, session_after(job, answers).1, answers),
    ensures
        logs_in(job, answers, command, run.config.profile),
        takes(command, run.config, file),
{
    reveal(logs_in);
    reveal(takes_up);
    reveal(takes_down);
    let account = run.config.profile;
    law_rsync_command_names_both_ends(run.config, run.ssh_option, run.login, file);
    let rest = command.args.skip(command.args.len() - 6);
    let ssh_command = command.args[command.args.len() - 3];
    assert(rest.take(4)[3] == ssh_command);
    assert(rest.take(3) =~= rest.take(4).take(3));
    assert(rest.take(4).take(3) =~= seq!["-a"@, "--progress"@, "-e"@]);
    match account.auth {
        AuthView::KeyFile { path, .. } => {
            law_rsync_command_hands_on_the_password(
                run.config,
                run.ssh_option,
                run.login,
                file,
                Seq::empty(),
            );
            let key = choose|key: Seq<char>|
                is_expanded(job, answers, path, key) && run.ssh_option == #[trigger] ssh_option(
                    account,
                    key,
                    job.platform,
                );
            law_ssh_option_reaches_the_account(account, key, job.platform);
            assert(shell_words(ssh_command) == Some(ssh_words(account, key, job.platform)));
        },
        AuthView::Password { password } => {
            law_rsync_command_hands_on_the_password(
                run.config,
                run.ssh_option,
                run.login,
                file,
                password,
            );
            law_ssh_option_reaches_the_account(account, Seq::empty(), job.platform);
        },
    }
}

/// Whenever a transfer between this machine and a server starts a program, rsync has been found
/// installed, and the program is rsync. It is logged in to the account of the configuration, and
/// takes the file that was reported as started last from below the base to the target: up to the
/// account's server, or down from there, as the direction says.
pub proof fn law_direct_programs_use_the_account(
    job: JobView,
    config: ConfigView,
    origin: Option<ProfileView>,
    answers: Seq<AnswerView>,
    command: CommandView,
)
    requires
        job.route == (RouteView::Direct { config, origin }),
        config.files.len() <= usize::MAX,
        session_follows(job, answers),
        session_after(job, answers).1.last() == ActionView::Spawn(command),
    ensures
        answers.len() > 0 && answers[0] == AnswerView::RsyncFound(true),
        starts(session_after(job, answers).1).len() > 0,
        logs_in(job, answers, command, config.profile),
        config.direction is LocalToRemote ==> takes_up(
            command,
            config.base,
            starts(session_after(job, answers).1).last(),
            config.profile,
            config.target,
        ),
        config.direction is RemoteToLocal ==> takes_down(
            command,
            config.profile,
            config.base,
            starts(session_after(job, answers).1).last(),
            config.target,
        ),
{
    lemma_program(job, answers, command);
    lemma_run_wf(job, answers);
}

/// Whenever a transfer between two servers starts a program, rsync has been found installed and a
/// temporary directory has been made, and the program is rsync. It uses the account of the side that
/// it talks to: before the progress is set to zero again, it is logged in to the source account and
/// takes the file that was reported as started last down from below the base there into the
/// temporary directory; after that it is logged in to the target account and takes the file up from
/// the temporary directory to the target path there.
pub proof fn law_relay_programs_use_the_account_of_their_side(
    job: JobView,
    source: ProfileView,
    target: ProfileView,
    files: Seq<Seq<char>>,
    base: Seq<char>,
    target_path: Seq<char>,
    answers: Seq<AnswerView>,
    command: CommandView,
)
    requires
        job.route == (RouteView::Relay { source, target, files, base, target_path }),
        files.len() <= usize::MAX,
        session_follows(job, answers),
        session_after(job, answers).1.last() == ActionView::Spawn(command),
    ensures
        ({
            let asked = session_after(job, answers).1;
            let file = starts(asked).last();
            &&& starts(asked).len() > 0
            &&& answers.len() >= 2
            &&& answers[0] == AnswerView::RsyncFound(true)
            &&& answers[1] matches AnswerView::TempDir(Ok(temp_dir)) && if resets(asked) == 1 {
                &&& logs_in(job, answers, command, source)
                &&& takes_down(command, source, base, file, temp_dir)
            } else {
                &&& resets(asked) == 2
                &&& logs_in(job, answers, command, target)
                &&& takes_up(command, temp_dir, file, target, target_path)
            }
        }),
{
    lemma_program(job, answers, command);
    lemma_run_wf(job, answers);
    let leg = session_after(job, answers).0.stage->Leg_leg;
    assert(leg is Download || leg is Upload);
}

} // verus!
