//! Where the sources of a transfer are deleted: on the server that they came from, or on this
//! machine.

use crate::accounts::{
    is_below, law_paths_are_below_their_base, law_remove_command_takes_each_file, removes_files,
};
use crate::action::{ActionView, AnswerView};
use crate::command::{law_same_server_command_names_the_paths, path_below, ConfigView};
use crate::delete::{delete_next, delete_start, DeleteJob, DeleteStage, DeleteView};
use crate::message::MessageView;
use crate::order::{
    connections, law_same_server_takes_the_files_in_order, on_server, server_connected,
};
use crate::profile::ProfileView;
use crate::removal::{
    all_deletions, connection_failed, law_moved_sources_are_deleted, law_only_moved_sources_are_deleted,
};
use crate::routes::lemma_step_asks;
use crate::rsync::{rsync_next, RsyncView};
use crate::run::{
    group_select, lemma_run_wf, lemma_select_concat, select, session_after, session_follows,
};
use crate::same_server::{same_server_next, SameServerView};
use crate::shell::shell_words;
use crate::story::{
    cancellation_seen, file_removed, law_the_end_is_told_once, message_sent, removals, starts,
    told, Removal,
};
use crate::transfer::{
    arrived, deletion_turn, leg_turn, session_next, JobView, Leg, RouteView, SessionView,
    StageView,
};
use vstd::prelude::*;

verus! {

/// Finds what looks at a path of this machine or deletes what is there.
pub open spec fn path_touched() -> spec_fn(ActionView) -> Option<Seq<char>> {
    |a: ActionView|
        match a {
            ActionView::ProbeDir { path } => Some(path),
            ActionView::DeleteTree { path } => Some(path),
            ActionView::DeleteFile { path } => Some(path),
            _ => None,
        }
}

/// The paths of this machine that some actions look at or delete, in order.
pub open spec fn touched(asked: Seq<ActionView>) -> Seq<Seq<char>> {
    select(asked, path_touched())
}

/// Whether some actions connect to no server, touch no path of this machine and delete nothing.
spec fn is_idle(actions: Seq<ActionView>) -> bool {
    connections(actions).len() == 0 && touched(actions).len() == 0 && removals(actions).len() == 0
}

/// The servers that a deletion has connected to by then.
spec fn connected_by(job: DeleteJob, stage: DeleteStage) -> Seq<ProfileView> {
    match stage {
        DeleteStage::BeforeConnect | DeleteStage::Probing(_) | DeleteStage::Local(_) =>
            Seq::empty(),
        _ => seq![job.profile->0],
    }
}

/// What a transfer has connected to and touched at each stage.
spec fn places_fit(s: SessionView, asked: Seq<ActionView>, cancelled: bool) -> bool {
    let profile = s.job.deletion().profile;
    &&& touched(asked).len() > 0 ==> profile is None
    &&& profile is Some && removals(asked).len() > 0 ==> connections(asked).len() > 0
    &&& match s.stage {
        StageView::Deleting(run) => connections(asked) == connected_by(run.job, run.stage),
        StageView::Finished => {
            &&& connections(asked).len() > 0 ==> profile is Some && s.job.is_cut
                && connections(asked) == seq![profile->0]
            &&& s.job.is_cut && profile is Some && s.job.total() > 0 && told(asked).last()
                == MessageView::Completed(s.job.total(), 0) && !cancelled ==> connections(
                asked,
            ).len() == 1
        },
        _ => connections(asked).len() == 0,
    }
}

proof fn lemma_rsync_is_idle(run: RsyncView, answer: AnswerView)
    ensures
        is_idle(rsync_next(run, answer).1),
{
    broadcast use group_select;

}

proof fn lemma_leg_turn_is_idle(
    job: JobView,
    leg: Leg,
    temp_dir: Seq<char>,
    run: RsyncView,
    actions: Seq<ActionView>,
)
    requires
        is_idle(actions),
    ensures
        ({
            let (next, all) = leg_turn(job, leg, temp_dir, run, actions);
            &&& is_idle(all)
            &&& next.stage is Finished ==> told(all).len() > 0 && told(all).last()
                == MessageView::Completed(0, job.total())
            &&& next.stage is Finished || next.stage is Leg || next.stage is AfterLeg
        }),
{
    broadcast use group_select;

}

proof fn lemma_deletion_places(d: DeleteView, answer: AnswerView)
    requires
        d.wf(),
        d.expects(answer),
    ensures
        ({
            let (next, actions) = delete_next(d, answer);
            let before = connected_by(d.job, d.stage);
            &&& touched(actions).len() > 0 ==> d.job.profile is None
            &&& d.job.profile is Some && removals(actions).len() > 0 ==> before.len() > 0
            &&& !(next.stage is Done) ==> before + connections(actions) == connected_by(
                d.job,
                next.stage,
            )
            &&& next.stage is Done ==> connections(actions).len() == 0
            &&& next.stage is Done && before.len() == 0 && d.job.profile is Some ==> answer
                == AnswerView::Cancelled(true)
            &&& before.len() > 0 ==> d.job.profile is Some
            &&& next.job == d.job
        }),
{
    broadcast use group_select;

    let (next, actions) = delete_next(d, answer);
    let before = connected_by(d.job, d.stage);
    assert(before + Seq::<ProfileView>::empty() =~= before);
    assert(Seq::<ProfileView>::empty() + seq![d.job.profile->0] =~= seq![d.job.profile->0]);
}

proof fn lemma_deletion_turn_places(job: JobView, run: DeleteView, actions: Seq<ActionView>)
    ensures
        ({
            let (next, all) = deletion_turn(job, run, actions);
            &&& connections(all) == connections(actions)
            &&& touched(all) == touched(actions)
            &&& removals(all) == removals(actions)
            &&& next.stage is Finished <==> run.stage is Done
            &&& !(next.stage is Finished) ==> next.stage == StageView::Deleting(run)
        }),
{
    broadcast use group_select;

}

proof fn lemma_arrived_places(job: JobView)
    requires
        job.files().len() <= usize::MAX,
    ensures
        ({
            let (next, all) = arrived(job);
            &&& connections(all).len() == 0
            &&& removals(all).len() == 0
            &&& touched(all).len() > 0 ==> job.deletion().profile is None
            &&& next.stage matches StageView::Deleting(run) ==> connected_by(
                run.job,
                run.stage,
            ).len() == 0
            &&& next.stage is Finished && job.is_cut ==> job.total() == 0
            &&& next.stage is Finished || next.stage is Deleting
        }),
{
    broadcast use group_select;

    let (run, some) = delete_start(job.deletion());
    lemma_deletion_turn_places(job, run, some);
}

proof fn lemma_other_places(s: SessionView, asked: Seq<ActionView>, answer: AnswerView)
    requires
        s.wf(),
        s.expects(answer),
        !s.job.stays(),
        !(s.stage is Deleting),
        !(s.stage is Leg),
        told(asked).len() > 0,
        places_fit(s, asked, false),
    ensures
        places_fit(session_next(s, answer).0, asked + session_next(s, answer).1, false),
{
    broadcast use group_select;

    let (next, actions) = session_next(s, answer);
    lemma_select_concat(asked, actions, server_connected());
    lemma_select_concat(asked, actions, path_touched());
    lemma_select_concat(asked, actions, file_removed());
    lemma_select_concat(asked, actions, message_sent());
    if s.stage is AfterLeg {
        lemma_arrived_places(s.job);
        if let StageView::Deleting(run) = next.stage {
            assert(connections(asked + actions) =~= connected_by(run.job, run.stage));
        }
    }
}

proof fn lemma_leg_places(s: SessionView, asked: Seq<ActionView>, answer: AnswerView)
    requires
        s.wf(),
        s.expects(answer),
        s.stage is Leg,
        told(asked).len() > 0,
        places_fit(s, asked, false),
    ensures
        places_fit(session_next(s, answer).0, asked + session_next(s, answer).1, false),
{
    let (leg, temp_dir, run) = (s.stage->Leg_leg, s.stage->Leg_temp_dir, s.stage->run);
    let (next, some) = rsync_next(run, answer);
    lemma_rsync_is_idle(run, answer);
    lemma_leg_turn_is_idle(s.job, leg, temp_dir, next, some);
    let actions = session_next(s, answer).1;
    lemma_select_concat(asked, actions, server_connected());
    lemma_select_concat(asked, actions, path_touched());
    lemma_select_concat(asked, actions, file_removed());
    lemma_select_concat(asked, actions, message_sent());
}

proof fn lemma_deleting_places(s: SessionView, asked: Seq<ActionView>, answer: AnswerView)
    requires
        s.wf(),
        s.expects(answer),
        s.stage is Deleting,
        places_fit(s, asked, false),
    ensures
        places_fit(
            session_next(s, answer).0,
            asked + session_next(s, answer).1,
            answer == AnswerView::Cancelled(true),
        ),
{
    let run = s.stage->Deleting_0;
    let (next, some) = delete_next(run, answer);
    lemma_deletion_places(run, answer);
    lemma_deletion_turn_places(s.job, next, some);
    let actions = session_next(s, answer).1;
    lemma_select_concat(asked, actions, server_connected());
    lemma_select_concat(asked, actions, path_touched());
    lemma_select_concat(asked, actions, file_removed());
    if next.stage is Done {
        assert(connections(asked + actions) =~= connections(asked));
    }
}

proof fn lemma_places(job: JobView, answers: Seq<AnswerView>)
    requires
        job.files().len() <= usize::MAX,
        !job.stays(),
        session_follows(job, answers),
    ensures
        places_fit(
            session_after(job, answers).0,
            session_after(job, answers).1,
            cancellation_seen(answers),
        ),
    decreases answers.len(),
{
    if answers.len() > 0 {
        let front = answers.drop_last();
        let last = answers.last();
        lemma_places(job, front);
        lemma_run_wf(job, front);
        law_the_end_is_told_once(job, front);
        let (s, asked) = session_after(job, front);
        assert(answers[answers.len() - 1] == last);
        match s.stage {
            StageView::Deleting(_) => lemma_deleting_places(s, asked, last),
            StageView::Leg { .. } => lemma_leg_places(s, asked, last),
            _ => lemma_other_places(s, asked, last),
        }
    } else {
        broadcast use group_select;

    }
}

/// Whether a transfer that is over says that it has transferred some files.
pub open spec fn succeeds(job: JobView, answers: Seq<AnswerView>, count: nat) -> bool {
    let (s, asked) = session_after(job, answers);
    s.stage is Finished && told(asked).last() == MessageView::Completed(count as usize, 0)
}

/// Whether a transfer deletes its sources on the server of an account and nowhere else. It touches
/// no path of this machine. It connects to that account and to no other one, and that only where it
/// moves files; and runs one command there at most, which removes each file below the base. Where it
/// moves some files, says that it succeeded, and was not cancelled, it has connected; and where it
/// could, it has run the command.
pub open spec fn deletes_on_server(
    job: JobView,
    answers: Seq<AnswerView>,
    account: ProfileView,
    base: Seq<char>,
    files: Seq<Seq<char>>,
) -> bool {
    let asked = session_after(job, answers).1;
    let gone = removals(asked);
    let moved = job.is_cut && files.len() > 0 && succeeds(job, answers, files.len())
        && !cancellation_seen(answers);
    &&& touched(asked).len() == 0
    &&& connections(asked).len() <= 1
    &&& connections(asked).len() == 1 ==> job.is_cut && connections(asked)[0] == account
    &&& gone.len() <= connections(asked).len()
    &&& gone.len() == 1 ==> (gone[0] matches Removal::Remote { command, cancelable } && cancelable
        && removes_files(command, base, files))
    &&& moved ==> connections(asked).len() == 1
    &&& moved && !connection_failed(answers) ==> gone.len() == 1
}

proof fn lemma_deletes_on_server(job: JobView, answers: Seq<AnswerView>)
    requires
        job.files().len() <= usize::MAX,
        !job.stays(),
        session_follows(job, answers),
        job.deletion().profile is Some,
        job.deletion().files == job.files(),
    ensures
        deletes_on_server(
            job,
            answers,
            job.deletion().profile->0,
            job.deletion().base,
            job.files(),
        ),
{
    lemma_places(job, answers);
    lemma_run_wf(job, answers);
    law_only_moved_sources_are_deleted(job, answers);
    law_remove_command_takes_each_file(job.deletion().base, job.files());
    let (s, asked) = session_after(job, answers);
    let gone = removals(asked);
    if gone.len() == 1 {
        assert(gone[0] == all_deletions(job).take(1)[0]);
    }
    if s.stage is Finished {
        law_moved_sources_are_deleted(job, answers);
    }
    if let StageView::Deleting(run) = s.stage {
        assert(connections(asked) == connected_by(run.job, run.stage));
    }
}

/// A transfer between this machine and a server that is given the account which the files come from
/// deletes them there and nowhere else, whatever way the account has to authenticate.
pub proof fn law_sources_of_an_account_are_deleted_there(
    job: JobView,
    config: ConfigView,
    account: ProfileView,
    answers: Seq<AnswerView>,
)
    requires
        job.route == (RouteView::Direct { config, origin: Some(account) }),
        config.files.len() <= usize::MAX,
        session_follows(job, answers),
    ensures
        deletes_on_server(job, answers, account, config.base, config.files),
{
    lemma_deletes_on_server(job, answers);
}

/// A transfer between two servers deletes the files at the source account and nowhere else.
pub proof fn law_relay_deletes_at_the_source(
    job: JobView,
    source: ProfileView,
    target: ProfileView,
    files: Seq<Seq<char>>,
    base: Seq<char>,
    target_path: Seq<char>,
    answers: Seq<AnswerView>,
)
    requires
        job.route == (RouteView::Relay { source, target, files, base, target_path }),
        source.host != target.host || source.port != target.port || source.user != target.user,
        files.len() <= usize::MAX,
        session_follows(job, answers),
    ensures
        deletes_on_server(job, answers, source, base, files),
{
    lemma_deletes_on_server(job, answers);
}

/// A transfer between this machine and a server that is given no account connects to no server. What
/// it deletes is on this machine: the files below the base, one by one and in order, and only where
/// it moves them. Where it moves files and says that it succeeded, it has deleted all of them.
pub proof fn law_local_sources_are_deleted_here(
    job: JobView,
    config: ConfigView,
    answers: Seq<AnswerView>,
)
    requires
        job.route == (RouteView::Direct { config, origin: None }),
        config.files.len() <= usize::MAX,
        session_follows(job, answers),
    ensures
        ({
            let asked = session_after(job, answers).1;
            let gone = removals(asked);
            &&& connections(asked).len() == 0
            &&& gone.len() <= config.files.len()
            &&& gone.len() > 0 ==> job.is_cut
            &&& forall|i: int|
                0 <= i < gone.len() ==> (#[trigger] gone[i] matches Removal::Local { path }
                    && is_below(path, config.base, config.files[i]))
            &&& job.is_cut && config.files.len() > 0 && succeeds(job, answers, config.files.len())
                ==> gone.len() == config.files.len()
        }),
{
    lemma_places(job, answers);
    lemma_run_wf(job, answers);
    law_only_moved_sources_are_deleted(job, answers);
    let (s, asked) = session_after(job, answers);
    let gone = removals(asked);
    assert forall|i: int| 0 <= i < gone.len() implies (#[trigger] gone[i] matches Removal::Local {
        path,
    } && is_below(path, config.base, config.files[i])) by {
        assert(gone[i] == all_deletions(job).take(gone.len() as int)[i]);
        law_paths_are_below_their_base(config.base, config.files[i]);
    }
    if s.stage is Finished {
        law_moved_sources_are_deleted(job, answers);
    }
}

/// The question that a transfer has asked last, where it looks at a path.
spec fn probe_fits(s: SessionView, asked: Seq<ActionView>) -> bool {
    &&& asked.len() > 0
    &&& s.stage matches StageView::Deleting(run) ==> run.stage matches DeleteStage::Probing(index)
        ==> asked.last() == (ActionView::ProbeDir {
        path: path_below(run.job.base, run.job.files[index as int]),
    })
    &&& asked.last() is ProbeDir ==> (s.stage matches StageView::Deleting(run)
        && run.stage is Probing)
}

proof fn lemma_deletion_probe(d: DeleteView, answer: AnswerView)
    requires
        d.wf(),
        d.expects(answer),
    ensures
        ({
            let (next, actions) = delete_next(d, answer);
            &&& next.stage matches DeleteStage::Probing(index) ==> actions.len() > 0
                && actions.last() == (ActionView::ProbeDir {
                path: path_below(next.job.base, next.job.files[index as int]),
            })
            &&& actions.len() > 0 && actions.last() is ProbeDir ==> next.stage is Probing
            &&& actions.len() > 0 && (actions.last() is DeleteTree || actions.last() is DeleteFile)
                ==> answer is IsDir
            &&& answer matches AnswerView::IsDir(is_dir) ==> {
                &&& d.stage is Probing
                &&& !(next.stage is Done)
                &&& actions == seq![
                    if is_dir {
                        ActionView::DeleteTree {
                            path: path_below(d.job.base, d.job.files[d.stage->Probing_0 as int]),
                        }
                    } else {
                        ActionView::DeleteFile {
                            path: path_below(d.job.base, d.job.files[d.stage->Probing_0 as int]),
                        }
                    },
                ]
            }
        }),
{
}

/// Whether an action looks at a path or deletes what is there.
spec fn touches(a: ActionView) -> bool {
    a is ProbeDir || a is DeleteTree || a is DeleteFile
}

proof fn lemma_others_touch_nothing(s: SessionView, answer: AnswerView)
    requires
        s.wf(),
        s.expects(answer),
        !(s.stage is Deleting),
        !(s.stage is AfterLeg),
    ensures
        session_next(s, answer).1.len() > 0 ==> !touches(session_next(s, answer).1.last()),
        !(session_next(s, answer).0.stage is Deleting),
{
    broadcast use group_select;

    match s.stage {
        StageView::Leg { leg, temp_dir, run } => {
            let (next, some) = rsync_next(run, answer);
            lemma_rsync_is_idle(run, answer);
            lemma_leg_turn_is_idle(s.job, leg, temp_dir, next, some);
            lemma_idle_touches_nothing(session_next(s, answer).1);
        },
        StageView::SameServer(run) => lemma_same_server_touches_nothing(run, answer),
        _ => {},
    }
}

proof fn lemma_idle_touches_nothing(actions: Seq<ActionView>)
    requires
        touched(actions).len() == 0,
    ensures
        actions.len() > 0 ==> !touches(actions.last()),
{
}

proof fn lemma_same_server_touches_nothing(run: SameServerView, answer: AnswerView)
    ensures
        ({
            let actions = same_server_next(run, answer).1;
            actions.len() > 0 ==> !touches(actions.last())
        }),
{
}

proof fn lemma_probe(job: JobView, answers: Seq<AnswerView>)
    requires
        job.files().len() <= usize::MAX,
        session_follows(job, answers),
    ensures
        probe_fits(session_after(job, answers).0, session_after(job, answers).1),
        ({
            let asked = session_after(job, answers).1;
            asked.last() is DeleteTree || asked.last() is DeleteFile ==> answers.len() > 0
                && answers.last() is IsDir
        }),
    decreases answers.len(),
{
    if answers.len() > 0 {
        let front = answers.drop_last();
        let last = answers.last();
        lemma_probe(job, front);
        lemma_run_wf(job, front);
        let (s, asked) = session_after(job, front);
        let (next, actions) = session_next(s, last);
        lemma_step_asks(s, last);
        assert((asked + actions).last() == actions.last());
        match s.stage {
            StageView::Deleting(run) => {
                lemma_deletion_probe(run, last);
                let (after, some) = delete_next(run, last);
                lemma_deletion_turn_places(job, after, some);
                assert(after.stage is Done ==> actions.last() is Send);
                assert(!(after.stage is Done) ==> actions == some);
            },
            StageView::AfterLeg { .. } => {
                lemma_arrived_probe(job);
            },
            _ => lemma_others_touch_nothing(s, last),
        }
    }
}

proof fn lemma_arrived_probe(job: JobView)
    ensures
        ({
            let (next, all) = arrived(job);
            &&& all.len() > 0
            &&& next.stage matches StageView::Deleting(run) ==> match run.stage {
                DeleteStage::Probing(index) => all.last() == (ActionView::ProbeDir {
                    path: path_below(run.job.base, run.job.files[index as int]),
                }),
                _ => !touches(all.last()),
            }
            &&& next.stage is Finished ==> !touches(all.last())
            &&& next.stage is Finished || next.stage is Deleting
        }),
{
}

/// What is at a path of this machine is deleted straight after a look at it and as the look found
/// it: a directory with all that is below it, and anything else as a single file. Each look is
/// followed by that deletion, of the same path.
pub proof fn law_directories_go_with_all_below_them(job: JobView, answers: Seq<AnswerView>)
    requires
        job.files().len() <= usize::MAX,
        session_follows(job, answers),
        answers.len() > 0,
    ensures
        ({
            let before = session_after(job, answers.drop_last()).1.last();
            let after = session_after(job, answers).1.last();
            &&& before matches ActionView::ProbeDir { path } ==> (answers.last()
                matches AnswerView::IsDir(is_dir) && after == if is_dir {
                ActionView::DeleteTree { path }
            } else {
                ActionView::DeleteFile { path }
            })
            &&& after is DeleteTree || after is DeleteFile ==> before is ProbeDir
        }),
{
    let front = answers.drop_last();
    lemma_probe(job, front);
    lemma_probe(job, answers);
    lemma_run_wf(job, front);
    let (s, asked) = session_after(job, front);
    let actions = session_next(s, answers.last()).1;
    lemma_step_asks(s, answers.last());
    assert((asked + actions).last() == actions.last());
    if let StageView::Deleting(run) = s.stage {
        lemma_deletion_probe(run, answers.last());
    } else {
        assert(!(answers.last() is IsDir)) by {
            lemma_only_deletions_look(s, answers.last());
        }
    }
}

proof fn lemma_only_deletions_look(s: SessionView, answer: AnswerView)
    requires
        s.expects(answer),
        !(s.stage is Deleting),
    ensures
        !(answer is IsDir),
{
}

/// Whether a shell reads a command as the move or the copy of one file below a base to a target.
pub open spec fn takes_over(
    command: Seq<char>,
    is_cut: bool,
    base: Seq<char>,
    file: Seq<char>,
    target: Seq<char>,
) -> bool {
    exists|path: Seq<char>| #[trigger]
        is_below(path, base, file) && shell_words(command) == Some(
            if is_cut {
                seq!["mv"@, path, target]
            } else {
                seq!["cp"@, "-a"@, path, target]
            },
        )
}

/// A transfer between two accounts with the same host, port and user, however they authenticate,
/// stays on that server. It connects once, to the source account, runs no program of this machine
/// and touches no path of it. For each file in the given order it runs one command there, which can
/// be cancelled: the move of the file below the base to the target where files are moved, and the
/// copy where they are not.
pub proof fn law_one_server_moves_or_copies_there(
    job: JobView,
    source: ProfileView,
    target: ProfileView,
    files: Seq<Seq<char>>,
    base: Seq<char>,
    target_path: Seq<char>,
    answers: Seq<AnswerView>,
)
    requires
        job.route == (RouteView::Relay { source, target, files, base, target_path }),
        source.host == target.host && source.port == target.port && source.user == target.user,
        files.len() <= usize::MAX,
        session_follows(job, answers),
    ensures
        ({
            let asked = session_after(job, answers).1;
            let commands = removals(asked);
            &&& connections(asked) == seq![source]
            &&& commands.len() == starts(asked).len() <= files.len()
            &&& starts(asked) == files.take(starts(asked).len() as int)
            &&& forall|i: int|
                0 <= i < commands.len() ==> (#[trigger] commands[i] matches Removal::Remote {
                    command,
                    cancelable,
                } && cancelable && takes_over(command, job.is_cut, base, files[i], target_path))
            &&& forall|i: int|
                0 <= i < asked.len() ==> {
                    ||| #[trigger] asked[i] is Send
                    ||| asked[i] is PollCancel
                    ||| asked[i] is ConnectSsh
                    ||| asked[i] is RunRemote
                    ||| asked[i] is CloseSsh
                }
        }),
{
    law_same_server_takes_the_files_in_order(job, answers);
    let asked = session_after(job, answers).1;
    let commands = removals(asked);
    assert forall|i: int| 0 <= i < commands.len() implies (#[trigger] commands[i]
        matches Removal::Remote { command, cancelable } && cancelable && takes_over(
        command,
        job.is_cut,
        base,
        files[i],
        target_path,
    )) by {
        let path = path_below(base, files[i]);
        law_paths_are_below_their_base(base, files[i]);
        law_same_server_command_names_the_paths(job.is_cut, path, target_path);
    }
    assert forall|i: int| 0 <= i < asked.len() implies {
        ||| #[trigger] asked[i] is Send
        ||| asked[i] is PollCancel
        ||| asked[i] is ConnectSsh
        ||| asked[i] is RunRemote
        ||| asked[i] is CloseSsh
    } by {
        assert(on_server(asked[i]));
    }
}

} // verus!
