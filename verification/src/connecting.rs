//! What is asked for on the way to a connection and to the end of a command, by the account and by
//! all that came back.

use crate::profile::{AuthView, ProfileView};
use crate::ssh::{
    connect_follows, connect_next, connect_stage_after, error_output, exec_after, exec_follows,
    last_exit_status, lemma_exec_history, ConnectActionView, ConnectAnswerView, ConnectStage,
    EventView, ExecActionView, ExecAnswerView,
};
use crate::text::lossy_text;
use vstd::prelude::*;

verus! {

/// All that an attempt to connect to an account asks for, given the answers.
pub open spec fn connect_asked(profile: ProfileView, answers: Seq<ConnectAnswerView>) -> Seq<
    ConnectActionView,
>
    decreases answers.len(),
{
    if answers.len() == 0 {
        seq![ConnectActionView::MakeRuntime]
    } else {
        let front = answers.drop_last();
        connect_asked(profile, front).push(
            connect_next(profile, connect_stage_after(profile, front), answers.last()).1,
        )
    }
}

/// The reason of an answer that a step failed with, if it did: the password or the key may also be
/// refused.
pub open spec fn step_failure(account: ProfileView, answer: ConnectAnswerView) -> Option<
    Seq<char>,
> {
    match answer {
        ConnectAnswerView::RuntimeMade(Err(reason)) => Some("Failed to create runtime: "@ + reason),
        ConnectAnswerView::Dialed(Err(reason)) => Some("SSH connection failed: "@ + reason),
        ConnectAnswerView::KeyLoaded(Err(reason)) => Some("Failed to load key: "@ + reason),
        ConnectAnswerView::HashNegotiated(Err(reason)) => Some(
            "RSA algorithm negotiation failed: "@ + reason,
        ),
        ConnectAnswerView::Authenticated(Err(reason)) => match account.auth {
            AuthView::Password { .. } => Some("Password auth failed: "@ + reason),
            AuthView::KeyFile { .. } => Some("Key auth failed: "@ + reason),
        },
        ConnectAnswerView::Authenticated(Ok(false)) => Some("Authentication rejected by server"@),
        _ => None,
    }
}

/// Whether an action is the right one at its place in an attempt that has not failed so far: the
/// runtime, then the host and the port of the account, then what the account has to offer, in the
/// name of its user.
pub open spec fn is_step(
    account: ProfileView,
    answers: Seq<ConnectAnswerView>,
    place: int,
    action: ConnectActionView,
) -> bool {
    if place == 0 {
        action is MakeRuntime
    } else if place == 1 {
        action matches ConnectActionView::Dial { host, port, settings } && {
            &&& host == account.host
            &&& port == account.port
            &&& settings.inactivity_timeout_secs == 24 * 60 * 60
            &&& settings.keepalive_interval_secs == 30
            &&& settings.keepalive_max == 3
        }
    } else {
        match account.auth {
            AuthView::Password { password } => if place == 2 {
                action == (ConnectActionView::TryPassword { user: account.user, password })
            } else {
                place == 3 && action is Ready
            },
            AuthView::KeyFile { path, passphrase } => if place == 2 {
                action == ConnectActionView::ExpandKeyPath(path)
            } else if place == 3 {
                action matches ConnectActionView::LoadKey { path: loaded, passphrase: secret } && {
                    &&& answers[2] == ConnectAnswerView::KeyPath(loaded)
                    &&& secret == passphrase
                }
            } else if place == 4 {
                action is NegotiateHash
            } else if place == 5 {
                action == (ConnectActionView::TryKey { user: account.user })
            } else {
                place == 6 && action is Ready
            },
        }
    }
}

/// The stage at each place of an attempt that has not failed.
spec fn stage_at(account: ProfileView, place: int) -> ConnectStage {
    if place == 0 {
        ConnectStage::Runtime
    } else if place == 1 {
        ConnectStage::Dialing
    } else if account.auth is Password {
        if place == 2 {
            ConnectStage::Password
        } else {
            ConnectStage::Ready
        }
    } else if place == 2 {
        ConnectStage::KeyPath
    } else if place == 3 {
        ConnectStage::LoadingKey
    } else if place == 4 {
        ConnectStage::Hash
    } else if place == 5 {
        ConnectStage::Key
    } else {
        ConnectStage::Ready
    }
}

/// An attempt to connect asks for one thing after the other, each at its place, with the host, the
/// port, the user and the secrets of the account, and with nothing of any other. It goes on as long
/// as nothing fails, and ends with the reason of the first failure.
pub proof fn law_connection_uses_the_account(
    account: ProfileView,
    answers: Seq<ConnectAnswerView>,
)
    requires
        connect_follows(account, answers),
    ensures
        ({
            let asked = connect_asked(account, answers);
            &&& asked.len() == answers.len() + 1
            &&& forall|i: int|
                0 <= i < answers.len() - 1 ==> step_failure(account, #[trigger] answers[i]) is None
            &&& forall|i: int|
                0 <= i < answers.len() ==> is_step(account, answers, i, #[trigger] asked[i])
            &&& answers.len() == 0 ==> asked.last() is MakeRuntime
            &&& answers.len() > 0 ==> match step_failure(account, answers.last()) {
                Some(reason) => asked.last() == ConnectActionView::Fail(reason),
                None => is_step(account, answers, answers.len() as int, asked.last()),
            }
        }),
{
    lemma_connect_asked(account, answers);
}

proof fn lemma_connect_asked(account: ProfileView, answers: Seq<ConnectAnswerView>)
    requires
        connect_follows(account, answers),
    ensures
        ({
            let asked = connect_asked(account, answers);
            let stage = connect_stage_after(account, answers);
            &&& asked.len() == answers.len() + 1
            &&& forall|i: int|
                0 <= i < answers.len() - 1 ==> step_failure(account, #[trigger] answers[i]) is None
            &&& forall|i: int|
                0 <= i < answers.len() ==> is_step(account, answers, i, #[trigger] asked[i])
            &&& answers.len() == 0 ==> asked.last() is MakeRuntime
            &&& answers.len() > 0 ==> match step_failure(account, answers.last()) {
                Some(reason) => asked.last() == ConnectActionView::Fail(reason) && stage is Failed,
                None => is_step(account, answers, answers.len() as int, asked.last()) && stage
                    == stage_at(account, answers.len() as int),
            }
        }),
    decreases answers.len(),
{
    if answers.len() > 0 {
        let front = answers.drop_last();
        let asked = connect_asked(account, answers);
        let before = connect_asked(account, front);
        lemma_connect_asked(account, front);
        assert(connect_stage_after(account, front) == stage_at(account, front.len() as int)) by {
            if front.len() > 0 {
                assert(step_failure(account, front.last()) is None);
            }
        }
        assert(front.len() > 2 ==> front[2] == answers[2]);
        assert forall|i: int| 0 <= i < answers.len() - 1 implies step_failure(
            account,
            #[trigger] answers[i],
        ) is None by {
            assert(answers[i] == front[i]);
            if i == front.len() - 1 {
                assert(front[i] == front.last());
            }
        }
        assert forall|i: int| 0 <= i < answers.len() implies is_step(
            account,
            answers,
            i,
            #[trigger] asked[i],
        ) by {
            assert(asked[i] == before[i]);
            if i == front.len() {
                assert(before[i] == before.last());
            }
        }
        assert(answers[answers.len() - 1] == answers.last());
    }
}

/// A command on a server is run as it was given, once the channel is open. It is waited for until
/// the channel closes; its outcome is then whether the last exit status was zero, and the error
/// output that came. A channel that does not open, a command that does not start and a cancellation
/// end it, each with its own reason.
pub proof fn law_command_is_run_as_given(
    cmd: Seq<char>,
    cancelable: bool,
    answers: Seq<ExecAnswerView>,
)
    requires
        exec_follows(cmd, cancelable, answers),
    ensures
        ({
            let action = exec_after(cmd, cancelable, answers).1;
            let waiting = if cancelable {
                ExecActionView::PollCancel
            } else {
                ExecActionView::AwaitEvent
            };
            if answers.len() == 0 {
                action is OpenChannel
            } else {
                action == match answers.last() {
                    ExecAnswerView::Opened(Ok(_)) => ExecActionView::Start(cmd),
                    ExecAnswerView::Opened(Err(reason)) => ExecActionView::Finish(
                        Err("Failed to open channel: "@ + reason),
                    ),
                    ExecAnswerView::Started(Ok(_)) => waiting,
                    ExecAnswerView::Started(Err(reason)) => ExecActionView::Finish(
                        Err("Failed to exec command: "@ + reason),
                    ),
                    ExecAnswerView::Cancelled(true) => ExecActionView::Abort {
                        description: "cancelled"@,
                        error: "Cancelled"@,
                    },
                    ExecAnswerView::Cancelled(false) => ExecActionView::AwaitEvent,
                    ExecAnswerView::Event(EventView::Closed) => ExecActionView::Finish(
                        Ok(
                            (
                                last_exit_status(answers) == Some(0u32),
                                lossy_text(error_output(answers)),
                            ),
                        ),
                    ),
                    ExecAnswerView::Event(_) => waiting,
                }
            }
        }),
{
    if answers.len() > 0 {
        lemma_exec_history(cmd, cancelable, answers.drop_last());
    }
}

/// A command asks one question at a time and takes any answer to it and no other, until it is over.
pub proof fn law_command_takes_the_answer_to_its_question(
    cmd: Seq<char>,
    cancelable: bool,
    answers: Seq<ExecAnswerView>,
    answer: ExecAnswerView,
)
    requires
        exec_follows(cmd, cancelable, answers),
    ensures
        exec_follows(cmd, cancelable, answers.push(answer)) <==> match exec_after(
            cmd,
            cancelable,
            answers,
        ).1 {
            ExecActionView::OpenChannel => answer is Opened,
            ExecActionView::Start(_) => answer is Started,
            ExecActionView::PollCancel => answer is Cancelled,
            ExecActionView::AwaitEvent => answer is Event,
            ExecActionView::Abort { .. } => false,
            ExecActionView::Finish(_) => false,
        },
{
    assert(answers.push(answer).drop_last() =~= answers);
}

/// An attempt to connect asks one question at a time and takes any answer to it and no other, until
/// it is over.
pub proof fn law_connection_takes_the_answer_to_its_question(
    account: ProfileView,
    answers: Seq<ConnectAnswerView>,
    answer: ConnectAnswerView,
)
    requires
        connect_follows(account, answers),
    ensures
        connect_follows(account, answers.push(answer)) <==> match connect_asked(
            account,
            answers,
        ).last() {
            ConnectActionView::MakeRuntime => answer is RuntimeMade,
            ConnectActionView::Dial { .. } => answer is Dialed,
            ConnectActionView::TryPassword { .. } => answer is Authenticated,
            ConnectActionView::ExpandKeyPath(_) => answer is KeyPath,
            ConnectActionView::LoadKey { .. } => answer is KeyLoaded,
            ConnectActionView::NegotiateHash => answer is HashNegotiated,
            ConnectActionView::TryKey { .. } => answer is Authenticated,
            ConnectActionView::Ready => false,
            ConnectActionView::Fail(_) => false,
        },
{
    assert(answers.push(answer).drop_last() =~= answers);
    lemma_connect_asked(account, answers);
}

} // verus!
