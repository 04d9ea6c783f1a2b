use remote_transfer::profile::{RemoteAuth, RemoteProfile};
use remote_transfer::ssh::{
    connect, exec, exec_cancelable, make_ssh_settings, ChannelEvent, ConnectAction, ConnectAnswer,
    ExecAction, ExecAnswer, RemoteCommand, SshConnect, SshSettings, POLL_INTERVAL_MS,
};

fn with_password() -> RemoteProfile {
    RemoteProfile {
        host: "example.org".to_string(),
        port: 2222,
        user: "me".to_string(),
        auth: RemoteAuth::Password { password: "secret".to_string() },
    }
}

fn with_key(passphrase: Option<&str>) -> RemoteProfile {
    RemoteProfile {
        host: "example.org".to_string(),
        port: 22,
        user: "me".to_string(),
        auth: RemoteAuth::KeyFile {
            path: "~/id".to_string(),
            passphrase: passphrase.map(|secret| secret.to_string()),
        },
    }
}

fn answer(attempt: &mut SshConnect, given: ConnectAnswer) -> ConnectAction {
    assert!(attempt.expects(&given));
    attempt.advance(&given)
}

fn dialed(profile: &RemoteProfile) -> (SshConnect, ConnectAction) {
    let (mut attempt, first) = connect(profile);
    assert_eq!(first, ConnectAction::MakeRuntime);
    answer(&mut attempt, ConnectAnswer::RuntimeMade(Ok(())));
    let action = answer(&mut attempt, ConnectAnswer::Dialed(Ok(())));
    (attempt, action)
}

fn fail(reason: &str) -> ConnectAction {
    ConnectAction::Fail(reason.to_string())
}

#[test]
fn connections_may_be_silent_for_a_day() {
    assert_eq!(
        make_ssh_settings(),
        SshSettings {
            inactivity_timeout_secs: 86400,
            keepalive_interval_secs: 30,
            keepalive_max: 3,
        }
    );
    assert_eq!(POLL_INTERVAL_MS, 100);
}

#[test]
fn password_is_offered_and_accepted() {
    let (mut attempt, first) = connect(&with_password());
    assert_eq!(first, ConnectAction::MakeRuntime);
    assert_eq!(
        answer(&mut attempt, ConnectAnswer::RuntimeMade(Ok(()))),
        ConnectAction::Dial {
            host: "example.org".to_string(),
            port: 2222,
            settings: make_ssh_settings(),
        }
    );
    assert_eq!(
        answer(&mut attempt, ConnectAnswer::Dialed(Ok(()))),
        ConnectAction::TryPassword { user: "me".to_string(), password: "secret".to_string() }
    );
    assert_eq!(
        answer(&mut attempt, ConnectAnswer::Authenticated(Ok(true))),
        ConnectAction::Ready
    );
    assert!(!attempt.expects(&ConnectAnswer::Authenticated(Ok(true))));
}

#[test]
fn key_is_loaded_and_offered() {
    let (mut attempt, action) = dialed(&with_key(Some("open")));
    assert_eq!(action, ConnectAction::ExpandKeyPath("~/id".to_string()));
    assert_eq!(
        answer(&mut attempt, ConnectAnswer::KeyPath("/home/me/id".to_string())),
        ConnectAction::LoadKey {
            path: "/home/me/id".to_string(),
            passphrase: Some("open".to_string()),
        }
    );
    assert_eq!(
        answer(&mut attempt, ConnectAnswer::KeyLoaded(Ok(()))),
        ConnectAction::NegotiateHash
    );
    assert_eq!(
        answer(&mut attempt, ConnectAnswer::HashNegotiated(Ok(()))),
        ConnectAction::TryKey { user: "me".to_string() }
    );
    assert_eq!(
        answer(&mut attempt, ConnectAnswer::Authenticated(Ok(true))),
        ConnectAction::Ready
    );
}

#[test]
fn key_may_have_no_passphrase() {
    let (mut attempt, _) = dialed(&with_key(None));
    assert_eq!(
        answer(&mut attempt, ConnectAnswer::KeyPath("k".to_string())),
        ConnectAction::LoadKey { path: "k".to_string(), passphrase: None }
    );
}

#[test]
fn rejection_is_no_connection() {
    let (mut attempt, _) = dialed(&with_password());
    assert_eq!(
        answer(&mut attempt, ConnectAnswer::Authenticated(Ok(false))),
        fail("Authentication rejected by server")
    );
    let (mut attempt, _) = dialed(&with_key(None));
    answer(&mut attempt, ConnectAnswer::KeyPath("k".to_string()));
    answer(&mut attempt, ConnectAnswer::KeyLoaded(Ok(())));
    answer(&mut attempt, ConnectAnswer::HashNegotiated(Ok(())));
    assert_eq!(
        answer(&mut attempt, ConnectAnswer::Authenticated(Ok(false))),
        fail("Authentication rejected by server")
    );
}

#[test]
fn each_step_of_a_connection_can_fail() {
    let (mut attempt, _) = connect(&with_password());
    assert_eq!(
        answer(&mut attempt, ConnectAnswer::RuntimeMade(Err("x".to_string()))),
        fail("Failed to create runtime: x")
    );
    let (mut attempt, _) = connect(&with_password());
    answer(&mut attempt, ConnectAnswer::RuntimeMade(Ok(())));
    assert_eq!(
        answer(&mut attempt, ConnectAnswer::Dialed(Err("refused".to_string()))),
        fail("SSH connection failed: refused")
    );
    let (mut attempt, _) = dialed(&with_password());
    assert_eq!(
        answer(&mut attempt, ConnectAnswer::Authenticated(Err("x".to_string()))),
        fail("Password auth failed: x")
    );
    let (mut attempt, _) = dialed(&with_key(None));
    answer(&mut attempt, ConnectAnswer::KeyPath("k".to_string()));
    assert_eq!(
        answer(&mut attempt, ConnectAnswer::KeyLoaded(Err("x".to_string()))),
        fail("Failed to load key: x")
    );
    let (mut attempt, _) = dialed(&with_key(None));
    answer(&mut attempt, ConnectAnswer::KeyPath("k".to_string()));
    answer(&mut attempt, ConnectAnswer::KeyLoaded(Ok(())));
    assert_eq!(
        answer(&mut attempt, ConnectAnswer::HashNegotiated(Err("x".to_string()))),
        fail("RSA algorithm negotiation failed: x")
    );
    let (mut attempt, _) = dialed(&with_key(None));
    answer(&mut attempt, ConnectAnswer::KeyPath("k".to_string()));
    answer(&mut attempt, ConnectAnswer::KeyLoaded(Ok(())));
    answer(&mut attempt, ConnectAnswer::HashNegotiated(Ok(())));
    assert_eq!(
        answer(&mut attempt, ConnectAnswer::Authenticated(Err("x".to_string()))),
        fail("Key auth failed: x")
    );
}

#[test]
fn connection_takes_answers_in_turn_only() {
    let (attempt, _) = connect(&with_password());
    assert!(!attempt.expects(&ConnectAnswer::Dialed(Ok(()))));
    assert!(!attempt.expects(&ConnectAnswer::Authenticated(Ok(true))));
    let (attempt, _) = dialed(&with_password());
    assert!(!attempt.expects(&ConnectAnswer::KeyLoaded(Ok(()))));
}

fn step(command: &mut RemoteCommand, given: ExecAnswer) -> ExecAction {
    assert!(command.expects(&given));
    command.advance(&given)
}

fn started(cancelable: bool) -> RemoteCommand {
    let (mut command, first) = exec_cancelable("rm -rf 'x'", cancelable);
    assert_eq!(first, ExecAction::OpenChannel);
    assert_eq!(
        step(&mut command, ExecAnswer::Opened(Ok(()))),
        ExecAction::Start("rm -rf 'x'".to_string())
    );
    let next = step(&mut command, ExecAnswer::Started(Ok(())));
    if cancelable {
        assert_eq!(next, ExecAction::PollCancel);
    } else {
        assert_eq!(next, ExecAction::AwaitEvent);
    }
    command
}

fn data(bytes: &[u8], ext: u32) -> ExecAnswer {
    ExecAnswer::Event(ChannelEvent::ExtendedData { data: bytes.to_vec(), ext })
}

#[test]
fn outcome_of_a_command_is_what_came() {
    let mut command = started(false);
    assert_eq!(step(&mut command, data(b"no ", 1)), ExecAction::AwaitEvent);
    assert_eq!(step(&mut command, data(b"ignored", 2)), ExecAction::AwaitEvent);
    assert_eq!(
        step(&mut command, ExecAnswer::Event(ChannelEvent::Timeout)),
        ExecAction::AwaitEvent
    );
    assert_eq!(
        step(&mut command, ExecAnswer::Event(ChannelEvent::Other)),
        ExecAction::AwaitEvent
    );
    assert_eq!(
        step(&mut command, ExecAnswer::Event(ChannelEvent::ExitStatus(1))),
        ExecAction::AwaitEvent
    );
    assert_eq!(step(&mut command, data(b"room", 1)), ExecAction::AwaitEvent);
    assert_eq!(
        step(&mut command, ExecAnswer::Event(ChannelEvent::Closed)),
        ExecAction::Finish(Ok((false, "no room".to_string())))
    );
    assert!(!command.expects(&ExecAnswer::Event(ChannelEvent::Closed)));
}

#[test]
fn last_exit_status_decides() {
    let mut command = started(false);
    step(&mut command, ExecAnswer::Event(ChannelEvent::ExitStatus(1)));
    step(&mut command, ExecAnswer::Event(ChannelEvent::ExitStatus(0)));
    assert_eq!(
        step(&mut command, ExecAnswer::Event(ChannelEvent::Closed)),
        ExecAction::Finish(Ok((true, String::new())))
    );
}

#[test]
fn command_without_an_exit_status_has_failed() {
    let mut command = started(false);
    assert_eq!(
        step(&mut command, ExecAnswer::Event(ChannelEvent::Closed)),
        ExecAction::Finish(Ok((false, String::new())))
    );
}

#[test]
fn error_output_is_decoded_as_a_whole() {
    let mut command = started(false);
    step(&mut command, data(b"caf\xc3", 1));
    step(&mut command, data(b"\xa9 \xff!", 1));
    assert_eq!(
        step(&mut command, ExecAnswer::Event(ChannelEvent::Closed)),
        ExecAction::Finish(Ok((false, "café \u{fffd}!".to_string())))
    );
}

#[test]
fn cancelled_command_is_given_up() {
    let mut command = started(true);
    assert_eq!(step(&mut command, ExecAnswer::Cancelled(false)), ExecAction::AwaitEvent);
    assert_eq!(
        step(&mut command, ExecAnswer::Event(ChannelEvent::Timeout)),
        ExecAction::PollCancel
    );
    assert_eq!(
        step(&mut command, ExecAnswer::Cancelled(true)),
        ExecAction::Abort {
            description: "cancelled".to_string(),
            error: "Cancelled".to_string(),
        }
    );
    assert!(!command.expects(&ExecAnswer::Cancelled(true)));
}

#[test]
fn plain_command_is_never_given_up() {
    let (command, first) = exec("ls");
    assert_eq!(first, ExecAction::OpenChannel);
    assert!(!command.cancelable);
    let command = started(false);
    assert!(!command.expects(&ExecAnswer::Cancelled(true)));
}

#[test]
fn command_may_not_start() {
    let (mut command, _) = exec("ls");
    assert_eq!(
        step(&mut command, ExecAnswer::Opened(Err("closed".to_string()))),
        ExecAction::Finish(Err("Failed to open channel: closed".to_string()))
    );
    let (mut command, _) = exec("ls");
    step(&mut command, ExecAnswer::Opened(Ok(())));
    assert_eq!(
        step(&mut command, ExecAnswer::Started(Err("closed".to_string()))),
        ExecAction::Finish(Err("Failed to exec command: closed".to_string()))
    );
}
