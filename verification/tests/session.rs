use remote_transfer::action::{Action, Answer, ExitReport, OutputEvent, TempDirFault};
use remote_transfer::command::{TransferConfig, TransferDirection};
use remote_transfer::message::ProgressMessage;
use remote_transfer::profile::{Platform, RemoteAuth, RemoteProfile};
use remote_transfer::transfer::{
    build_relay_dir_name, transfer_files_with_progress, transfer_remote_to_remote_with_progress,
    Session,
};

/// What the transfers of a test run into.
struct World {
    rsync: bool,
    sshpass: bool,
    askpass: Result<(), String>,
    temp_dir: Option<Result<String, TempDirFault>>,
    spawn: Result<bool, String>,
    output: Vec<u8>,
    exits: Vec<Result<ExitReport, String>>,
    connects: Vec<Result<(), String>>,
    remotes: Vec<Result<(bool, String), String>>,
    deletions: Vec<Result<(), String>>,
    dirs: Vec<String>,
    /// The number of looks at the cancellation after which there is one.
    cancel_after: usize,
}

fn world() -> World {
    World {
        rsync: true,
        sshpass: true,
        askpass: Ok(()),
        temp_dir: Some(Ok("/tmp/relay".to_string())),
        spawn: Ok(true),
        output: Vec::new(),
        exits: Vec::new(),
        connects: Vec::new(),
        remotes: Vec::new(),
        deletions: Vec::new(),
        dirs: Vec::new(),
        cancel_after: usize::MAX,
    }
}

fn next<T>(list: &mut Vec<T>, usual: T) -> T {
    if list.is_empty() {
        usual
    } else {
        list.remove(0)
    }
}

fn fine() -> ExitReport {
    ExitReport { success: true, code: Some(0), stderr: String::new() }
}

/// Runs a transfer to its end, and returns all that it asked for.
fn drive(start: (Session, Vec<Action>), mut world: World) -> Vec<Action> {
    let (mut session, mut actions) = start;
    let mut asked = Vec::new();
    let mut polls = 0;
    let mut pending: Vec<u8> = Vec::new();
    loop {
        let mut answer = None;
        for action in actions {
            assert!(answer.is_none(), "{:?} comes after a question", action);
            answer = match &action {
                Action::Send(_)
                | Action::RemoveAskpass
                | Action::KillChild
                | Action::CloseSsh
                | Action::RemoveTempDir => None,
                Action::ProbeRsync => Some(Answer::RsyncFound(world.rsync)),
                Action::ProbeSshpass => Some(Answer::SshpassFound(world.sshpass)),
                Action::ExpandKeyPath(path) => {
                    Some(Answer::KeyPath(path.replace('~', "/home/me")))
                }
                Action::CreateAskpass(_) => Some(Answer::AskpassCreated(world.askpass.clone())),
                Action::PollCancel => {
                    polls += 1;
                    Some(Answer::Cancelled(polls > world.cancel_after))
                }
                Action::Spawn(_) => {
                    pending = world.output.clone();
                    Some(Answer::Spawned(world.spawn.clone()))
                }
                Action::ReadOutput => Some(Answer::Output(if pending.is_empty() {
                    OutputEvent::End
                } else {
                    OutputEvent::Byte(pending.remove(0))
                })),
                Action::AwaitChild => {
                    Some(Answer::ChildExited(next(&mut world.exits, Ok(fine()))))
                }
                Action::ConnectSsh(_) => {
                    Some(Answer::Connected(next(&mut world.connects, Ok(()))))
                }
                Action::RunRemote { cancelable, .. } => {
                    assert!(cancelable);
                    let outcome = next(&mut world.remotes, Ok((true, String::new())));
                    Some(Answer::RemoteDone(outcome))
                }
                Action::ProbeDir { path } => {
                    Some(Answer::IsDir(world.dirs.iter().any(|dir| dir == path)))
                }
                Action::DeleteTree { .. } | Action::DeleteFile { .. } => {
                    Some(Answer::LocalDeleted(next(&mut world.deletions, Ok(()))))
                }
                Action::MakeTempDir => {
                    Some(Answer::TempDir(world.temp_dir.take().expect("one directory")))
                }
            };
            asked.push(action);
        }
        match answer {
            None => {
                assert!(session.is_finished());
                assert!(!session.expects(&Answer::Cancelled(false)));
                return asked;
            }
            Some(answer) => {
                assert!(!session.is_finished());
                match session.respond(answer) {
                    Ok((after, more)) => {
                        session = after;
                        actions = more;
                    }
                    Err(_) => panic!("an answer was refused"),
                }
            }
        }
    }
}

fn told(asked: &[Action]) -> Vec<String> {
    asked
        .iter()
        .filter_map(|action| match action {
            Action::Send(message) => Some(show(message)),
            _ => None,
        })
        .collect()
}

fn show(message: &ProgressMessage) -> String {
    match message {
        ProgressMessage::Preparing(text) => format!("preparing {}", text),
        ProgressMessage::PrepareComplete => "prepared".to_string(),
        ProgressMessage::FileStarted(file) => format!("start {}", file),
        ProgressMessage::FileProgress(sent, total) => format!("progress {}/{}", sent, total),
        ProgressMessage::FileCompleted(file) => format!("done {}", file),
        ProgressMessage::TotalProgress(done, total, bytes, all) => {
            format!("total {}/{} {}/{}", done, total, bytes, all)
        }
        ProgressMessage::Completed(good, bad) => format!("end {}/{}", good, bad),
        ProgressMessage::Error(file, reason) => format!("error '{}' {}", file, reason),
    }
}

fn count(asked: &[Action], wanted: &Action) -> usize {
    asked.iter().filter(|action| *action == wanted).count()
}

fn deletes_here(action: &Action) -> bool {
    matches!(action, Action::DeleteTree { .. } | Action::DeleteFile { .. })
}

fn commands(asked: &[Action]) -> Vec<String> {
    asked
        .iter()
        .filter_map(|action| match action {
            Action::Spawn(command) => {
                Some(format!("{} {}", command.program, command.args.join("|")))
            }
            Action::RunRemote { command, .. } => Some(command.clone()),
            _ => None,
        })
        .collect()
}

fn account(host: &str, auth: RemoteAuth) -> RemoteProfile {
    RemoteProfile { host: host.to_string(), port: 22, user: "me".to_string(), auth }
}

fn key() -> RemoteAuth {
    RemoteAuth::KeyFile { path: "~/id".to_string(), passphrase: None }
}

fn password() -> RemoteAuth {
    RemoteAuth::Password { password: "secret".to_string() }
}

fn texts(list: &[&str]) -> Vec<String> {
    list.iter().map(|text| text.to_string()).collect()
}

fn config(direction: TransferDirection, auth: RemoteAuth, files: &[&str]) -> TransferConfig {
    TransferConfig {
        direction,
        profile: account("far", auth),
        source_files: texts(files),
        source_base: "/src/".to_string(),
        target_path: "/dst".to_string(),
    }
}

fn upload(auth: RemoteAuth, files: &[&str], is_cut: bool) -> (Session, Vec<Action>) {
    let config = config(TransferDirection::LocalToRemote, auth, files);
    transfer_files_with_progress(config, is_cut, None, Platform::Unix)
}

fn download(files: &[&str], is_cut: bool) -> (Session, Vec<Action>) {
    let config = config(TransferDirection::RemoteToLocal, key(), files);
    let source = Some(account("far", key()));
    transfer_files_with_progress(config, is_cut, source, Platform::Unix)
}

fn relay(target_host: &str, files: &[&str], is_cut: bool) -> (Session, Vec<Action>) {
    transfer_remote_to_remote_with_progress(
        account("far", key()),
        account(target_host, key()),
        texts(files),
        "/src".to_string(),
        "/dst".to_string(),
        is_cut,
        Platform::Unix,
    )
}

const SSH: &str = "ssh -i '/home/me/id' -o StrictHostKeyChecking=no \
                   -o UserKnownHostsFile=/dev/null -o LogLevel=ERROR";

#[test]
fn files_are_uploaded_in_order() {
    let asked = drive(upload(key(), &["a", "b"], false), world());
    assert_eq!(
        told(&asked),
        texts(&[
            "preparing Transferring 2 file(s)...",
            "prepared",
            "total 0/2 0/0",
            "start a",
            "done a",
            "total 1/2 0/0",
            "start b",
            "done b",
            "total 2/2 0/0",
            "end 2/0",
        ])
    );
    assert_eq!(
        commands(&asked),
        vec![
            format!("rsync -a|--progress|-e|{}|/src/a|me@far:'/dst'", SSH),
            format!("rsync -a|--progress|-e|{}|/src/b|me@far:'/dst'", SSH),
        ]
    );
}

#[test]
fn progress_is_reported_line_by_line() {
    let mut world = world();
    world.output = b"sending\n\r  50 50%\r\n\n 75  75% x\r100 100%".to_vec();
    let asked = drive(upload(key(), &["a"], false), world);
    assert_eq!(
        told(&asked)[3..],
        texts(&[
            "start a",
            "progress 50/100",
            "progress 75/100",
            "progress 100/100",
            "done a",
            "total 1/1 0/0",
            "end 1/0",
        ])
    );
}

#[test]
fn bytes_that_are_no_text_are_replaced() {
    let mut world = world();
    world.output = b"\xff 50%\n10 10% \xff\xfe\n".to_vec();
    let asked = drive(upload(key(), &["a"], false), world);
    assert_eq!(told(&asked)[3..5], texts(&["start a", "progress 10/100"]));
}

#[test]
fn large_counts_do_not_stop_a_transfer() {
    let mut world = world();
    world.output =
        b"18446744073709551615 1%\n184,467,440,737,095,517 100%\r18446744073709551615 1%".to_vec();
    let asked = drive(upload(key(), &["a"], false), world);
    assert_eq!(
        told(&asked)[3..],
        texts(&[
            "start a",
            "progress 184467440737095517/184467440737095517",
            "done a",
            "total 1/1 0/0",
            "end 1/0",
        ])
    );
}

#[test]
fn output_may_be_unreadable() {
    let mut world = world();
    world.spawn = Ok(false);
    let asked = drive(upload(key(), &["a"], false), world);
    assert_eq!(count(&asked, &Action::ReadOutput), 0);
    assert_eq!(told(&asked).last(), Some(&"end 1/0".to_string()));
}

#[test]
fn no_files_are_transferred_at_once() {
    let asked = drive(upload(key(), &[], true), world());
    assert_eq!(
        told(&asked),
        texts(&[
            "preparing Transferring 0 file(s)...",
            "prepared",
            "total 0/0 0/0",
            "end 0/0",
        ])
    );
    let asked = drive(download(&[], true), world());
    assert!(commands(&asked).is_empty());
    assert_eq!(told(&asked).last(), Some(&"end 0/0".to_string()));
}

#[test]
fn missing_rsync_is_an_error() {
    let mut lacking = world();
    lacking.rsync = false;
    let asked = drive(upload(key(), &["a"], true), lacking);
    assert_eq!(
        told(&asked),
        texts(&[
            "preparing Transferring 1 file(s)...",
            "error '' rsync is not installed. Please install rsync to transfer files.",
            "end 0/1",
        ])
    );
    let mut lacking = world();
    lacking.rsync = false;
    let asked = drive(relay("near", &["a", "b"], true), lacking);
    assert_eq!(
        told(&asked),
        texts(&[
            "preparing Transferring 2 file(s) between remote servers...",
            "error '' rsync is not installed. Please install rsync to transfer files.",
            "end 0/2",
        ])
    );
}

#[test]
fn sshpass_is_tried_first() {
    let asked = drive(upload(password(), &["a"], false), world());
    assert!(commands(&asked)[0].starts_with("sshpass -p|secret|rsync|-a|"));
    assert_eq!(count(&asked, &Action::RemoveAskpass), 0);
}

#[test]
fn script_takes_the_place_of_sshpass() {
    let mut lacking = world();
    lacking.sshpass = false;
    let asked = drive(upload(password(), &["a", "b"], false), lacking);
    assert_eq!(count(&asked, &Action::CreateAskpass("secret".to_string())), 1);
    assert_eq!(count(&asked, &Action::RemoveAskpass), 1);
    assert!(commands(&asked)[0].starts_with("rsync -a|--progress|-e|ssh -o "));
    assert_eq!(told(&asked).last(), Some(&"end 2/0".to_string()));
}

#[test]
fn failing_script_fails_the_transfer() {
    let mut lacking = world();
    lacking.sshpass = false;
    lacking.askpass = Err("Failed to create tmp dir: full".to_string());
    let asked = drive(upload(password(), &["a"], false), lacking);
    assert_eq!(
        told(&asked)[3..],
        texts(&["error '' Failed to create tmp dir: full", "end 0/1"])
    );
    assert_eq!(count(&asked, &Action::RemoveAskpass), 0);
}

#[test]
fn failing_rsync_ends_the_transfer() {
    let mut world = world();
    world.sshpass = false;
    world.exits = vec![
        Ok(fine()),
        Ok(ExitReport { success: false, code: Some(23), stderr: " some error\n".to_string() }),
    ];
    let asked = drive(upload(password(), &["a", "b", "c"], true), world);
    assert_eq!(
        told(&asked)[3..],
        texts(&[
            "start a",
            "done a",
            "total 1/3 0/0",
            "start b",
            "error 'b'  some error\n",
            "error ''  some error\n",
            "end 0/3",
        ])
    );
    assert_eq!(count(&asked, &Action::RemoveAskpass), 1);
}

#[test]
fn exit_code_stands_in_for_blank_errors() {
    for (code, text) in [(Some(12), "12"), (None, "-1"), (Some(-7), "-7"), (Some(0), "0")] {
        let mut world = world();
        world.exits =
            vec![Ok(ExitReport { success: false, code, stderr: " \n\t".to_string() })];
        let asked = drive(upload(key(), &["a"], false), world);
        assert_eq!(
            told(&asked)[4..],
            [
                format!("error 'a' rsync exited with code {}", text),
                format!("error '' rsync exited with code {}", text),
                "end 0/1".to_string(),
            ]
        );
    }
}

#[test]
fn rsync_may_not_start_or_be_waited_for() {
    let mut failing = world();
    failing.spawn = Err("not found".to_string());
    let asked = drive(upload(key(), &["a"], false), failing);
    assert_eq!(
        told(&asked)[3..],
        texts(&["start a", "error '' Failed to start rsync: not found", "end 0/1"])
    );
    let mut failing = world();
    failing.exits = vec![Err("lost".to_string())];
    let asked = drive(upload(key(), &["a"], false), failing);
    assert_eq!(
        told(&asked)[3..],
        texts(&["start a", "error '' rsync wait failed: lost", "end 0/1"])
    );
}

#[test]
fn moved_local_files_are_deleted_one_by_one() {
    let mut world = world();
    world.deletions = vec![Ok(()), Err("busy".to_string()), Ok(())];
    world.dirs = texts(&["/src/b"]);
    let asked = drive(upload(key(), &["a", "b", "c"], true), world);
    let gone: Vec<&Action> = asked.iter().filter(|action| deletes_here(action)).collect();
    assert_eq!(
        gone,
        [
            &Action::DeleteFile { path: "/src/a".to_string() },
            &Action::DeleteTree { path: "/src/b".to_string() },
            &Action::DeleteFile { path: "/src/c".to_string() },
        ]
    );
    assert_eq!(
        told(&asked)[12..],
        texts(&["error 'b' Failed to delete source: busy", "end 3/0"])
    );
}

#[test]
fn deleted_paths_are_those_that_rsync_read() {
    for (base, files) in [
        ("/src", vec!["a", "d/b"]),
        ("/src//", vec!["/abs/c", "it's"]),
        ("rel/", vec!["x y"]),
        ("/", vec!["a"]),
    ] {
        let mut config = config(TransferDirection::LocalToRemote, key(), &files);
        config.source_base = base.to_string();
        let start = transfer_files_with_progress(config, true, None, Platform::Unix);
        let asked = drive(start, world());
        let mut read = Vec::new();
        let mut gone = Vec::new();
        for action in &asked {
            match action {
                Action::Spawn(command) => read.push(command.args[4].clone()),
                Action::DeleteTree { path } | Action::DeleteFile { path } => {
                    gone.push(path.clone())
                }
                _ => {}
            }
        }
        assert_eq!(gone.len(), files.len());
        assert_eq!(gone, read);
    }
}

#[test]
fn copied_files_are_not_deleted() {
    for start in [upload(key(), &["a"], false), download(&["a"], false)] {
        let asked = drive(start, world());
        assert!(!asked.iter().any(deletes_here));
        assert_eq!(commands(&asked).len(), 1);
    }
}

#[test]
fn moved_remote_files_are_deleted_by_one_command() {
    let asked = drive(download(&["a", "b'c"], true), world());
    assert_eq!(commands(&asked).len(), 3);
    assert_eq!(
        commands(&asked)[0],
        format!("rsync -a|--progress|-e|{}|me@far:'/src/a'|/dst", SSH)
    );
    assert_eq!(commands(&asked)[2], "rm -rf '/src/a' '/src/b'\\''c'");
    assert_eq!(count(&asked, &Action::CloseSsh), 1);
    assert_eq!(told(&asked).last(), Some(&"end 2/0".to_string()));
}

#[test]
fn failing_deletion_is_told_and_the_transfer_still_succeeds() {
    let cases: Vec<(Vec<Result<(), String>>, Vec<Result<(bool, String), String>>, &str)> = vec![
        (
            vec![Err("refused".to_string())],
            vec![],
            "error '' Failed to connect for source deletion: refused",
        ),
        (
            vec![],
            vec![Ok((false, " denied\n".to_string()))],
            "error '' Failed to delete remote source: denied",
        ),
        (
            vec![],
            vec![Err("lost".to_string())],
            "error '' Failed to run SSH for source deletion: lost",
        ),
    ];
    for (connects, remotes, message) in cases {
        let mut world = world();
        world.connects = connects;
        world.remotes = remotes;
        let asked = drive(download(&["a"], true), world);
        assert_eq!(told(&asked)[6..], texts(&[message, "end 1/0"]));
    }
}

#[test]
fn cancellation_before_the_first_file() {
    let mut world = world();
    world.cancel_after = 0;
    let asked = drive(upload(key(), &["a"], true), world);
    assert_eq!(told(&asked)[3..], texts(&["end 0/0"]));
    assert!(commands(&asked).is_empty());
}

#[test]
fn cancellation_ends_a_running_program() {
    let mut world = world();
    world.sshpass = false;
    world.output = b"10 10%\n".to_vec();
    world.cancel_after = 3;
    let asked = drive(upload(password(), &["a", "b"], true), world);
    assert_eq!(told(&asked)[3..], texts(&["start a", "end 0/0"]));
    assert_eq!(count(&asked, &Action::KillChild), 1);
    assert_eq!(count(&asked, &Action::RemoveAskpass), 1);
    assert_eq!(commands(&asked).len(), 1);
}

#[test]
fn cancellation_hides_what_came_of_the_program() {
    for exit in [
        Ok(fine()),
        Ok(ExitReport { success: false, code: None, stderr: "killed".to_string() }),
        Err("lost".to_string()),
    ] {
        let mut world = world();
        world.exits = vec![exit];
        world.cancel_after = 2;
        let asked = drive(upload(key(), &["a"], true), world);
        assert_eq!(told(&asked)[3..], texts(&["start a", "end 0/0"]));
    }
}

#[test]
fn cancellation_behind_the_last_file_keeps_the_sources() {
    let mut world = world();
    world.cancel_after = 3;
    let asked = drive(upload(key(), &["a"], true), world);
    assert_eq!(
        told(&asked)[3..],
        texts(&["start a", "done a", "total 1/1 0/0", "end 0/0"])
    );
    assert!(!asked.iter().any(deletes_here));
}

#[test]
fn last_message_says_what_happened() {
    let broken =
        || Ok(ExitReport { success: false, code: Some(1), stderr: "broken".to_string() });
    for cancel_after in 0..12 {
        for fails in [false, true] {
            let mut world = world();
            world.cancel_after = cancel_after;
            if fails {
                world.exits = vec![broken()];
            }
            let asked = drive(download(&["a"], true), world);
            let messages = told(&asked);
            let (last, before) = (&messages[messages.len() - 1], &messages[messages.len() - 2]);
            if fails && cancel_after >= 3 {
                assert_eq!((last.as_str(), before.as_str()), ("end 0/1", "error '' broken"));
            } else if cancel_after < 4 {
                assert_eq!(last, "end 0/0");
            } else {
                assert_eq!(last, "end 1/0");
            }
        }
    }
}

#[test]
fn cancellation_during_the_deletion_is_silent() {
    let mut spared = world();
    spared.cancel_after = 4;
    let asked = drive(download(&["a"], true), spared);
    assert_eq!(commands(&asked).len(), 1);
    assert_eq!(told(&asked).last(), Some(&"end 1/0".to_string()));

    let mut lost = world();
    lost.cancel_after = 5;
    lost.connects = vec![Err("refused".to_string())];
    let asked = drive(download(&["a"], true), lost);
    assert_eq!(told(&asked)[3..6], texts(&["start a", "done a", "total 1/1 0/0"]));
    assert_eq!(told(&asked)[6..], texts(&["end 1/0"]));

    let mut stopped = world();
    stopped.cancel_after = 5;
    stopped.remotes = vec![Err("Cancelled".to_string())];
    let asked = drive(download(&["a"], true), stopped);
    assert_eq!(told(&asked)[6..], texts(&["end 1/0"]));
    assert_eq!(count(&asked, &Action::CloseSsh), 1);
}

#[test]
fn relay_downloads_and_uploads() {
    let asked = drive(relay("near", &["a", "b"], true), world());
    assert_eq!(
        told(&asked),
        texts(&[
            "preparing Transferring 2 file(s) between remote servers...",
            "prepared",
            "total 0/2 0/0",
            "start a",
            "done a",
            "total 1/2 0/0",
            "start b",
            "done b",
            "total 2/2 0/0",
            "total 0/2 0/0",
            "start a",
            "done a",
            "total 1/2 0/0",
            "start b",
            "done b",
            "total 2/2 0/0",
            "end 2/0",
        ])
    );
    let rsync = format!("rsync -a|--progress|-e|{}|", SSH);
    assert_eq!(
        commands(&asked),
        vec![
            format!("{}me@far:'/src/a'|/tmp/relay", rsync),
            format!("{}me@far:'/src/b'|/tmp/relay", rsync),
            format!("{}/tmp/relay/a|me@near:'/dst'", rsync),
            format!("{}/tmp/relay/b|me@near:'/dst'", rsync),
            "rm -rf '/src/a' '/src/b'".to_string(),
        ]
    );
    assert_eq!(count(&asked, &Action::RemoveTempDir), 1);
    assert_eq!(count(&asked, &Action::ConnectSsh(account("far", key()))), 1);
}

#[test]
fn relay_needs_a_temporary_directory() {
    let mut homeless = world();
    homeless.temp_dir = Some(Err(TempDirFault::NoHome));
    let asked = drive(relay("near", &["a"], false), homeless);
    assert_eq!(
        told(&asked)[1..],
        texts(&["error '' Failed to get home directory", "end 0/1"])
    );
    let mut full = world();
    full.temp_dir = Some(Err(TempDirFault::NotCreated("full".to_string())));
    let asked = drive(relay("near", &["a"], false), full);
    assert_eq!(
        told(&asked)[1..],
        texts(&["error '' Failed to create temp dir: full", "end 0/1"])
    );
    assert_eq!(count(&asked, &Action::RemoveTempDir), 0);
}

#[test]
fn either_leg_of_a_relay_can_fail() {
    let failure =
        || Ok(ExitReport { success: false, code: Some(1), stderr: "broken".to_string() });
    let mut first = world();
    first.exits = vec![failure()];
    let asked = drive(relay("near", &["a"], true), first);
    assert_eq!(
        told(&asked)[3..],
        texts(&["start a", "error 'a' broken", "error '' Download failed: broken", "end 0/1"])
    );
    assert_eq!(asked.last(), Some(&Action::RemoveTempDir));
    let mut second = world();
    second.exits = vec![Ok(fine()), failure()];
    let asked = drive(relay("near", &["a"], true), second);
    assert_eq!(
        told(&asked)[7..],
        texts(&["start a", "error 'a' broken", "error '' Upload failed: broken", "end 0/1"])
    );
    assert_eq!(count(&asked, &Action::RemoveTempDir), 1);
    assert_eq!(commands(&asked).len(), 2);
}

#[test]
fn cancelled_relay_removes_its_directory() {
    for cancel_after in 0..10 {
        let mut world = world();
        world.cancel_after = cancel_after;
        let asked = drive(relay("near", &["a"], true), world);
        assert_eq!(count(&asked, &Action::MakeTempDir), 1);
        assert_eq!(count(&asked, &Action::RemoveTempDir), 1);
        let closing = if cancel_after < 8 { "end 0/0" } else { "end 1/0" };
        assert_eq!(told(&asked).last(), Some(&closing.to_string()), "{}", cancel_after);
    }
}

#[test]
fn files_on_one_server_are_moved_there() {
    let asked = drive(relay("far", &["a", "b'c"], true), world());
    assert_eq!(
        commands(&asked),
        texts(&["mv '/src/a' '/dst'", "mv '/src/b'\\''c' '/dst'"])
    );
    assert_eq!(
        told(&asked),
        texts(&[
            "preparing Transferring 2 file(s) between remote servers...",
            "prepared",
            "total 0/2 0/0",
            "start a",
            "done a",
            "total 1/2 0/0",
            "start b'c",
            "done b'c",
            "total 2/2 0/0",
            "end 2/0",
        ])
    );
    assert_eq!(count(&asked, &Action::ConnectSsh(account("far", key()))), 1);
    assert_eq!(count(&asked, &Action::CloseSsh), 1);
    assert_eq!(count(&asked, &Action::ProbeRsync), 0);
}

#[test]
fn files_on_one_server_are_copied_there() {
    let asked = drive(relay("far", &["a"], false), world());
    assert_eq!(commands(&asked), texts(&["cp -a '/src/a' '/dst'"]));
    let asked = drive(relay("far", &[], false), world());
    assert_eq!(told(&asked).last(), Some(&"end 0/0".to_string()));
    assert_eq!(count(&asked, &Action::CloseSsh), 1);
}

#[test]
fn transfer_on_one_server_can_fail() {
    let mut unreachable = world();
    unreachable.connects = vec![Err("SSH connection failed: refused".to_string())];
    let asked = drive(relay("far", &["a"], false), unreachable);
    assert_eq!(
        told(&asked)[3..],
        texts(&["error '' SSH connection failed: refused", "end 0/1"])
    );
    assert_eq!(count(&asked, &Action::CloseSsh), 0);

    for (is_cut, verb) in [(true, "move"), (false, "copy")] {
        let mut denied = world();
        denied.remotes = vec![Ok((false, "\tdenied \n".to_string()))];
        let asked = drive(relay("far", &["a", "b"], is_cut), denied);
        assert_eq!(
            told(&asked)[3..],
            [
                "start a".to_string(),
                format!("error 'a' Failed to {} 'a': denied", verb),
                format!("error '' Failed to {} 'a': denied", verb),
                "end 0/2".to_string(),
            ]
        );
        assert_eq!(count(&asked, &Action::CloseSsh), 1);
    }

    let mut lost = world();
    lost.remotes = vec![Err("Failed to open channel: gone".to_string())];
    let asked = drive(relay("far", &["a"], false), lost);
    assert_eq!(
        told(&asked)[3..],
        texts(&["start a", "error '' Failed to open channel: gone", "end 0/1"])
    );
}

#[test]
fn transfer_on_one_server_can_be_cancelled() {
    let mut early = world();
    early.cancel_after = 0;
    let asked = drive(relay("far", &["a"], true), early);
    assert!(commands(&asked).is_empty());
    assert_eq!(told(&asked)[3..], texts(&["end 0/0"]));

    let mut during = world();
    during.cancel_after = 1;
    during.remotes = vec![Err("Cancelled".to_string())];
    let asked = drive(relay("far", &["a", "b"], true), during);
    assert_eq!(told(&asked)[3..], texts(&["start a", "end 0/0"]));
    assert_eq!(count(&asked, &Action::CloseSsh), 1);

    let mut late = world();
    late.cancel_after = 1;
    let asked = drive(relay("far", &["a"], true), late);
    assert_eq!(told(&asked)[3..], texts(&["start a", "done a", "total 1/1 0/0", "end 0/0"]));
}

#[test]
fn unexpected_answers_are_handed_back() {
    let (session, actions) = upload(key(), &["a"], false);
    assert_eq!(actions.last(), Some(&Action::ProbeRsync));
    assert!(!session.expects(&Answer::Output(OutputEvent::End)));
    let session = session.respond(Answer::Cancelled(true)).expect_err("not asked");
    let session = session.respond(Answer::SshpassFound(true)).expect_err("not asked");
    assert!(session.respond(Answer::RsyncFound(true)).is_ok());
}

#[test]
fn relay_directories_are_named_by_the_time() {
    assert_eq!(build_relay_dir_name(0), "r2r_0");
    assert_eq!(build_relay_dir_name(1700000000123456789), "r2r_1700000000123456789");
    assert_eq!(
        build_relay_dir_name(u128::MAX),
        "r2r_340282366920938463463374607431768211455"
    );
}
