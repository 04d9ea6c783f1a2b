use remote_transfer::command::{
    build_remove_command, build_rsync_command, build_same_server_command, join_path, CommandSpec,
    EnvValue, Login, TransferConfig, TransferDirection,
};
use remote_transfer::profile::{
    build_remote_spec, build_ssh_option, is_same_server, Platform, RemoteAuth, RemoteProfile,
};

fn with_password(port: u16) -> RemoteProfile {
    RemoteProfile {
        host: "example.org".to_string(),
        port,
        user: "me".to_string(),
        auth: RemoteAuth::Password { password: "se'cret".to_string() },
    }
}

fn with_key(port: u16) -> RemoteProfile {
    RemoteProfile {
        host: "example.org".to_string(),
        port,
        user: "me".to_string(),
        auth: RemoteAuth::KeyFile { path: "~/.ssh/id".to_string(), passphrase: None },
    }
}

fn upload(profile: RemoteProfile) -> TransferConfig {
    TransferConfig {
        direction: TransferDirection::LocalToRemote,
        profile,
        source_files: vec!["a".to_string()],
        source_base: "/src//".to_string(),
        target_path: "/it's/dst".to_string(),
    }
}

#[test]
fn same_server_needs_host_port_and_user() {
    let a = with_password(22);
    assert!(is_same_server(&a, &with_key(22)));
    assert!(!is_same_server(&a, &with_password(23)));
    let mut other = with_password(22);
    other.host = "example.com".to_string();
    assert!(!is_same_server(&a, &other));
    let mut other = with_password(22);
    other.user = "you".to_string();
    assert!(!is_same_server(&a, &other));
}

#[test]
fn ssh_option_names_port_key_and_host_key_options() {
    assert_eq!(
        build_ssh_option(&with_password(22), "unused", Platform::Unix),
        "ssh -o StrictHostKeyChecking=no -o UserKnownHostsFile=/dev/null -o LogLevel=ERROR"
    );
    assert_eq!(
        build_ssh_option(&with_password(2222), "", Platform::Windows),
        "ssh -p 2222 -o StrictHostKeyChecking=no -o UserKnownHostsFile=NUL -o LogLevel=ERROR"
    );
    assert_eq!(
        build_ssh_option(&with_key(65535), "/home/o'me/.ssh/id", Platform::Unix),
        "ssh -p 65535 -i '/home/o'\\''me/.ssh/id' -o StrictHostKeyChecking=no \
         -o UserKnownHostsFile=/dev/null -o LogLevel=ERROR"
    );
    assert_eq!(
        build_ssh_option(&with_key(0), "k", Platform::Unix),
        "ssh -p 0 -i 'k' -o StrictHostKeyChecking=no -o UserKnownHostsFile=/dev/null \
         -o LogLevel=ERROR"
    );
}

#[test]
fn remote_spec_quotes_the_path() {
    let profile = with_key(22);
    assert_eq!(build_remote_spec(&profile, "/a b"), "me@example.org:'/a b'");
    assert_eq!(build_remote_spec(&profile, "/a'b"), "me@example.org:'/a'\\''b'");
    assert_eq!(build_remote_spec(&profile, ""), "me@example.org:''");
    assert_eq!(build_remote_spec(&profile, "$(x) `y` \"z\""), "me@example.org:'$(x) `y` \"z\"'");
}

#[test]
fn paths_are_joined_with_one_slash() {
    assert_eq!(join_path("/base", "f"), "/base/f");
    assert_eq!(join_path("/base///", "d/f"), "/base/d/f");
    assert_eq!(join_path("/", "f"), "/f");
    assert_eq!(join_path("", "f"), "/f");
}

#[test]
fn rsync_uploads_with_a_key() {
    assert_eq!(
        build_rsync_command(&upload(with_key(22)), "ssh", Login::Key, "a b"),
        CommandSpec {
            program: "rsync".to_string(),
            args: vec![
                "-a".to_string(),
                "--progress".to_string(),
                "-e".to_string(),
                "ssh".to_string(),
                "/src/a b".to_string(),
                "me@example.org:'/it'\\''s/dst'".to_string(),
            ],
            env: vec![],
            null_stdin: false,
        }
    );
}

#[test]
fn rsync_downloads_under_sshpass() {
    let config = TransferConfig {
        direction: TransferDirection::RemoteToLocal,
        profile: with_password(22),
        source_files: vec!["a".to_string()],
        source_base: "/src".to_string(),
        target_path: "/it's/dst".to_string(),
    };
    assert_eq!(
        build_rsync_command(&config, "ssh -p 1", Login::Sshpass, "a"),
        CommandSpec {
            program: "sshpass".to_string(),
            args: vec![
                "-p".to_string(),
                "se'cret".to_string(),
                "rsync".to_string(),
                "-a".to_string(),
                "--progress".to_string(),
                "-e".to_string(),
                "ssh -p 1".to_string(),
                "me@example.org:'/src/a'".to_string(),
                "/it's/dst".to_string(),
            ],
            env: vec![],
            null_stdin: false,
        }
    );
}

#[test]
fn rsync_asks_a_script_for_the_password() {
    let command = build_rsync_command(&upload(with_password(22)), "ssh", Login::Askpass, "a");
    assert_eq!(command.program, "rsync");
    assert_eq!(command.args.len(), 6);
    assert_eq!(
        command.env,
        vec![
            ("SSH_ASKPASS".to_string(), EnvValue::AskpassScript),
            ("SSH_ASKPASS_REQUIRE".to_string(), EnvValue::Text("force".to_string())),
            ("DISPLAY".to_string(), EnvValue::Text(":0".to_string())),
        ]
    );
    assert!(command.null_stdin);
}

#[test]
fn same_server_command_moves_or_copies() {
    assert_eq!(build_same_server_command(true, "/a'b", "/c d"), "mv '/a'\\''b' '/c d'");
    assert_eq!(build_same_server_command(false, "/a", "/c"), "cp -a '/a' '/c'");
}

#[test]
fn remove_command_names_the_files() {
    let files = vec!["a".to_string(), "it's".to_string(), "c d".to_string()];
    assert_eq!(
        build_remove_command("/base/", &files),
        "rm -rf '/base/a' '/base/it'\\''s' '/base/c d'"
    );
    assert_eq!(build_remove_command("/b", &vec!["x".to_string()]), "rm -rf '/b/x'");
    assert_eq!(build_remove_command("/b", &Vec::new()), "rm -rf ");
}

#[test]
fn configurations_are_copied() {
    let config = upload(with_password(22));
    assert_eq!(config.clone(), config);
    let profile = with_key(22);
    assert_eq!(profile.clone(), profile);
}
