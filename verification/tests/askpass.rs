use remote_transfer::askpass::{
    askpass_dir_created, askpass_discarded, askpass_restricted, askpass_written,
    build_script_content, build_script_name, continue_with_nonce, create_askpass_script,
    private_tmp, private_tmp_below, start_askpass_script, AskpassStep, PrivateTmp,
};
use remote_transfer::profile::Platform;
use std::path::PathBuf;

fn parts() -> Vec<String> {
    vec![".cokacdir".to_string(), "tmp".to_string()]
}

#[test]
fn private_tmp_lies_below_home() {
    let home = PathBuf::from("/home/me");
    assert_eq!(
        private_tmp_below(Some(home.clone())),
        Ok(PrivateTmp { home, parts: parts() })
    );
    assert_eq!(private_tmp_below(None), Err("Failed to get home directory".to_string()));
}

#[test]
fn home_is_that_of_the_current_user() {
    let expected = private_tmp_below(dirs::home_dir());
    assert_eq!(private_tmp(), expected);
    assert_eq!(create_askpass_script(), start_askpass_script(dirs::home_dir()));
}

#[test]
fn script_names_hold_process_and_nonce() {
    assert_eq!(build_script_name(1234, 0xbeef, Platform::Unix), "askpass_1234_0000beef");
    assert_eq!(
        build_script_name(0, 0xffffffff, Platform::Windows),
        "askpass_0_ffffffff.bat"
    );
    assert_eq!(
        build_script_name(u32::MAX, 0x0123abcd, Platform::Unix),
        "askpass_4294967295_0123abcd"
    );
}

#[test]
fn script_names_differ() {
    let name = build_script_name(12, 3, Platform::Unix);
    assert_ne!(name, build_script_name(12, 4, Platform::Unix));
    assert_ne!(name, build_script_name(1, 3, Platform::Unix));
}

#[test]
fn unix_script_echoes_the_password() {
    assert_eq!(
        build_script_content("it's $x \"y\"\nz", Platform::Unix),
        Ok("#!/bin/sh\necho 'it'\\''s $x \"y\"\nz'\n".to_string())
    );
    assert_eq!(
        build_script_content("", Platform::Unix),
        Ok("#!/bin/sh\necho ''\n".to_string())
    );
}

#[test]
fn windows_script_escapes_the_password() {
    assert_eq!(
        build_script_content("a^b&c|d<e>f%g'h", Platform::Windows),
        Ok("@echo off\necho a^^b^&c^|d^<e^>f%%g'h\n".to_string())
    );
}

#[test]
fn windows_refuses_line_ends_and_double_quotes() {
    let reason = "Password contains characters (newline or double quote) that cannot be safely \
                  embedded in a Windows askpass script.";
    for password in ["a\nb", "a\rb", "\"", "x\""] {
        assert_eq!(
            build_script_content(password, Platform::Windows),
            Err(reason.to_string())
        );
    }
}

#[test]
fn script_is_made_step_by_step_on_unix() {
    let home = PathBuf::from("/home/me");
    assert_eq!(
        start_askpass_script(Some(home.clone())),
        AskpassStep::CreateDir(PrivateTmp { home, parts: parts() })
    );
    assert_eq!(
        continue_with_nonce(Ok(()), "pw", 7, 0x1f, Platform::Unix),
        AskpassStep::Write {
            name: "askpass_7_0000001f".to_string(),
            content: "#!/bin/sh\necho 'pw'\n".to_string(),
        }
    );
    assert_eq!(askpass_written(Ok(()), Platform::Unix), AskpassStep::Restrict { mode: 0o700 });
    assert_eq!(askpass_restricted(Ok(())), AskpassStep::Ready);
}

#[test]
fn script_needs_no_permissions_on_windows() {
    assert_eq!(
        continue_with_nonce(Ok(()), "pw", 7, 0, Platform::Windows),
        AskpassStep::Write {
            name: "askpass_7_00000000.bat".to_string(),
            content: "@echo off\necho pw\n".to_string(),
        }
    );
    assert_eq!(askpass_written(Ok(()), Platform::Windows), AskpassStep::Ready);
}

#[test]
fn each_step_can_fail() {
    assert_eq!(
        start_askpass_script(None),
        AskpassStep::Failed("Failed to get home directory".to_string())
    );
    assert_eq!(
        continue_with_nonce(Err("full".to_string()), "pw", 7, 0, Platform::Unix),
        AskpassStep::Failed("Failed to create tmp dir: full".to_string())
    );
    assert!(matches!(
        continue_with_nonce(Ok(()), "\"", 7, 0, Platform::Windows),
        AskpassStep::Failed(_)
    ));
}

#[test]
fn half_made_script_is_removed_before_the_failure() {
    for (step, reason) in [
        (
            askpass_written(Err("full".to_string()), Platform::Unix),
            "Failed to create askpass script: full",
        ),
        (
            askpass_written(Err("full".to_string()), Platform::Windows),
            "Failed to create askpass script: full",
        ),
        (
            askpass_restricted(Err("denied".to_string())),
            "Failed to set script permissions: denied",
        ),
    ] {
        assert_eq!(step, AskpassStep::Discard(reason.to_string()));
        assert_eq!(
            askpass_discarded(reason.to_string()),
            AskpassStep::Failed(reason.to_string())
        );
    }
}

fn drawn_name() -> String {
    match askpass_dir_created(Ok(()), "pw", 42, Platform::Unix) {
        AskpassStep::Write { name, content } => {
            assert_eq!(content, "#!/bin/sh\necho 'pw'\n");
            name
        }
        step => panic!("{:?}", step),
    }
}

#[test]
fn nonce_is_drawn_anew() {
    let names: Vec<String> = (0..8).map(|_| drawn_name()).collect();
    for name in &names {
        assert_eq!(name.len(), "askpass_42_".len() + 8);
        assert!(name.starts_with("askpass_42_"));
        assert!(name["askpass_42_".len()..].chars().all(|c| c.is_ascii_hexdigit()));
    }
    assert!(names.iter().any(|name| *name != names[0]));
}

#[test]
fn failed_directory_is_reported_before_a_nonce_matters() {
    assert_eq!(
        askpass_dir_created(Err("full".to_string()), "pw", 42, Platform::Unix),
        AskpassStep::Failed("Failed to create tmp dir: full".to_string())
    );
}
